//! What holds of the protocol as a whole, beyond what each function says of
//! itself.

use crate::authenticate::registered_under_other_key;
use crate::node::accepted;
use crate::digest::{board_commitment, sha256};
use crate::guest::{
    board_before_hit, cell_leq, is_hit_journal, outcome_fault, sorted_board,
};
use crate::rules::{
    claim_expired, contest_rule, dispatch_rule, fire_rule, handle_contest_rule,
    handle_fire_rule, handle_join_rule, handle_report_rule, handle_wave_rule, handle_win_rule,
    join_rule, report_rule, wave_rule, win_rule, ChainError, CONTEST_WINDOW_SECS,
    REAP_INTERVAL_SECS,
};
use crate::signing::signature_valid;
use crate::states::{ChainView, GameView};
use crate::types::{
    BaseJournal, Command, CommunicationData, EncryptedToken, FireInputs, FireJournal, Journal,
    ReportJournal, SignedMessage,
};
use vstd::prelude::*;
use vstd::relations::sorted_by;

verus! {

/// The journal is of the kind that the command calls for.
pub open spec fn journal_fits(cmd: Command, journal: Journal) -> bool {
    match cmd {
        Command::Fire => journal is Fire,
        Command::Report => journal is Report,
        _ => journal is Base,
    }
}

/// The chain acts on a message only if the signature on it holds, the
/// receipt proves a run of the program for the command that the message
/// names, the journal is of the kind that the command calls for, and the
/// fleet, where it is in the game already, has signed with the key that it
/// joined with.
pub proof fn law_action_needs_signature_and_proof(
    chain: ChainView,
    signed: SignedMessage<CommunicationData>,
    message_bytes: Seq<u8>,
    now: u64,
)
    requires
        accepted(chain, signed, message_bytes, now) is Ok,
    ensures
        signature_valid(message_bytes, signed.signature@, signed.public_key@),
        signed.payload.receipt.spec_verifies(signed.payload.cmd),
        journal_fits(signed.payload.cmd, signed.payload.receipt.journal),
        !registered_under_other_key(
            chain,
            signed.payload.receipt.journal.spec_gameid(),
            signed.payload.receipt.journal.spec_fleet(),
            signed.public_key@,
        ),
{
}

/// A handler acts only on a receipt that proves a run of its own program.
pub proof fn law_handler_needs_its_proof(
    chain: ChainView,
    data: CommunicationData,
    signer: Seq<u8>,
    now: u64,
)
    ensures
        handle_join_rule(chain, data, signer) is Ok ==> data.receipt.spec_verifies(Command::Join),
        handle_fire_rule(chain, data, signer) is Ok ==> data.receipt.spec_verifies(Command::Fire),
        handle_report_rule(chain, data, signer) is Ok ==> data.receipt.spec_verifies(
            Command::Report,
        ),
        handle_wave_rule(chain, data, signer) is Ok ==> data.receipt.spec_verifies(Command::Wave),
        handle_win_rule(chain, data, signer, now) is Ok ==> data.receipt.spec_verifies(
            Command::Win,
        ),
        handle_contest_rule(chain, data, signer) is Ok ==> data.receipt.spec_verifies(
            Command::Contest,
        ),
{
}

/// After a shot the cell of the shot is on record, and the turn is with
/// the token that the shot handed on.
pub proof fn law_fire_records_the_shot(
    game: GameView,
    journal: FireJournal,
    token: Option<EncryptedToken>,
    signer: Seq<u8>,
)
    requires
        fire_rule(game, journal, token, signer) is Ok,
    ensures
        fire_rule(game, journal, token, signer).unwrap().shot_position == Some(journal.pos),
        token is Some,
        fire_rule(game, journal, token, signer).unwrap().turn_commitment == Some(
            token.unwrap().token_hash@,
        ),
        fire_rule(game, journal, token, signer).unwrap().encrypted_token == Some(
            token.unwrap().enc_token@,
        ),
        fire_rule(game, journal, token, signer).unwrap().players == game.players,
{
}

/// While a shot waits for its report, the game takes no join, no shot, no
/// wave, no claim of victory and no contest: only a report can move it on.
pub proof fn law_pending_shot_blocks_all_but_report(
    game: GameView,
    base: BaseJournal,
    fire: FireJournal,
    token: Option<EncryptedToken>,
    signer: Seq<u8>,
    now: u64,
)
    requires
        game.shot_position is Some,
    ensures
        join_rule(game, base, token, signer) is Err,
        fire_rule(game, fire, token, signer) is Err,
        wave_rule(game, base, token, signer) is Err,
        win_rule(game, base, signer, now) is Err,
        contest_rule(game, base, signer) is Err,
{
}

/// The same for the chain: a message for a game in which a shot waits for
/// its report is refused unless it is a report.
pub proof fn law_pending_shot_blocks_the_chain(
    chain: ChainView,
    data: CommunicationData,
    signer: Seq<u8>,
    now: u64,
)
    requires
        chain.contains_key(data.receipt.journal.spec_gameid()),
        chain[data.receipt.journal.spec_gameid()].shot_position is Some,
        data.cmd != Command::Report,
    ensures
        dispatch_rule(chain, data, signer, now) is Err,
{
}

/// The report that follows a shot is made with the token that the shot
/// handed on, which was encrypted to the target, and confirms the cell of
/// the shot.
pub proof fn law_report_answers_the_shot(
    game: GameView,
    shot: FireJournal,
    shot_token: Option<EncryptedToken>,
    firer: Seq<u8>,
    report: ReportJournal,
    report_token: Option<EncryptedToken>,
    reporter: Seq<u8>,
)
    requires
        fire_rule(game, shot, shot_token, firer) is Ok,
        report_rule(
            fire_rule(game, shot, shot_token, firer).unwrap(),
            report,
            report_token,
            reporter,
        ) is Ok,
    ensures
        shot_token is Some,
        report.token_commitment@ == shot_token.unwrap().token_hash@,
        report.pos == shot.pos,
        report_rule(
            fire_rule(game, shot, shot_token, firer).unwrap(),
            report,
            report_token,
            reporter,
        ).unwrap().shot_position is None,
{
}

/// The board before a hit is the board after it with the cell that was hit
/// put back: it holds the same cells and that cell once more, in ascending
/// order.
pub proof fn lemma_board_before_hit(board: Seq<u8>, pos: u8)
    ensures
        sorted_by(board_before_hit(board, pos), cell_leq()),
        board_before_hit(board, pos).to_multiset() == board.to_multiset().insert(pos),
        board_before_hit(board, pos).len() == board.len() + 1,
{
    let leq = cell_leq();
    assert(vstd::relations::total_ordering(leq)) by {
        assert(vstd::relations::reflexive(leq));
        assert(vstd::relations::antisymmetric(leq));
        assert(vstd::relations::transitive(leq));
        assert(vstd::relations::strongly_connected(leq));
    }
    board.push(pos).lemma_sort_by_ensures(leq);
    vstd::seq_lib::to_multiset_build(board, pos);
    vstd::seq_lib::to_multiset_len(board.push(pos));
    vstd::seq_lib::to_multiset_len(sorted_board(board.push(pos)));
}

/// After a reported hit is accepted, the reporter's board on record is the
/// commitment to the board that the proof was made from: the board before
/// the hit without the cell that was hit. The board on record before was
/// the commitment to the board with that cell.
pub proof fn law_hit_moves_the_board_on(
    game: GameView,
    input: FireInputs,
    journal: ReportJournal,
    token: Option<EncryptedToken>,
    signer: Seq<u8>,
)
    requires
        outcome_fault(input) is None,
        is_hit_journal(journal, input),
        report_rule(game, journal, token, signer) is Ok,
    ensures
        game.players[journal.fleet@].current_state == board_commitment(
            board_before_hit(input.board@, input.pos),
            input.random@,
        ),
        report_rule(game, journal, token, signer).unwrap().players[journal.fleet@].current_state
            == board_commitment(input.board@, input.random@),
        !input.board@.contains(input.pos),
        board_before_hit(input.board@, input.pos).to_multiset().remove(input.pos)
            == input.board@.to_multiset(),
{
    lemma_board_before_hit(input.board@, input.pos);
    assert(input.board@.to_multiset().insert(input.pos).remove(input.pos)
        =~= input.board@.to_multiset());
}

/// The turn moves in one piece: an accepted action leaves the hash of the
/// turn token and the encrypted token as they are, or takes both from the
/// message.
pub proof fn law_turn_moves_in_one_piece(
    game: GameView,
    base: BaseJournal,
    fire: FireJournal,
    report: ReportJournal,
    token: Option<EncryptedToken>,
    signer: Seq<u8>,
    now: u64,
)
    ensures
        join_rule(game, base, token, signer) is Ok ==> same_turn(
            game,
            join_rule(game, base, token, signer).unwrap(),
        ),
        win_rule(game, base, signer, now) is Ok ==> same_turn(
            game,
            win_rule(game, base, signer, now).unwrap(),
        ),
        contest_rule(game, base, signer) is Ok ==> same_turn(
            game,
            contest_rule(game, base, signer).unwrap(),
        ),
        fire_rule(game, fire, token, signer) is Ok ==> turn_from(
            fire_rule(game, fire, token, signer).unwrap(),
            token,
        ),
        report_rule(game, report, token, signer) is Ok ==> turn_from(
            report_rule(game, report, token, signer).unwrap(),
            token,
        ),
        wave_rule(game, base, token, signer) is Ok ==> turn_from(
            wave_rule(game, base, token, signer).unwrap(),
            token,
        ),
{
}

/// The turn is where it was.
pub open spec fn same_turn(before: GameView, after: GameView) -> bool {
    &&& after.turn_commitment == before.turn_commitment
    &&& after.encrypted_token == before.encrypted_token
}

/// The turn is with the token of the message.
pub open spec fn turn_from(after: GameView, token: Option<EncryptedToken>) -> bool {
    &&& token is Some
    &&& after.turn_commitment == Some(token.unwrap().token_hash@)
    &&& after.encrypted_token == Some(token.unwrap().enc_token@)
}

/// Where the message hands on a token whose hash is the SHA-256 hash of the
/// plain token, as the client prepares it, the chain has that hash on
/// record after an action that passes the turn, and after the first join of
/// a new game.
pub proof fn law_turn_commitment_is_hash_of_token(
    chain: ChainView,
    data: CommunicationData,
    signer: Seq<u8>,
    now: u64,
    plain: Seq<u8>,
)
    requires
        data.token_data is Some,
        data.token_data.unwrap().token_hash@ == sha256(plain),
        dispatch_rule(chain, data, signer, now) is Ok,
        data.cmd == Command::Fire || data.cmd == Command::Report || data.cmd == Command::Wave || (
        data.cmd == Command::Join && !chain.contains_key(data.receipt.journal.spec_gameid())),
    ensures
        dispatch_rule(chain, data, signer, now).unwrap()[data.receipt.journal.spec_gameid()].turn_commitment
            == Some(sha256(plain)),
        dispatch_rule(chain, data, signer, now).unwrap()[data.receipt.journal.spec_gameid()].encrypted_token
            == Some(data.token_data.unwrap().enc_token@),
{
}

/// A claim of victory made at the time `claimed_at` has expired at every
/// time from 300 seconds later on, and at no time before.
pub proof fn law_claim_expires_after_the_window(game: GameView, now: u64)
    requires
        game.pending_win is Some,
    ensures
        claim_expired(game, now) <==> now >= game.pending_win.unwrap().time + CONTEST_WINDOW_SECS,
{
}

/// Where the chain is scanned every 15 seconds, the first scan that finds a
/// claim expired comes less than 15 seconds after the end of the window.
pub proof fn law_scan_finds_expired_claim_in_time(game: GameView, earlier_scan: u64, scan: u64)
    requires
        game.pending_win is Some,
        scan == earlier_scan + REAP_INTERVAL_SECS,
        !claim_expired(game, earlier_scan),
        claim_expired(game, scan),
    ensures
        scan < game.pending_win.unwrap().time + CONTEST_WINDOW_SECS + REAP_INTERVAL_SECS,
{
}

/// Only a contest takes a claim of victory off the record: every other
/// action that the game accepts leaves a pending claim as it is.
pub proof fn law_only_contest_clears_a_claim(
    game: GameView,
    base: BaseJournal,
    fire: FireJournal,
    report: ReportJournal,
    token: Option<EncryptedToken>,
    signer: Seq<u8>,
    now: u64,
)
    requires
        game.pending_win is Some,
    ensures
        join_rule(game, base, token, signer) is Err,
        win_rule(game, base, signer, now) is Err,
        fire_rule(game, fire, token, signer) is Ok ==> fire_rule(
            game,
            fire,
            token,
            signer,
        ).unwrap().pending_win == game.pending_win,
        report_rule(game, report, token, signer) is Ok ==> report_rule(
            game,
            report,
            token,
            signer,
        ).unwrap().pending_win == game.pending_win,
        wave_rule(game, base, token, signer) is Ok ==> wave_rule(
            game,
            base,
            token,
            signer,
        ).unwrap().pending_win == game.pending_win,
        contest_rule(game, base, signer) is Ok ==> contest_rule(
            game,
            base,
            signer,
        ).unwrap().pending_win is None,
{
}

/// A join by a fleet that is in the game already, with the key that the
/// fleet joined with, is accepted and changes nothing.
pub proof fn law_join_again_changes_nothing(
    game: GameView,
    journal: BaseJournal,
    token: Option<EncryptedToken>,
    signer: Seq<u8>,
)
    requires
        game.shot_position is None,
        game.pending_win is None,
        game.players.contains_key(journal.fleet@),
        game.players[journal.fleet@].public_key == signer,
    ensures
        join_rule(game, journal, token, signer) == Ok::<GameView, ChainError>(game),
{
}

/// Join is idempotent: a join that was accepted is accepted again, whatever
/// token the second message brings, and leaves the game as the first join
/// left it.
pub proof fn law_join_is_idempotent(
    game: GameView,
    journal: BaseJournal,
    token: Option<EncryptedToken>,
    again: Option<EncryptedToken>,
    signer: Seq<u8>,
)
    requires
        join_rule(game, journal, token, signer) is Ok,
    ensures
        join_rule(join_rule(game, journal, token, signer).unwrap(), journal, again, signer)
            == join_rule(game, journal, token, signer),
{
}

/// The same for the chain: the message of a join that was accepted is
/// accepted again and leaves the chain as the first join left it.
pub proof fn law_join_is_idempotent_on_chain(
    chain: ChainView,
    data: CommunicationData,
    signer: Seq<u8>,
)
    requires
        handle_join_rule(chain, data, signer) is Ok,
    ensures
        handle_join_rule(handle_join_rule(chain, data, signer).unwrap(), data, signer)
            == handle_join_rule(chain, data, signer),
{
    let after = handle_join_rule(chain, data, signer).unwrap();
    match data.receipt.journal {
        Journal::Base(journal) => {
            let id = journal.gameid@;
            let game = after[id];
            assert(after.contains_key(id));
            assert(join_rule(game, journal, data.token_data, signer) == Ok::<GameView, ChainError>(
                game,
            ));
            assert(after.insert(id, game) =~= after);
        },
        _ => {},
    }
}

/// The players of `before` are players of `after`, each with the keys that
/// it joined with.
pub open spec fn keys_kept(before: GameView, after: GameView) -> bool {
    forall|fleet: Seq<char>|
        #![trigger before.players.contains_key(fleet)]
        before.players.contains_key(fleet) ==> {
            &&& after.players.contains_key(fleet)
            &&& after.players[fleet].name == before.players[fleet].name
            &&& after.players[fleet].public_key == before.players[fleet].public_key
            &&& after.players[fleet].rsa_pubkey == before.players[fleet].rsa_pubkey
        }
}

/// The keys of a player are fixed at join: no action that the game accepts
/// takes a player out of the game or changes a key.
pub proof fn law_keys_are_fixed_at_join(
    game: GameView,
    base: BaseJournal,
    fire: FireJournal,
    report: ReportJournal,
    token: Option<EncryptedToken>,
    signer: Seq<u8>,
    now: u64,
)
    ensures
        join_rule(game, base, token, signer) is Ok ==> keys_kept(
            game,
            join_rule(game, base, token, signer).unwrap(),
        ),
        fire_rule(game, fire, token, signer) is Ok ==> keys_kept(
            game,
            fire_rule(game, fire, token, signer).unwrap(),
        ),
        report_rule(game, report, token, signer) is Ok ==> keys_kept(
            game,
            report_rule(game, report, token, signer).unwrap(),
        ),
        wave_rule(game, base, token, signer) is Ok ==> keys_kept(
            game,
            wave_rule(game, base, token, signer).unwrap(),
        ),
        win_rule(game, base, signer, now) is Ok ==> keys_kept(
            game,
            win_rule(game, base, signer, now).unwrap(),
        ),
        contest_rule(game, base, signer) is Ok ==> keys_kept(
            game,
            contest_rule(game, base, signer).unwrap(),
        ),
{
}

/// Only a report changes a board on record, and only the reporter's: every
/// other action that the game accepts leaves the boards of all players as
/// they are, but for a join, which puts the board of the new player on
/// record.
pub proof fn law_only_report_moves_a_board(
    game: GameView,
    base: BaseJournal,
    fire: FireJournal,
    report: ReportJournal,
    token: Option<EncryptedToken>,
    signer: Seq<u8>,
    now: u64,
    fleet: Seq<char>,
)
    requires
        game.players.contains_key(fleet),
    ensures
        join_rule(game, base, token, signer) is Ok ==> join_rule(
            game,
            base,
            token,
            signer,
        ).unwrap().players[fleet] == game.players[fleet],
        fire_rule(game, fire, token, signer) is Ok ==> fire_rule(
            game,
            fire,
            token,
            signer,
        ).unwrap().players == game.players,
        wave_rule(game, base, token, signer) is Ok ==> wave_rule(
            game,
            base,
            token,
            signer,
        ).unwrap().players == game.players,
        win_rule(game, base, signer, now) is Ok ==> win_rule(
            game,
            base,
            signer,
            now,
        ).unwrap().players == game.players,
        contest_rule(game, base, signer) is Ok ==> contest_rule(
            game,
            base,
            signer,
        ).unwrap().players == game.players,
        report_rule(game, report, token, signer) is Ok && fleet != report.fleet@ ==> report_rule(
            game,
            report,
            token,
            signer,
        ).unwrap().players[fleet] == game.players[fleet],
{
}

/// An action touches one game: the chain after an action that it accepts
/// holds every other game as it was, and no game has left it.
pub proof fn law_other_games_are_untouched(
    chain: ChainView,
    data: CommunicationData,
    signer: Seq<u8>,
    now: u64,
    other: Seq<char>,
)
    requires
        dispatch_rule(chain, data, signer, now) is Ok,
        other != data.receipt.journal.spec_gameid(),
    ensures
        dispatch_rule(chain, data, signer, now).unwrap().contains_key(other) == chain.contains_key(
            other,
        ),
        chain.contains_key(other) ==> dispatch_rule(chain, data, signer, now).unwrap()[other]
            == chain[other],
        chain.contains_key(data.receipt.journal.spec_gameid()) ==> dispatch_rule(
            chain,
            data,
            signer,
            now,
        ).unwrap().contains_key(data.receipt.journal.spec_gameid()),
{
}

} // verus!
