use fleetcore::digest::{hash_board, Digest};
use fleetcore::handlers::{
    handle_contest, handle_fire, handle_join, handle_report, handle_wave, handle_win,
};
use fleetcore::authenticate::check_signer;
use fleetcore::node::{
    get_player_list, get_rsa_key, get_token_data, is_expired, reap_expired_claims,
    token_recipient, xy_pos, LookupError,
};
use fleetcore::rules::{ChainError, CONTEST_WINDOW_SECS, REAP_INTERVAL_SECS};
use fleetcore::states::ChainState;
use fleetcore::types::{
    BaseJournal, Command, CommunicationData, EncryptedToken, FireJournal, Journal, Receipt,
    ReportJournal,
};

const GAME: &str = "game-1";

fn key_of(fleet: &str) -> Vec<u8> {
    format!("dilithium-key-of-{}", fleet).into_bytes()
}

fn rsa_of(fleet: &str) -> Vec<u8> {
    format!("rsa-key-of-{}", fleet).into_bytes()
}

fn token_hash(token: &str) -> Digest {
    Digest::of(token.as_bytes())
}

fn board_of(fleet: &str) -> Digest {
    hash_board(&[0, 1, 2, 3, 4, 6, 7, 8, 9, 20, 21, 22, 24, 25, 27, 28, 40, 42], fleet)
}

/// The token `token`, encrypted to the fleet `to`.
fn blob(token: &str, to: &str) -> Option<EncryptedToken> {
    Some(EncryptedToken {
        enc_token: format!("{}-for-{}", token, to),
        token_hash: token_hash(token),
        pub_rsa_key: rsa_of(to),
    })
}

fn base(fleet: &str, board: Digest, token_commitment: Digest) -> Journal {
    Journal::Base(BaseJournal {
        gameid: GAME.to_string(),
        fleet: fleet.to_string(),
        board,
        token_commitment,
    })
}

fn message(cmd: Command, journal: Journal, token_data: Option<EncryptedToken>) -> CommunicationData {
    CommunicationData { cmd, receipt: Receipt { program: Some(cmd), journal }, token_data }
}

fn join_message(fleet: &str, token: &str) -> CommunicationData {
    message(Command::Join, base(fleet, board_of(fleet), Digest::zero()), blob(token, fleet))
}

fn fire_message(fleet: &str, target: &str, pos: u8, held: &str, next: &str) -> CommunicationData {
    message(
        Command::Fire,
        Journal::Fire(FireJournal {
            gameid: GAME.to_string(),
            fleet: fleet.to_string(),
            board: board_of(fleet),
            target: target.to_string(),
            pos,
            token_commitment: token_hash(held),
        }),
        blob(next, target),
    )
}

fn report_message(
    fleet: &str,
    report: &str,
    pos: u8,
    board: Digest,
    next_board: Digest,
    held: &str,
    next: &str,
) -> CommunicationData {
    message(
        Command::Report,
        Journal::Report(ReportJournal {
            gameid: GAME.to_string(),
            fleet: fleet.to_string(),
            report: report.to_string(),
            pos,
            board,
            next_board,
            token_commitment: token_hash(held),
        }),
        blob(next, fleet),
    )
}

fn wave_message(fleet: &str, held: &str, next: &str, to: &str) -> CommunicationData {
    message(Command::Wave, base(fleet, board_of(fleet), token_hash(held)), blob(next, to))
}

fn win_message(fleet: &str) -> CommunicationData {
    message(Command::Win, base(fleet, board_of(fleet), Digest::zero()), None)
}

fn contest_message(fleet: &str) -> CommunicationData {
    message(Command::Contest, base(fleet, board_of(fleet), Digest::zero()), None)
}

/// A chain with one game that the fleets A and B have joined. A holds the
/// turn with the token "t0".
fn two_players() -> ChainState {
    let mut chain = ChainState::new();
    assert_eq!(handle_join(&mut chain, &join_message("A", "t0"), &key_of("A")), Ok(()));
    assert_eq!(handle_join(&mut chain, &join_message("B", "tb"), &key_of("B")), Ok(()));
    chain
}

/// The chain of `two_players` after A has fired at cell 34 of B with the
/// new token "t1".
fn after_fire() -> ChainState {
    let mut chain = two_players();
    assert_eq!(handle_fire(&mut chain, &fire_message("A", "B", 34, "t0", "t1"), &key_of("A")), Ok(()));
    chain
}

fn snapshot(chain: &ChainState) -> String {
    let mut out = String::new();
    for id in chain.game_ids() {
        let game = chain.game(&id).unwrap();
        out.push_str(&format!(
            "{}: shot {:?} turn {:?} token {:?} claim {:?};",
            id,
            game.shot_position,
            game.turn_commitment,
            game.encrypted_token,
            game.pending_win.as_ref().map(|w| (w.claimant.clone(), w.board, w.time))
        ));
        for name in get_player_list(chain, &id) {
            let p = game.pmap.get(&name).unwrap();
            out.push_str(&format!(
                " {} {:?} {:?} {:?};",
                p.name, p.current_state, p.public_key, p.rsa_pubkey
            ));
        }
    }
    out
}

#[test]
fn first_join_creates_the_game_and_brings_the_turn() {
    let mut chain = ChainState::new();
    assert_eq!(chain.len(), 0);
    assert!(chain.game(GAME).is_none());
    assert_eq!(handle_join(&mut chain, &join_message("A", "t0"), &key_of("A")), Ok(()));
    assert_eq!(chain.len(), 1);
    let game = chain.game(GAME).unwrap();
    assert_eq!(game.turn_commitment, Some(token_hash("t0")));
    assert_eq!(game.encrypted_token, Some("t0-for-A".to_string()));
    assert_eq!(game.shot_position, None);
    assert!(game.pending_win.is_none());
    let player = game.pmap.get("A").unwrap();
    assert_eq!(player.name, "A");
    assert_eq!(player.current_state, board_of("A"));
    assert_eq!(player.public_key, key_of("A"));
    assert_eq!(player.rsa_pubkey, rsa_of("A"));
}

#[test]
fn second_join_leaves_the_turn_with_the_first() {
    let chain = two_players();
    let game = chain.game(GAME).unwrap();
    assert_eq!(game.turn_commitment, Some(token_hash("t0")));
    assert_eq!(game.encrypted_token, Some("t0-for-A".to_string()));
    assert_eq!(get_player_list(&chain, GAME), vec!["A".to_string(), "B".to_string()]);
    assert_eq!(game.pmap.get("B").unwrap().rsa_pubkey, rsa_of("B"));
}

#[test]
fn join_without_token_data_registers_without_rsa_key() {
    let mut chain = ChainState::new();
    let msg = message(Command::Join, base("A", board_of("A"), Digest::zero()), None);
    assert_eq!(handle_join(&mut chain, &msg, &key_of("A")), Ok(()));
    let game = chain.game(GAME).unwrap();
    assert_eq!(game.turn_commitment, None);
    assert_eq!(game.encrypted_token, None);
    assert_eq!(game.pmap.get("A").unwrap().rsa_pubkey, Vec::<u8>::new());
}

#[test]
fn join_again_with_same_key_changes_nothing() {
    let mut chain = two_players();
    let before = snapshot(&chain);
    assert_eq!(handle_join(&mut chain, &join_message("A", "t0"), &key_of("A")), Ok(()));
    assert_eq!(snapshot(&chain), before);
    // not even with another token or another board
    let other = message(Command::Join, base("B", board_of("X"), Digest::zero()), blob("zz", "B"));
    assert_eq!(handle_join(&mut chain, &other, &key_of("B")), Ok(()));
    assert_eq!(snapshot(&chain), before);
}

#[test]
fn join_with_the_id_of_another_player_is_refused() {
    let mut chain = two_players();
    let before = snapshot(&chain);
    assert_eq!(
        handle_join(&mut chain, &join_message("A", "t9"), &key_of("C")),
        Err(ChainError::DuplicatePlayer)
    );
    assert_eq!(snapshot(&chain), before);
}

#[test]
fn join_is_refused_while_a_shot_is_pending() {
    let mut chain = after_fire();
    let before = snapshot(&chain);
    assert_eq!(
        handle_join(&mut chain, &join_message("C", "tc"), &key_of("C")),
        Err(ChainError::PendingShotUnreported)
    );
    assert_eq!(snapshot(&chain), before);
}

#[test]
fn join_is_refused_while_a_claim_is_pending() {
    let mut chain = two_players();
    assert_eq!(handle_win(&mut chain, &win_message("A"), &key_of("A"), 1000), Ok(()));
    assert_eq!(
        handle_join(&mut chain, &join_message("C", "tc"), &key_of("C")),
        Err(ChainError::ActiveWinClaim)
    );
}

#[test]
fn fire_records_the_shot_and_passes_the_turn() {
    // fresh game, two joins, then A fires at cell 34 of B with the right token
    let chain = after_fire();
    let game = chain.game(GAME).unwrap();
    assert_eq!(game.shot_position, Some(34));
    assert_eq!(game.turn_commitment, Some(token_hash("t1")));
    assert_eq!(game.turn_commitment, Some(Digest::of(b"t1")));
    assert_eq!(game.encrypted_token, Some("t1-for-B".to_string()));
    assert_eq!(game.pmap.get("A").unwrap().current_state, board_of("A"));
    assert_eq!(game.pmap.get("B").unwrap().current_state, board_of("B"));
}

#[test]
fn miss_report_gives_the_turn_to_the_reporter() {
    let mut chain = after_fire();
    let msg = report_message("B", "Miss", 34, board_of("B"), board_of("B"), "t1", "t2");
    assert_eq!(handle_report(&mut chain, &msg, &key_of("B")), Ok(()));
    let game = chain.game(GAME).unwrap();
    assert_eq!(game.shot_position, None);
    assert_eq!(game.turn_commitment, Some(token_hash("t2")));
    assert_eq!(game.encrypted_token, Some("t2-for-B".to_string()));
    assert_eq!(game.pmap.get("B").unwrap().current_state, board_of("B"));
    // A's turn has not come back: A's old token no longer holds the turn
    assert_eq!(
        handle_fire(&mut chain, &fire_message("A", "B", 35, "t0", "t3"), &key_of("A")),
        Err(ChainError::NotYourTurn)
    );
    // B can fire with the new token
    assert_eq!(handle_fire(&mut chain, &fire_message("B", "A", 12, "t2", "t3"), &key_of("B")), Ok(()));
    assert_eq!(chain.game(GAME).unwrap().shot_position, Some(12));
}

#[test]
fn hit_report_moves_the_board_on() {
    let mut chain = after_fire();
    let after_hit = hash_board(&[0, 1, 2, 3, 4], "B-next");
    let msg = report_message("B", "Hit", 34, board_of("B"), after_hit, "t1", "t2");
    assert_eq!(handle_report(&mut chain, &msg, &key_of("B")), Ok(()));
    let game = chain.game(GAME).unwrap();
    assert_eq!(game.pmap.get("B").unwrap().current_state, after_hit);
    assert_eq!(game.pmap.get("A").unwrap().current_state, board_of("A"));
    assert_eq!(game.shot_position, None);
    assert_eq!(game.turn_commitment, Some(token_hash("t2")));
    assert_eq!(game.encrypted_token, Some("t2-for-B".to_string()));
    // B kept key and place
    assert_eq!(game.pmap.get("B").unwrap().public_key, key_of("B"));
    assert_eq!(game.pmap.get("B").unwrap().rsa_pubkey, rsa_of("B"));
    assert_eq!(get_player_list(&chain, GAME), vec!["A".to_string(), "B".to_string()]);
}

#[test]
fn after_a_shot_only_a_report_is_accepted() {
    let mut chain = after_fire();
    let before = snapshot(&chain);
    assert_eq!(
        handle_fire(&mut chain, &fire_message("B", "A", 1, "t1", "t2"), &key_of("B")),
        Err(ChainError::PendingShotUnreported)
    );
    assert_eq!(
        handle_wave(&mut chain, &wave_message("B", "t1", "t2", "A"), &key_of("B")),
        Err(ChainError::PendingShotUnreported)
    );
    assert_eq!(
        handle_win(&mut chain, &win_message("A"), &key_of("A"), 5),
        Err(ChainError::PendingShotUnreported)
    );
    assert_eq!(
        handle_contest(&mut chain, &contest_message("B"), &key_of("B")),
        Err(ChainError::PendingShotUnreported)
    );
    assert_eq!(
        handle_join(&mut chain, &join_message("C", "tc"), &key_of("C")),
        Err(ChainError::PendingShotUnreported)
    );
    assert_eq!(snapshot(&chain), before);
    // the firer cannot report either: the token went to the target
    let msg = report_message("A", "Miss", 34, board_of("A"), board_of("A"), "t0", "t2");
    assert_eq!(handle_report(&mut chain, &msg, &key_of("A")), Err(ChainError::NotYourTurn));
    assert_eq!(snapshot(&chain), before);
}

#[test]
fn fire_errors_in_order() {
    let mut chain = two_players();
    let before = snapshot(&chain);
    let good = fire_message("A", "B", 34, "t0", "t1");

    let mut unproved = good.clone();
    unproved.receipt.program = None;
    assert_eq!(handle_fire(&mut chain, &unproved, &key_of("A")), Err(ChainError::InvalidProof));
    let mut other_program = good.clone();
    other_program.receipt.program = Some(Command::Wave);
    assert_eq!(handle_fire(&mut chain, &other_program, &key_of("A")), Err(ChainError::InvalidProof));

    let mut wrong_kind = good.clone();
    wrong_kind.receipt.journal = base("A", board_of("A"), token_hash("t0"));
    assert_eq!(handle_fire(&mut chain, &wrong_kind, &key_of("A")), Err(ChainError::MalformedInput));

    let mut elsewhere = good.clone();
    if let Journal::Fire(j) = &mut elsewhere.receipt.journal {
        j.gameid = "no-such-game".to_string();
    }
    assert_eq!(handle_fire(&mut chain, &elsewhere, &key_of("A")), Err(ChainError::GameNotFound));

    assert_eq!(
        handle_fire(&mut chain, &fire_message("A", "B", 34, "stale", "t1"), &key_of("A")),
        Err(ChainError::NotYourTurn)
    );
    assert_eq!(
        handle_fire(&mut chain, &fire_message("C", "B", 34, "t0", "t1"), &key_of("C")),
        Err(ChainError::PlayerNotFound)
    );
    assert_eq!(handle_fire(&mut chain, &good, &key_of("B")), Err(ChainError::SignerMismatch));

    let mut other_board = good.clone();
    if let Journal::Fire(j) = &mut other_board.receipt.journal {
        j.board = board_of("somebody else");
    }
    assert_eq!(handle_fire(&mut chain, &other_board, &key_of("A")), Err(ChainError::StaleCommitment));

    assert_eq!(
        handle_fire(&mut chain, &fire_message("A", "C", 34, "t0", "t1"), &key_of("A")),
        Err(ChainError::TargetNotFound)
    );

    let mut no_token = good.clone();
    no_token.token_data = None;
    assert_eq!(handle_fire(&mut chain, &no_token, &key_of("A")), Err(ChainError::MalformedInput));

    assert_eq!(snapshot(&chain), before);
    assert_eq!(handle_fire(&mut chain, &good, &key_of("A")), Ok(()));
}

#[test]
fn report_errors_in_order() {
    let mut chain = after_fire();
    let before = snapshot(&chain);
    let good = report_message("B", "Miss", 34, board_of("B"), board_of("B"), "t1", "t2");

    let mut unproved = good.clone();
    unproved.receipt.program = Some(Command::Fire);
    assert_eq!(handle_report(&mut chain, &unproved, &key_of("B")), Err(ChainError::InvalidProof));

    let mut wrong_kind = good.clone();
    wrong_kind.receipt.journal = base("B", board_of("B"), token_hash("t1"));
    assert_eq!(handle_report(&mut chain, &wrong_kind, &key_of("B")), Err(ChainError::MalformedInput));

    let mut elsewhere = good.clone();
    if let Journal::Report(j) = &mut elsewhere.receipt.journal {
        j.gameid = "no-such-game".to_string();
    }
    assert_eq!(handle_report(&mut chain, &elsewhere, &key_of("B")), Err(ChainError::GameNotFound));

    let stale = report_message("B", "Miss", 34, board_of("B"), board_of("B"), "t0", "t2");
    assert_eq!(handle_report(&mut chain, &stale, &key_of("B")), Err(ChainError::NotYourTurn));

    let stranger = report_message("C", "Miss", 34, board_of("C"), board_of("C"), "t1", "t2");
    assert_eq!(handle_report(&mut chain, &stranger, &key_of("C")), Err(ChainError::PlayerNotFound));

    assert_eq!(handle_report(&mut chain, &good, &key_of("A")), Err(ChainError::SignerMismatch));

    let other_cell = report_message("B", "Miss", 35, board_of("B"), board_of("B"), "t1", "t2");
    assert_eq!(handle_report(&mut chain, &other_cell, &key_of("B")), Err(ChainError::MalformedInput));

    let other_board = report_message("B", "Miss", 34, board_of("X"), board_of("X"), "t1", "t2");
    assert_eq!(handle_report(&mut chain, &other_board, &key_of("B")), Err(ChainError::StaleCommitment));

    let mut no_token = good.clone();
    no_token.token_data = None;
    assert_eq!(handle_report(&mut chain, &no_token, &key_of("B")), Err(ChainError::MalformedInput));

    assert_eq!(snapshot(&chain), before);
    assert_eq!(handle_report(&mut chain, &good, &key_of("B")), Ok(()));
}

#[test]
fn report_without_a_pending_shot_is_refused() {
    let mut chain = two_players();
    let msg = report_message("A", "Miss", 34, board_of("A"), board_of("A"), "t0", "t2");
    assert_eq!(handle_report(&mut chain, &msg, &key_of("A")), Err(ChainError::MalformedInput));
}

#[test]
fn wave_passes_the_turn_and_nothing_else() {
    let mut chain = two_players();
    assert_eq!(handle_wave(&mut chain, &wave_message("A", "t0", "t1", "B"), &key_of("A")), Ok(()));
    let game = chain.game(GAME).unwrap();
    assert_eq!(game.turn_commitment, Some(token_hash("t1")));
    assert_eq!(game.encrypted_token, Some("t1-for-B".to_string()));
    assert_eq!(game.shot_position, None);
    assert!(game.pending_win.is_none());
    assert_eq!(game.pmap.get("A").unwrap().current_state, board_of("A"));
    assert_eq!(game.pmap.get("B").unwrap().current_state, board_of("B"));
}

#[test]
fn wave_errors_in_order() {
    let mut chain = two_players();
    let before = snapshot(&chain);
    let good = wave_message("A", "t0", "t1", "B");

    let mut unproved = good.clone();
    unproved.receipt.program = Some(Command::Join);
    assert_eq!(handle_wave(&mut chain, &unproved, &key_of("A")), Err(ChainError::InvalidProof));

    let mut wrong_kind = good.clone();
    wrong_kind.receipt.journal = fire_message("A", "B", 1, "t0", "t1").receipt.journal;
    assert_eq!(handle_wave(&mut chain, &wrong_kind, &key_of("A")), Err(ChainError::MalformedInput));

    let mut elsewhere = good.clone();
    if let Journal::Base(j) = &mut elsewhere.receipt.journal {
        j.gameid = "no-such-game".to_string();
    }
    assert_eq!(handle_wave(&mut chain, &elsewhere, &key_of("A")), Err(ChainError::GameNotFound));
    assert_eq!(
        handle_wave(&mut chain, &wave_message("B", "tb", "t1", "A"), &key_of("B")),
        Err(ChainError::NotYourTurn)
    );
    assert_eq!(
        handle_wave(&mut chain, &wave_message("C", "t0", "t1", "B"), &key_of("C")),
        Err(ChainError::PlayerNotFound)
    );
    assert_eq!(handle_wave(&mut chain, &good, &key_of("B")), Err(ChainError::SignerMismatch));
    let mut other_board = good.clone();
    if let Journal::Base(j) = &mut other_board.receipt.journal {
        j.board = board_of("X");
    }
    assert_eq!(handle_wave(&mut chain, &other_board, &key_of("A")), Err(ChainError::StaleCommitment));
    let mut no_token = good.clone();
    no_token.token_data = None;
    assert_eq!(handle_wave(&mut chain, &no_token, &key_of("A")), Err(ChainError::MalformedInput));
    assert_eq!(snapshot(&chain), before);
}

#[test]
fn win_records_the_claim() {
    let mut chain = two_players();
    assert_eq!(handle_win(&mut chain, &win_message("A"), &key_of("A"), 1000), Ok(()));
    let game = chain.game(GAME).unwrap();
    let claim = game.pending_win.as_ref().unwrap();
    assert_eq!(claim.claimant, "A");
    assert_eq!(claim.board, board_of("A"));
    assert_eq!(claim.time, 1000);
    // the turn stays where it was
    assert_eq!(game.turn_commitment, Some(token_hash("t0")));
    assert_eq!(game.encrypted_token, Some("t0-for-A".to_string()));
}

#[test]
fn second_win_is_refused_and_contest_clears_the_claim() {
    // A claims victory; B's own claim is refused; B contests; the game goes on
    let mut chain = two_players();
    assert_eq!(handle_win(&mut chain, &win_message("A"), &key_of("A"), 1000), Ok(()));
    let before = snapshot(&chain);
    assert_eq!(
        handle_win(&mut chain, &win_message("B"), &key_of("B"), 1001),
        Err(ChainError::ActiveWinClaim)
    );
    assert_eq!(snapshot(&chain), before);
    assert_eq!(handle_contest(&mut chain, &contest_message("B"), &key_of("B")), Ok(()));
    let game = chain.game(GAME).unwrap();
    assert!(game.pending_win.is_none());
    assert_eq!(game.turn_commitment, Some(token_hash("t0")));
    assert_eq!(get_player_list(&chain, GAME).len(), 2);
    // play continues
    assert_eq!(handle_fire(&mut chain, &fire_message("A", "B", 34, "t0", "t1"), &key_of("A")), Ok(()));
}

#[test]
fn win_and_contest_errors_in_order() {
    let mut chain = two_players();
    let before = snapshot(&chain);
    let mut unproved = win_message("A");
    unproved.receipt.program = Some(Command::Contest);
    assert_eq!(handle_win(&mut chain, &unproved, &key_of("A"), 1), Err(ChainError::InvalidProof));
    let mut unproved = contest_message("A");
    unproved.receipt.program = Some(Command::Win);
    assert_eq!(handle_contest(&mut chain, &unproved, &key_of("A")), Err(ChainError::InvalidProof));

    let mut wrong_kind = win_message("A");
    wrong_kind.receipt.journal = fire_message("A", "B", 1, "t0", "t1").receipt.journal;
    assert_eq!(handle_win(&mut chain, &wrong_kind, &key_of("A"), 1), Err(ChainError::MalformedInput));
    let mut wrong_kind = contest_message("A");
    wrong_kind.receipt.journal = fire_message("A", "B", 1, "t0", "t1").receipt.journal;
    assert_eq!(handle_contest(&mut chain, &wrong_kind, &key_of("A")), Err(ChainError::MalformedInput));

    let mut elsewhere = win_message("A");
    if let Journal::Base(j) = &mut elsewhere.receipt.journal {
        j.gameid = "no-such-game".to_string();
    }
    assert_eq!(handle_win(&mut chain, &elsewhere, &key_of("A"), 1), Err(ChainError::GameNotFound));
    elsewhere.cmd = Command::Contest;
    elsewhere.receipt.program = Some(Command::Contest);
    assert_eq!(handle_contest(&mut chain, &elsewhere, &key_of("A")), Err(ChainError::GameNotFound));

    assert_eq!(handle_win(&mut chain, &win_message("C"), &key_of("C"), 1), Err(ChainError::PlayerNotFound));
    assert_eq!(handle_contest(&mut chain, &contest_message("C"), &key_of("C")), Err(ChainError::PlayerNotFound));
    assert_eq!(handle_win(&mut chain, &win_message("A"), &key_of("B"), 1), Err(ChainError::SignerMismatch));
    assert_eq!(handle_contest(&mut chain, &contest_message("A"), &key_of("B")), Err(ChainError::SignerMismatch));

    let mut other_board = win_message("A");
    if let Journal::Base(j) = &mut other_board.receipt.journal {
        j.board = board_of("X");
    }
    assert_eq!(handle_win(&mut chain, &other_board, &key_of("A"), 1), Err(ChainError::StaleCommitment));
    other_board.cmd = Command::Contest;
    other_board.receipt.program = Some(Command::Contest);
    assert_eq!(handle_contest(&mut chain, &other_board, &key_of("A")), Err(ChainError::StaleCommitment));

    assert_eq!(handle_contest(&mut chain, &contest_message("B"), &key_of("B")), Err(ChainError::NoWinClaim));
    assert_eq!(snapshot(&chain), before);

    assert_eq!(handle_win(&mut chain, &win_message("A"), &key_of("A"), 1), Ok(()));
    let before = snapshot(&chain);
    assert_eq!(handle_contest(&mut chain, &contest_message("A"), &key_of("A")), Err(ChainError::SelfContest));
    assert_eq!(snapshot(&chain), before);
}

#[test]
fn join_errors_for_bad_receipts() {
    let mut chain = ChainState::new();
    let mut unproved = join_message("A", "t0");
    unproved.receipt.program = None;
    assert_eq!(handle_join(&mut chain, &unproved, &key_of("A")), Err(ChainError::InvalidProof));
    let mut wrong_kind = join_message("A", "t0");
    wrong_kind.receipt.journal = fire_message("A", "B", 1, "t0", "t1").receipt.journal;
    assert_eq!(handle_join(&mut chain, &wrong_kind, &key_of("A")), Err(ChainError::MalformedInput));
    assert_eq!(chain.len(), 0);
}

#[test]
fn games_are_apart() {
    let mut chain = two_players();
    let mut other = join_message("A", "u0");
    if let Journal::Base(j) = &mut other.receipt.journal {
        j.gameid = "game-2".to_string();
    }
    // the same fleet id under another key, in another game
    assert_eq!(handle_join(&mut chain, &other, &key_of("Z")), Ok(()));
    assert_eq!(chain.len(), 2);
    assert_eq!(chain.game_ids(), vec![GAME.to_string(), "game-2".to_string()]);
    assert_eq!(handle_fire(&mut chain, &fire_message("A", "B", 34, "t0", "t1"), &key_of("A")), Ok(()));
    let second = chain.game("game-2").unwrap();
    assert_eq!(second.shot_position, None);
    assert_eq!(second.turn_commitment, Some(token_hash("u0")));
    assert_eq!(second.pmap.get("A").unwrap().public_key, key_of("Z"));
    assert_eq!(chain.game_ids(), vec![GAME.to_string(), "game-2".to_string()]);
}

#[test]
fn unchallenged_claim_is_finalized_after_the_window() {
    // A claims victory at time 1000; nobody contests
    let mut chain = two_players();
    assert_eq!(handle_win(&mut chain, &win_message("A"), &key_of("A"), 1000), Ok(()));
    assert_eq!(CONTEST_WINDOW_SECS, 300);
    assert_eq!(REAP_INTERVAL_SECS, 15);
    assert!(!is_expired(chain.game(GAME).unwrap(), 1000));
    assert!(!is_expired(chain.game(GAME).unwrap(), 1299));
    assert!(is_expired(chain.game(GAME).unwrap(), 1300));
    // a clock that runs behind the claim does not expire it
    assert!(!is_expired(chain.game(GAME).unwrap(), 0));
    assert_eq!(reap_expired_claims(&mut chain, 1299), Vec::<String>::new());
    assert_eq!(chain.len(), 1);
    assert_eq!(reap_expired_claims(&mut chain, 1300), vec![GAME.to_string()]);
    assert_eq!(chain.len(), 0);
    assert!(chain.game(GAME).is_none());
    assert_eq!(reap_expired_claims(&mut chain, 5000), Vec::<String>::new());
}

#[test]
fn reaper_leaves_other_games_alone() {
    let mut chain = ChainState::new();
    for (id, claim) in [("g1", Some(100u64)), ("g2", None), ("g3", Some(500)), ("g4", Some(90))] {
        let mut join = join_message("A", "t0");
        if let Journal::Base(j) = &mut join.receipt.journal {
            j.gameid = id.to_string();
        }
        assert_eq!(handle_join(&mut chain, &join, &key_of("A")), Ok(()));
        if let Some(time) = claim {
            let mut win = win_message("A");
            if let Journal::Base(j) = &mut win.receipt.journal {
                j.gameid = id.to_string();
            }
            assert_eq!(handle_win(&mut chain, &win, &key_of("A"), time), Ok(()));
        }
    }
    let g2 = snapshot(&chain);
    assert_eq!(reap_expired_claims(&mut chain, 400), vec!["g1".to_string(), "g4".to_string()]);
    assert_eq!(chain.game_ids(), vec!["g2".to_string(), "g3".to_string()]);
    assert!(g2.contains(&snapshot(&chain)));
    assert_eq!(chain.game("g3").unwrap().pending_win.as_ref().unwrap().time, 500);
    assert_eq!(reap_expired_claims(&mut chain, 800), vec!["g3".to_string()]);
    assert_eq!(chain.game_ids(), vec!["g2".to_string()]);
}

#[test]
fn contested_claim_is_not_finalized() {
    let mut chain = two_players();
    assert_eq!(handle_win(&mut chain, &win_message("A"), &key_of("A"), 1000), Ok(()));
    assert_eq!(handle_contest(&mut chain, &contest_message("B"), &key_of("B")), Ok(()));
    assert_eq!(reap_expired_claims(&mut chain, 2000), Vec::<String>::new());
    assert_eq!(chain.len(), 1);
}

#[test]
fn token_data_of_a_game() {
    let chain = two_players();
    let data = get_token_data(&chain, GAME).unwrap();
    assert_eq!(data.enc_token, "t0-for-A");
    assert_eq!(data.token_hash, token_hash("t0").bytes);
    assert_eq!(get_token_data(&chain, "nope"), Err(LookupError::GameNotFound));
    let mut bare = ChainState::new();
    let msg = message(Command::Join, base("A", board_of("A"), Digest::zero()), None);
    assert_eq!(handle_join(&mut bare, &msg, &key_of("A")), Ok(()));
    assert_eq!(get_token_data(&bare, GAME), Err(LookupError::NoToken));
}

#[test]
fn rsa_key_of_a_fleet() {
    let chain = two_players();
    // base 64 of "rsa-key-of-B"
    assert_eq!(get_rsa_key(&chain, GAME, "B"), Ok("cnNhLWtleS1vZi1C".to_string()));
    assert_eq!(get_rsa_key(&chain, GAME, "C"), Err(LookupError::FleetNotFound));
    assert_eq!(get_rsa_key(&chain, "nope", "B"), Err(LookupError::GameNotFound));
}

#[test]
fn player_list_of_a_game() {
    let chain = two_players();
    assert_eq!(get_player_list(&chain, GAME), vec!["A".to_string(), "B".to_string()]);
    assert_eq!(get_player_list(&chain, "nope"), Vec::<String>::new());
}

#[test]
fn cells_as_players_read_them() {
    assert_eq!(xy_pos(Some(0)), "A0");
    assert_eq!(xy_pos(Some(34)), "E3");
    assert_eq!(xy_pos(Some(99)), "J9");
    assert_eq!(xy_pos(Some(9)), "J0");
    assert_eq!(xy_pos(Some(90)), "A9");
    assert_eq!(xy_pos(Some(100)), "A10");
    assert_eq!(xy_pos(Some(255)), "F25");
    assert_eq!(xy_pos(None), "None");
}

#[test]
fn chain_errors_have_sentences() {
    assert_eq!(ChainError::InvalidProof.message(), "Could not verify receipt");
    assert_eq!(ChainError::InvalidSignature.message(), "Invalid signature");
    assert_eq!(ChainError::SignerMismatch.message(), "Public key mismatch for player");
    assert_eq!(ChainError::GameNotFound.message(), "Game not found");
    assert_eq!(ChainError::PlayerNotFound.message(), "Player not found");
    assert_eq!(ChainError::TargetNotFound.message(), "Target does not exist");
    assert_eq!(
        ChainError::DuplicatePlayer.message(),
        "Fleet ID belongs to a player with another key"
    );
    assert_eq!(ChainError::NotYourTurn.message(), "Invalid token: not your turn.");
    assert_eq!(
        ChainError::StaleCommitment.message(),
        "Fleet commitment does not match recorded state"
    );
    assert_eq!(
        ChainError::PendingShotUnreported.message(),
        "You must report the last shot before firing."
    );
    assert_eq!(ChainError::ActiveWinClaim.message(), "There's a victory claim already");
    assert_eq!(ChainError::NoWinClaim.message(), "No active victory claim to contest.");
    assert_eq!(ChainError::SelfContest.message(), "You cannot contest your own victory");
    assert_eq!(ChainError::MalformedInput.message(), "Malformed input");
}

#[test]
fn lookup_errors_have_sentences() {
    assert_eq!(LookupError::GameNotFound.message(), "Game not found");
    assert_eq!(LookupError::FleetNotFound.message(), "Fleet not found");
    assert_eq!(LookupError::NoToken.message(), "No token available");
}

#[test]
fn recipient_of_a_token() {
    let chain = two_players();
    let game = chain.game(GAME).unwrap();
    assert_eq!(token_recipient(game, &blob("t1", "B")), Some("B".to_string()));
    assert_eq!(token_recipient(game, &blob("t1", "A")), Some("A".to_string()));
    assert_eq!(token_recipient(game, &blob("t1", "C")), None);
    assert_eq!(token_recipient(game, &None), None);
}

#[test]
fn signer_is_checked_against_the_key_on_record() {
    let chain = two_players();
    let journal = base("A", board_of("A"), Digest::zero());
    assert_eq!(check_signer(&chain, &journal, &key_of("A")), Ok(()));
    assert_eq!(check_signer(&chain, &journal, &key_of("B")), Err(ChainError::SignerMismatch));
    assert_eq!(check_signer(&chain, &journal, &[]), Err(ChainError::SignerMismatch));
    // a fleet that has not joined may sign with any key
    let journal = base("C", board_of("C"), Digest::zero());
    assert_eq!(check_signer(&chain, &journal, &key_of("A")), Ok(()));
    // and so may any fleet in a game that does not exist
    let mut journal = base("A", board_of("A"), Digest::zero());
    if let Journal::Base(j) = &mut journal {
        j.gameid = "no-such-game".to_string();
    }
    assert_eq!(check_signer(&chain, &journal, &key_of("B")), Ok(()));
    // the kind of the journal does not matter
    let fire = fire_message("A", "B", 1, "t0", "t1").receipt.journal;
    assert_eq!(check_signer(&chain, &fire, &key_of("B")), Err(ChainError::SignerMismatch));
    let report = report_message("B", "Hit", 1, board_of("B"), board_of("B"), "t0", "t1");
    assert_eq!(check_signer(&chain, &report.receipt.journal, &key_of("B")), Ok(()));
}
