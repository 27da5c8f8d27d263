use fleetcore::digest::{hash_board, Digest};
use fleetcore::guest::{
    contest_journal, fire_journal, join_journal, report_journal, wave_journal, win_journal,
};
use fleetcore::node::reap_expired_claims;
use fleetcore::handlers::{
    handle_contest, handle_fire, handle_join, handle_report, handle_wave, handle_win,
};
use fleetcore::rules::ChainError;
use fleetcore::states::ChainState;
use fleetcore::types::{
    BaseInputs, Command, CommunicationData, EncryptedToken, FireInputs, Journal, Receipt,
    TokenAuth,
};

const GAME: &str = "atlantic";

struct Fleet {
    name: &'static str,
    nonce: &'static str,
    board: Vec<u8>,
}

impl Fleet {
    fn key(&self) -> Vec<u8> {
        format!("key-{}", self.name).into_bytes()
    }

    fn base(&self, token: Option<&[u8]>) -> BaseInputs {
        BaseInputs {
            gameid: GAME.to_string(),
            fleet: self.name.to_string(),
            board: self.board.clone(),
            random: self.nonce.to_string(),
            token_auth: token.map(auth),
        }
    }

    fn shot(&self, target: &str, pos: u8, token: &[u8]) -> FireInputs {
        FireInputs {
            gameid: GAME.to_string(),
            fleet: self.name.to_string(),
            board: self.board.clone(),
            random: self.nonce.to_string(),
            target: target.to_string(),
            pos,
            token_auth: Some(auth(token)),
        }
    }

    fn commitment(&self) -> Digest {
        hash_board(&self.board, self.nonce)
    }
}

/// The proof of holding the token `token`, as a holder makes it who knows the
/// hash on record.
fn auth(token: &[u8]) -> TokenAuth {
    TokenAuth { token: token.to_vec(), expected_hash: Digest::of(token) }
}

/// The token `token` on its way to the fleet `to`.
fn blob(token: &[u8], to: &str) -> Option<EncryptedToken> {
    Some(EncryptedToken {
        enc_token: format!("sealed-for-{}", to),
        token_hash: Digest::of(token),
        pub_rsa_key: format!("rsa-{}", to).into_bytes(),
    })
}

fn message(cmd: Command, journal: Journal, token_data: Option<EncryptedToken>) -> CommunicationData {
    CommunicationData { cmd, receipt: Receipt { program: Some(cmd), journal }, token_data }
}

fn alice() -> Fleet {
    Fleet {
        name: "alice",
        nonce: "a-secret",
        board: vec![0, 1, 2, 3, 4, 6, 7, 8, 9, 20, 21, 22, 24, 25, 27, 28, 40, 42],
    }
}

fn bob() -> Fleet {
    Fleet {
        name: "bob",
        nonce: "b-secret",
        board: vec![0, 2, 4, 6, 8, 10, 12, 14, 16, 18, 20, 22, 24, 30, 32, 40, 90, 99],
    }
}

/// Alice and Bob have joined; Alice holds the turn with the token "turn-0".
fn joined() -> ChainState {
    let mut chain = ChainState::new();
    for (fleet, token) in [(alice(), &b"turn-0"[..]), (bob(), &b"unused"[..])] {
        let journal = join_journal(&fleet.base(None)).unwrap();
        let join = message(Command::Join, Journal::Base(journal), blob(token, fleet.name));
        assert_eq!(handle_join(&mut chain, &join, &fleet.key()), Ok(()));
    }
    chain
}

fn fired_at(pos: u8) -> ChainState {
    let mut chain = joined();
    let journal = fire_journal(&alice().shot("bob", pos, b"turn-0")).unwrap();
    let fire = message(Command::Fire, Journal::Fire(journal), blob(b"turn-1", "bob"));
    assert_eq!(handle_fire(&mut chain, &fire, &alice().key()), Ok(()));
    chain
}

#[test]
fn bobs_board_is_legal() {
    assert!(join_journal(&bob().base(None)).is_ok());
}

#[test]
fn joined_players_are_on_record_with_their_commitments() {
    let chain = joined();
    let game = chain.game(GAME).unwrap();
    assert_eq!(game.pmap.get("alice").unwrap().current_state, alice().commitment());
    assert_eq!(game.pmap.get("bob").unwrap().current_state, bob().commitment());
    assert_eq!(game.turn_commitment, Some(Digest::of(b"turn-0")));
}

#[test]
fn shot_at_cell_34_is_recorded() {
    let chain = fired_at(34);
    let game = chain.game(GAME).unwrap();
    assert_eq!(game.shot_position, Some(34));
    assert_eq!(game.turn_commitment, Some(Digest::of(b"turn-1")));
    assert_eq!(game.encrypted_token, Some("sealed-for-bob".to_string()));
}

#[test]
fn miss_at_cell_34_leaves_the_board_and_gives_bob_the_turn() {
    let mut chain = fired_at(34);
    let mut inputs = bob().shot("Miss", 34, b"turn-1");
    inputs.token_auth = Some(auth(b"turn-1"));
    let journal = report_journal(&inputs).unwrap();
    let report = message(Command::Report, Journal::Report(journal), blob(b"turn-2", "bob"));
    assert_eq!(handle_report(&mut chain, &report, &bob().key()), Ok(()));
    let game = chain.game(GAME).unwrap();
    assert_eq!(game.shot_position, None);
    assert_eq!(game.pmap.get("bob").unwrap().current_state, bob().commitment());
    assert_eq!(game.turn_commitment, Some(Digest::of(b"turn-2")));
    // Alice's token is spent
    let journal = fire_journal(&alice().shot("bob", 35, b"turn-0")).unwrap();
    let fire = message(Command::Fire, Journal::Fire(journal), blob(b"turn-3", "bob"));
    assert_eq!(handle_fire(&mut chain, &fire, &alice().key()), Err(ChainError::NotYourTurn));
}

#[test]
fn hit_at_cell_20_moves_bobs_board_to_the_board_without_it() {
    let mut chain = fired_at(20);
    let mut after = bob();
    after.board.retain(|&c| c != 20);
    let journal = report_journal(&after.shot("Hit", 20, b"turn-1")).unwrap();
    assert_eq!(journal.board, bob().commitment());
    assert_eq!(journal.next_board, after.commitment());
    let report = message(Command::Report, Journal::Report(journal), blob(b"turn-2", "bob"));
    assert_eq!(handle_report(&mut chain, &report, &bob().key()), Ok(()));
    let game = chain.game(GAME).unwrap();
    assert_eq!(game.pmap.get("bob").unwrap().current_state, hash_board(&after.board, "b-secret"));
    assert_eq!(game.pmap.get("alice").unwrap().current_state, alice().commitment());
    assert_eq!(game.shot_position, None);
    assert_eq!(game.turn_commitment, Some(Digest::of(b"turn-2")));

    // Bob goes on with the board that is left
    let journal = fire_journal(&after.shot("alice", 0, b"turn-2")).unwrap();
    let fire = message(Command::Fire, Journal::Fire(journal), blob(b"turn-3", "alice"));
    assert_eq!(handle_fire(&mut chain, &fire, &bob().key()), Ok(()));
    // and no longer with the board he joined with
    let mut chain = fired_at(20);
    let journal = report_journal(&after.shot("Hit", 20, b"turn-1")).unwrap();
    let report = message(Command::Report, Journal::Report(journal), blob(b"turn-2", "bob"));
    assert_eq!(handle_report(&mut chain, &report, &bob().key()), Ok(()));
    let journal = fire_journal(&bob().shot("alice", 0, b"turn-2")).unwrap();
    let fire = message(Command::Fire, Journal::Fire(journal), blob(b"turn-3", "alice"));
    assert_eq!(handle_fire(&mut chain, &fire, &bob().key()), Err(ChainError::StaleCommitment));
}

#[test]
fn denying_a_hit_does_not_go_through() {
    // Bob was hit at 20 and reports a miss from his full board: no proof
    assert!(report_journal(&bob().shot("Miss", 20, b"turn-1")).is_err());
    // Bob reports a miss from a board without the cell: the chain knows another board
    let mut chain = fired_at(20);
    let mut after = bob();
    after.board.retain(|&c| c != 20);
    let journal = report_journal(&after.shot("Miss", 20, b"turn-1")).unwrap();
    let report = message(Command::Report, Journal::Report(journal), blob(b"turn-2", "bob"));
    assert_eq!(handle_report(&mut chain, &report, &bob().key()), Err(ChainError::StaleCommitment));
}

#[test]
fn wave_hands_the_turn_on() {
    let mut chain = joined();
    let journal = wave_journal(&alice().base(Some(b"turn-0"))).unwrap();
    let wave = message(Command::Wave, Journal::Base(journal), blob(b"turn-1", "bob"));
    assert_eq!(handle_wave(&mut chain, &wave, &alice().key()), Ok(()));
    assert_eq!(chain.game(GAME).unwrap().turn_commitment, Some(Digest::of(b"turn-1")));
    // a wave proved with a token that is not on record is not accepted
    let journal = wave_journal(&alice().base(Some(b"turn-0"))).unwrap();
    let wave = message(Command::Wave, Journal::Base(journal), blob(b"turn-9", "bob"));
    assert_eq!(handle_wave(&mut chain, &wave, &alice().key()), Err(ChainError::NotYourTurn));
}

#[test]
fn claim_contest_and_finalization() {
    let mut chain = joined();
    let win = message(Command::Win, Journal::Base(win_journal(&alice().base(None)).unwrap()), None);
    assert_eq!(handle_win(&mut chain, &win, &alice().key(), 10), Ok(()));
    let claim = chain.game(GAME).unwrap().pending_win.as_ref().unwrap();
    assert_eq!(claim.claimant, "alice");
    assert_eq!(claim.board, alice().commitment());

    let bobs_win = message(Command::Win, Journal::Base(win_journal(&bob().base(None)).unwrap()), None);
    assert_eq!(handle_win(&mut chain, &bobs_win, &bob().key(), 11), Err(ChainError::ActiveWinClaim));

    let contest = message(
        Command::Contest,
        Journal::Base(contest_journal(&bob().base(None)).unwrap()),
        None,
    );
    assert_eq!(handle_contest(&mut chain, &contest, &bob().key()), Ok(()));
    assert!(chain.game(GAME).unwrap().pending_win.is_none());
    assert_eq!(reap_expired_claims(&mut chain, 1000), Vec::<String>::new());

    // a second claim, which nobody contests
    assert_eq!(handle_win(&mut chain, &win, &alice().key(), 1000), Ok(()));
    assert_eq!(reap_expired_claims(&mut chain, 1299), Vec::<String>::new());
    assert_eq!(reap_expired_claims(&mut chain, 1300), vec![GAME.to_string()]);
    assert!(chain.game(GAME).is_none());
    assert_eq!(handle_contest(&mut chain, &contest, &bob().key()), Err(ChainError::GameNotFound));
}
