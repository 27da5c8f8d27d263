//! The rules of the game as the chain enforces them: for each action, the
//! state that follows from a state, or the reason why the action is refused.
//! A refused action leaves the state as it is.

use crate::states::{ChainView, GameView, PendingWinView, PlayerView};
use crate::types::{
    BaseJournal, Command, CommunicationData, EncryptedToken, FireJournal, Journal, ReportJournal,
};
use vstd::prelude::*;

verus! {

/// Why the chain refuses an action.
#[derive(Clone, Copy, Debug, PartialEq, Eq, Structural)]
pub enum ChainError {
    /// The receipt does not prove a run of the program for the action.
    InvalidProof,
    /// The signature does not fit the payload and the key.
    InvalidSignature,
    /// The key that signed is not the key that the player joined with.
    SignerMismatch,
    /// The chain knows no game under the identifier.
    GameNotFound,
    /// The game has no player under the fleet identifier.
    PlayerNotFound,
    /// The game has no player under the target's identifier.
    TargetNotFound,
    /// The fleet identifier belongs to a player with another key.
    DuplicatePlayer,
    /// The token of the journal is not the one that holds the turn.
    NotYourTurn,
    /// The board of the journal is not the board on record.
    StaleCommitment,
    /// A shot waits for its report.
    PendingShotUnreported,
    /// A claim of victory waits for a contest.
    ActiveWinClaim,
    /// There is no claim of victory to contest.
    NoWinClaim,
    /// The claimant contests the own claim.
    SelfContest,
    /// The message lacks a part, or a part is of the wrong kind.
    MalformedInput,
}

impl ChainError {
    /// The sentence that tells a player why the action was refused.
    pub open spec fn sentence(self) -> Seq<char> {
        match self {
            ChainError::InvalidProof => "Could not verify receipt"@,
            ChainError::InvalidSignature => "Invalid signature"@,
            ChainError::SignerMismatch => "Public key mismatch for player"@,
            ChainError::GameNotFound => "Game not found"@,
            ChainError::PlayerNotFound => "Player not found"@,
            ChainError::TargetNotFound => "Target does not exist"@,
            ChainError::DuplicatePlayer => "Fleet ID belongs to a player with another key"@,
            ChainError::NotYourTurn => "Invalid token: not your turn."@,
            ChainError::StaleCommitment => "Fleet commitment does not match recorded state"@,
            ChainError::PendingShotUnreported => "You must report the last shot before firing."@,
            ChainError::ActiveWinClaim => "There's a victory claim already"@,
            ChainError::NoWinClaim => "No active victory claim to contest."@,
            ChainError::SelfContest => "You cannot contest your own victory"@,
            ChainError::MalformedInput => "Malformed input"@,
        }
    }

    /// The sentence that tells a player why the action was refused.
    pub fn message(&self) -> (text: String)
        ensures
            text@ == self.sentence(),
    {
        match self {
            ChainError::InvalidProof => "Could not verify receipt".to_owned(),
            ChainError::InvalidSignature => "Invalid signature".to_owned(),
            ChainError::SignerMismatch => "Public key mismatch for player".to_owned(),
            ChainError::GameNotFound => "Game not found".to_owned(),
            ChainError::PlayerNotFound => "Player not found".to_owned(),
            ChainError::TargetNotFound => "Target does not exist".to_owned(),
            ChainError::DuplicatePlayer => {
                "Fleet ID belongs to a player with another key".to_owned()
            },
            ChainError::NotYourTurn => "Invalid token: not your turn.".to_owned(),
            ChainError::StaleCommitment => {
                "Fleet commitment does not match recorded state".to_owned()
            },
            ChainError::PendingShotUnreported => {
                "You must report the last shot before firing.".to_owned()
            },
            ChainError::ActiveWinClaim => "There's a victory claim already".to_owned(),
            ChainError::NoWinClaim => "No active victory claim to contest.".to_owned(),
            ChainError::SelfContest => "You cannot contest your own victory".to_owned(),
            ChainError::MalformedInput => "Malformed input".to_owned(),
        }
    }
}

/// Seconds for which a claim of victory can be contested.
pub const CONTEST_WINDOW_SECS: u64 = 300;

/// Seconds between two scans for claims that nobody contested.
pub const REAP_INTERVAL_SECS: u64 = 15;

/// The hash of the token that a message hands on, if it hands one on.
pub open spec fn blob_hash(token: Option<EncryptedToken>) -> Option<Seq<u8>> {
    match token {
        Some(t) => Some(t.token_hash@),
        None => None,
    }
}

/// The encrypted token that a message hands on, if it hands one on.
pub open spec fn blob_ciphertext(token: Option<EncryptedToken>) -> Option<Seq<char>> {
    match token {
        Some(t) => Some(t.enc_token@),
        None => None,
    }
}

/// The RSA key that a message names, or no bytes where it names none.
pub open spec fn blob_rsa_key(token: Option<EncryptedToken>) -> Seq<u8> {
    match token {
        Some(t) => t.pub_rsa_key@,
        None => Seq::empty(),
    }
}

/// A game that nobody has joined yet. Its turn token is the one that the
/// first join brings.
pub open spec fn new_game(token: Option<EncryptedToken>) -> GameView {
    GameView {
        players: Map::empty(),
        shot_position: None,
        pending_win: None,
        turn_commitment: blob_hash(token),
        encrypted_token: blob_ciphertext(token),
    }
}

/// The player that a join registers.
pub open spec fn joined_player(
    journal: BaseJournal,
    token: Option<EncryptedToken>,
    signer: Seq<u8>,
) -> PlayerView {
    PlayerView {
        name: journal.fleet@,
        current_state: journal.board@,
        public_key: signer,
        rsa_pubkey: blob_rsa_key(token),
    }
}

/// The game with the turn handed on as the message says.
pub open spec fn with_turn(game: GameView, token: EncryptedToken) -> GameView {
    GameView {
        turn_commitment: Some(token.token_hash@),
        encrypted_token: Some(token.enc_token@),
        ..game
    }
}

/// Join: refused while a shot or a claim of victory is pending. A fleet
/// that is in the game already may join again with its own key, which
/// changes nothing; with another key it is refused. Otherwise the player is
/// registered.
pub open spec fn join_rule(
    game: GameView,
    journal: BaseJournal,
    token: Option<EncryptedToken>,
    signer: Seq<u8>,
) -> Result<GameView, ChainError> {
    if game.shot_position is Some {
        Err(ChainError::PendingShotUnreported)
    } else if game.pending_win is Some {
        Err(ChainError::ActiveWinClaim)
    } else if game.players.contains_key(journal.fleet@) {
        if game.players[journal.fleet@].public_key == signer {
            Ok(game)
        } else {
            Err(ChainError::DuplicatePlayer)
        }
    } else {
        Ok(
            GameView {
                players: game.players.insert(journal.fleet@, joined_player(journal, token, signer)),
                ..game
            },
        )
    }
}

/// Fire: the firer must hold the turn, no shot may be pending, the firer
/// must be a player who signed with the own key and whose board is the one
/// on record, and the target must be a player. The turn passes on and the
/// shot waits for its report.
pub open spec fn fire_rule(
    game: GameView,
    journal: FireJournal,
    token: Option<EncryptedToken>,
    signer: Seq<u8>,
) -> Result<GameView, ChainError> {
    if game.turn_commitment != Some(journal.token_commitment@) {
        Err(ChainError::NotYourTurn)
    } else if game.shot_position is Some {
        Err(ChainError::PendingShotUnreported)
    } else if !game.players.contains_key(journal.fleet@) {
        Err(ChainError::PlayerNotFound)
    } else if game.players[journal.fleet@].public_key != signer {
        Err(ChainError::SignerMismatch)
    } else if game.players[journal.fleet@].current_state != journal.board@ {
        Err(ChainError::StaleCommitment)
    } else if !game.players.contains_key(journal.target@) {
        Err(ChainError::TargetNotFound)
    } else {
        match token {
            None => Err(ChainError::MalformedInput),
            Some(t) => Ok(GameView { shot_position: Some(journal.pos), ..with_turn(game, t) }),
        }
    }
}

/// Report: the reporter must hold the turn, must be a player who signed
/// with the own key, must report on the very shot that is pending, and must
/// start from the board on record. The reporter's board becomes the next
/// board of the journal, the turn passes on, and no shot is pending.
pub open spec fn report_rule(
    game: GameView,
    journal: ReportJournal,
    token: Option<EncryptedToken>,
    signer: Seq<u8>,
) -> Result<GameView, ChainError> {
    if game.turn_commitment != Some(journal.token_commitment@) {
        Err(ChainError::NotYourTurn)
    } else if !game.players.contains_key(journal.fleet@) {
        Err(ChainError::PlayerNotFound)
    } else if game.players[journal.fleet@].public_key != signer {
        Err(ChainError::SignerMismatch)
    } else if game.shot_position != Some(journal.pos) {
        Err(ChainError::MalformedInput)
    } else if game.players[journal.fleet@].current_state != journal.board@ {
        Err(ChainError::StaleCommitment)
    } else {
        match token {
            None => Err(ChainError::MalformedInput),
            Some(t) => Ok(
                GameView {
                    players: game.players.insert(
                        journal.fleet@,
                        PlayerView {
                            current_state: journal.next_board@,
                            ..game.players[journal.fleet@]
                        },
                    ),
                    shot_position: None,
                    ..with_turn(game, t)
                },
            ),
        }
    }
}

/// Wave: the player must hold the turn, no shot may be pending, and the
/// player must have signed with the own key and show the board on record.
/// The turn passes on and nothing else changes.
pub open spec fn wave_rule(
    game: GameView,
    journal: BaseJournal,
    token: Option<EncryptedToken>,
    signer: Seq<u8>,
) -> Result<GameView, ChainError> {
    if game.turn_commitment != Some(journal.token_commitment@) {
        Err(ChainError::NotYourTurn)
    } else if game.shot_position is Some {
        Err(ChainError::PendingShotUnreported)
    } else if !game.players.contains_key(journal.fleet@) {
        Err(ChainError::PlayerNotFound)
    } else if game.players[journal.fleet@].public_key != signer {
        Err(ChainError::SignerMismatch)
    } else if game.players[journal.fleet@].current_state != journal.board@ {
        Err(ChainError::StaleCommitment)
    } else {
        match token {
            None => Err(ChainError::MalformedInput),
            Some(t) => Ok(with_turn(game, t)),
        }
    }
}

/// What stands against a claim or a contest by the fleet of the journal,
/// before the claim itself is looked at.
pub open spec fn claimant_fault(
    game: GameView,
    journal: BaseJournal,
    signer: Seq<u8>,
) -> Option<ChainError> {
    if game.shot_position is Some {
        Some(ChainError::PendingShotUnreported)
    } else if !game.players.contains_key(journal.fleet@) {
        Some(ChainError::PlayerNotFound)
    } else if game.players[journal.fleet@].public_key != signer {
        Some(ChainError::SignerMismatch)
    } else if game.players[journal.fleet@].current_state != journal.board@ {
        Some(ChainError::StaleCommitment)
    } else {
        None
    }
}

/// Win: no shot may be pending, the player must have signed with the own
/// key and show the board on record, and no claim may be pending. The claim
/// is recorded with the time `now`; the turn stays where it is.
pub open spec fn win_rule(
    game: GameView,
    journal: BaseJournal,
    signer: Seq<u8>,
    now: u64,
) -> Result<GameView, ChainError> {
    match claimant_fault(game, journal, signer) {
        Some(e) => Err(e),
        None => if game.pending_win is Some {
            Err(ChainError::ActiveWinClaim)
        } else {
            Ok(
                GameView {
                    pending_win: Some(
                        PendingWinView { claimant: journal.fleet@, board: journal.board@, time: now },
                    ),
                    ..game
                },
            )
        },
    }
}

/// Contest: no shot may be pending, the player must have signed with the
/// own key and show the board on record, and there must be a claim by
/// another player. The claim is dropped and the game goes on.
pub open spec fn contest_rule(
    game: GameView,
    journal: BaseJournal,
    signer: Seq<u8>,
) -> Result<GameView, ChainError> {
    match claimant_fault(game, journal, signer) {
        Some(e) => Err(e),
        None => match game.pending_win {
            None => Err(ChainError::NoWinClaim),
            Some(claim) => if claim.claimant == journal.fleet@ {
                Err(ChainError::SelfContest)
            } else {
                Ok(GameView { pending_win: None, ..game })
            },
        },
    }
}

/// The chain after a game has taken a step, or the reason why it has not.
pub open spec fn lift(
    chain: ChainView,
    gameid: Seq<char>,
    outcome: Result<GameView, ChainError>,
) -> Result<ChainView, ChainError> {
    match outcome {
        Ok(game) => Ok(chain.insert(gameid, game)),
        Err(e) => Err(e),
    }
}

/// What the chain does with a join. The receipt must prove a run of the
/// join program. A game that does not exist yet is created.
pub open spec fn handle_join_rule(
    chain: ChainView,
    data: CommunicationData,
    signer: Seq<u8>,
) -> Result<ChainView, ChainError> {
    if !data.receipt.spec_verifies(Command::Join) {
        Err(ChainError::InvalidProof)
    } else {
        match data.receipt.journal {
            Journal::Base(journal) => {
                let game = if chain.contains_key(journal.gameid@) {
                    chain[journal.gameid@]
                } else {
                    new_game(data.token_data)
                };
                lift(chain, journal.gameid@, join_rule(game, journal, data.token_data, signer))
            },
            _ => Err(ChainError::MalformedInput),
        }
    }
}

/// What the chain does with a shot. The receipt must prove a run of the
/// fire program and the game must exist.
pub open spec fn handle_fire_rule(
    chain: ChainView,
    data: CommunicationData,
    signer: Seq<u8>,
) -> Result<ChainView, ChainError> {
    if !data.receipt.spec_verifies(Command::Fire) {
        Err(ChainError::InvalidProof)
    } else {
        match data.receipt.journal {
            Journal::Fire(journal) => if chain.contains_key(journal.gameid@) {
                lift(
                    chain,
                    journal.gameid@,
                    fire_rule(chain[journal.gameid@], journal, data.token_data, signer),
                )
            } else {
                Err(ChainError::GameNotFound)
            },
            _ => Err(ChainError::MalformedInput),
        }
    }
}

/// What the chain does with a report. The receipt must prove a run of the
/// report program and the game must exist.
pub open spec fn handle_report_rule(
    chain: ChainView,
    data: CommunicationData,
    signer: Seq<u8>,
) -> Result<ChainView, ChainError> {
    if !data.receipt.spec_verifies(Command::Report) {
        Err(ChainError::InvalidProof)
    } else {
        match data.receipt.journal {
            Journal::Report(journal) => if chain.contains_key(journal.gameid@) {
                lift(
                    chain,
                    journal.gameid@,
                    report_rule(chain[journal.gameid@], journal, data.token_data, signer),
                )
            } else {
                Err(ChainError::GameNotFound)
            },
            _ => Err(ChainError::MalformedInput),
        }
    }
}

/// What the chain does with a wave. The receipt must prove a run of the
/// wave program and the game must exist.
pub open spec fn handle_wave_rule(
    chain: ChainView,
    data: CommunicationData,
    signer: Seq<u8>,
) -> Result<ChainView, ChainError> {
    if !data.receipt.spec_verifies(Command::Wave) {
        Err(ChainError::InvalidProof)
    } else {
        match data.receipt.journal {
            Journal::Base(journal) => if chain.contains_key(journal.gameid@) {
                lift(
                    chain,
                    journal.gameid@,
                    wave_rule(chain[journal.gameid@], journal, data.token_data, signer),
                )
            } else {
                Err(ChainError::GameNotFound)
            },
            _ => Err(ChainError::MalformedInput),
        }
    }
}

/// What the chain does with a claim of victory made at the time `now`. The
/// receipt must prove a run of the win program and the game must exist.
pub open spec fn handle_win_rule(
    chain: ChainView,
    data: CommunicationData,
    signer: Seq<u8>,
    now: u64,
) -> Result<ChainView, ChainError> {
    if !data.receipt.spec_verifies(Command::Win) {
        Err(ChainError::InvalidProof)
    } else {
        match data.receipt.journal {
            Journal::Base(journal) => if chain.contains_key(journal.gameid@) {
                lift(chain, journal.gameid@, win_rule(chain[journal.gameid@], journal, signer, now))
            } else {
                Err(ChainError::GameNotFound)
            },
            _ => Err(ChainError::MalformedInput),
        }
    }
}

/// What the chain does with a contest. The receipt must prove a run of the
/// contest program and the game must exist.
pub open spec fn handle_contest_rule(
    chain: ChainView,
    data: CommunicationData,
    signer: Seq<u8>,
) -> Result<ChainView, ChainError> {
    if !data.receipt.spec_verifies(Command::Contest) {
        Err(ChainError::InvalidProof)
    } else {
        match data.receipt.journal {
            Journal::Base(journal) => if chain.contains_key(journal.gameid@) {
                lift(chain, journal.gameid@, contest_rule(chain[journal.gameid@], journal, signer))
            } else {
                Err(ChainError::GameNotFound)
            },
            _ => Err(ChainError::MalformedInput),
        }
    }
}

/// What the chain does with an action whose signature holds: it follows the
/// rule of the command that the message names.
pub open spec fn dispatch_rule(
    chain: ChainView,
    data: CommunicationData,
    signer: Seq<u8>,
    now: u64,
) -> Result<ChainView, ChainError> {
    match data.cmd {
        Command::Join => handle_join_rule(chain, data, signer),
        Command::Fire => handle_fire_rule(chain, data, signer),
        Command::Report => handle_report_rule(chain, data, signer),
        Command::Wave => handle_wave_rule(chain, data, signer),
        Command::Win => handle_win_rule(chain, data, signer, now),
        Command::Contest => handle_contest_rule(chain, data, signer),
    }
}

/// The claim of the game can no longer be contested at the time `now`.
pub open spec fn claim_expired(game: GameView, now: u64) -> bool {
    game.pending_win matches Some(claim) && now - claim.time >= CONTEST_WINDOW_SECS
}

} // verus!
