//! The records that players, proof programs and the chain exchange.

use crate::digest::Digest;
use vstd::prelude::*;

verus! {

/// What a proof program reads for the actions join, wave, win and contest.
#[derive(Clone, Debug, PartialEq, Eq)]
pub struct BaseInputs {
    pub gameid: String,
    pub fleet: String,
    pub board: Vec<u8>,
    pub random: String,
    pub token_auth: Option<TokenAuth>,
}

/// What a proof program reads for the actions fire and report. For a report,
/// `target` holds the outcome, "Hit" or "Miss".
#[derive(Clone, Debug, PartialEq, Eq)]
pub struct FireInputs {
    pub gameid: String,
    pub fleet: String,
    pub board: Vec<u8>,
    pub random: String,
    pub target: String,
    pub pos: u8,
    pub token_auth: Option<TokenAuth>,
}

/// The proof that a player holds the turn: the token as decrypted, and the
/// hash that the chain has on record for it.
#[derive(Clone, Debug, PartialEq, Eq)]
pub struct TokenAuth {
    pub token: Vec<u8>,
    pub expected_hash: Digest,
}

/// The action that a message asks the chain to take.
#[derive(Clone, Copy, Debug, PartialEq, Eq, Structural)]
pub enum Command {
    Join,
    Fire,
    Report,
    Wave,
    Win,
    Contest,
}

/// The turn token as it travels to its next holder: the ciphertext in
/// base 64, the hash of the plain token, and the RSA key it was encrypted to.
#[derive(Clone, Debug, PartialEq, Eq)]
pub struct EncryptedToken {
    pub enc_token: String,
    pub token_hash: Digest,
    pub pub_rsa_key: Vec<u8>,
}

/// A payload with the signature over it and the key that signed it.
#[derive(Clone, Debug, PartialEq, Eq)]
pub struct SignedMessage<T> {
    pub payload: T,
    pub signature: Vec<u8>,
    pub public_key: Vec<u8>,
}

/// The public output of the proofs for join, wave, win and contest.
#[derive(Clone, Debug, PartialEq, Eq)]
pub struct BaseJournal {
    pub gameid: String,
    pub fleet: String,
    pub board: Digest,
    pub token_commitment: Digest,
}

/// The public output of the proof for fire.
#[derive(Clone, Debug, PartialEq, Eq)]
pub struct FireJournal {
    pub gameid: String,
    pub fleet: String,
    pub board: Digest,
    pub target: String,
    pub pos: u8,
    pub token_commitment: Digest,
}

/// The public output of the proof for report.
#[derive(Clone, Debug, PartialEq, Eq)]
pub struct ReportJournal {
    pub gameid: String,
    pub fleet: String,
    pub report: String,
    pub pos: u8,
    pub board: Digest,
    pub next_board: Digest,
    pub token_commitment: Digest,
}

/// The journal of a receipt, decoded as the kind that its action calls for.
#[derive(Clone, Debug, PartialEq, Eq)]
pub enum Journal {
    Base(BaseJournal),
    Fire(FireJournal),
    Report(ReportJournal),
}

/// What the chain reads of a receipt: the proof program whose run it
/// proves, or `None` where the proof does not hold, and the journal.
#[derive(Clone, Debug, PartialEq, Eq)]
pub struct Receipt {
    pub program: Option<Command>,
    pub journal: Journal,
}

/// What a player signs and sends to the chain.
#[derive(Clone, Debug, PartialEq, Eq)]
pub struct CommunicationData {
    pub cmd: Command,
    pub receipt: Receipt,
    pub token_data: Option<EncryptedToken>,
}

impl Journal {
    /// The game that the journal speaks of.
    pub open spec fn spec_gameid(&self) -> Seq<char> {
        match self {
            Journal::Base(j) => j.gameid@,
            Journal::Fire(j) => j.gameid@,
            Journal::Report(j) => j.gameid@,
        }
    }

    /// The fleet that the journal speaks for.
    pub open spec fn spec_fleet(&self) -> Seq<char> {
        match self {
            Journal::Base(j) => j.fleet@,
            Journal::Fire(j) => j.fleet@,
            Journal::Report(j) => j.fleet@,
        }
    }

    /// The game that the journal speaks of.
    pub fn gameid(&self) -> (id: &String)
        ensures
            id@ == self.spec_gameid(),
    {
        match self {
            Journal::Base(j) => &j.gameid,
            Journal::Fire(j) => &j.gameid,
            Journal::Report(j) => &j.gameid,
        }
    }

    /// The fleet that the journal speaks for.
    pub fn fleet(&self) -> (id: &String)
        ensures
            id@ == self.spec_fleet(),
    {
        match self {
            Journal::Base(j) => &j.fleet,
            Journal::Fire(j) => &j.fleet,
            Journal::Report(j) => &j.fleet,
        }
    }
}

impl Receipt {
    /// The receipt proves a run of the program for `cmd`.
    pub open spec fn spec_verifies(&self, cmd: Command) -> bool {
        self.program == Some(cmd)
    }

    /// Whether the receipt proves a run of the program for `cmd`.
    #[verifier::when_used_as_spec(spec_verifies)]
    pub fn verifies(&self, cmd: Command) -> (ok: bool)
        ensures
            ok == self.spec_verifies(cmd),
    {
        match self.program {
            Some(program) => program == cmd,
            None => false,
        }
    }
}

} // verus!
