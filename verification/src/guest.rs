//! The six proof programs. Each reads the private inputs of one action,
//! checks what the player claims, and gives the journal that becomes public,
//! or the reason why no proof can be made.

use crate::board::valid_board;
use crate::digest::{board_commitment, hash_board, sha256, zero_digest, Digest};
use crate::types::{BaseInputs, BaseJournal, FireInputs, FireJournal, ReportJournal, TokenAuth};
use crate::validate::validate_battleship_board;
use vstd::prelude::*;
use vstd::relations::{sorted_by, total_ordering};
use vstd::seq_lib::{lemma_sorted_unique, to_multiset_build, to_multiset_insert};

verus! {

/// Why a proof program refuses its inputs.
#[derive(Clone, Copy, Debug, PartialEq, Eq, Structural)]
pub enum GuestError {
    /// The board is not a legal fleet.
    InvalidFleet,
    /// The fleet has no cell left.
    EmptyFleet,
    /// The inputs carry no turn token.
    TokenMissing,
    /// The token does not hash to the commitment on record.
    TokenMismatch,
    /// The report is neither "Hit" nor "Miss".
    InvalidReport,
    /// The board still holds the cell that was shot at.
    PositionOnBoard,
}

impl GuestError {
    /// The sentence that tells a player why no proof could be made.
    pub open spec fn sentence(self) -> Seq<char> {
        match self {
            GuestError::InvalidFleet => "Invalid fleet configuration"@,
            GuestError::EmptyFleet => "Your fleet is fully sunk"@,
            GuestError::TokenMissing => "Token hash missing"@,
            GuestError::TokenMismatch => "Token mismatch: you do not own the turn"@,
            GuestError::InvalidReport => "Invalid report value"@,
            GuestError::PositionOnBoard => "The board still holds the position that was shot at"@,
        }
    }

    /// The sentence that tells a player why no proof could be made.
    pub fn message(&self) -> (text: String)
        ensures
            text@ == self.sentence(),
    {
        match self {
            GuestError::InvalidFleet => "Invalid fleet configuration".to_owned(),
            GuestError::EmptyFleet => "Your fleet is fully sunk".to_owned(),
            GuestError::TokenMissing => "Token hash missing".to_owned(),
            GuestError::TokenMismatch => "Token mismatch: you do not own the turn".to_owned(),
            GuestError::InvalidReport => "Invalid report value".to_owned(),
            GuestError::PositionOnBoard => {
                "The board still holds the position that was shot at".to_owned()
            },
        }
    }
}

/// The order of cells on a board.
pub open spec fn cell_leq() -> spec_fn(u8, u8) -> bool {
    |a: u8, b: u8| a <= b
}

/// The cells of `board` in ascending order.
pub open spec fn sorted_board(board: Seq<u8>) -> Seq<u8> {
    board.sort_by(cell_leq())
}

/// The board before a hit: the cells left after it and the cell that was
/// hit, in ascending order.
pub open spec fn board_before_hit(board: Seq<u8>, pos: u8) -> Seq<u8> {
    sorted_board(board.push(pos))
}

/// The commitment to the turn token of the inputs: the hash of the token,
/// or the zero digest where the inputs carry none.
pub open spec fn token_commitment_of(auth: Option<TokenAuth>) -> Seq<u8> {
    match auth {
        Some(a) => sha256(a.token@),
        None => zero_digest(),
    }
}

/// What is wrong with the turn token of the inputs, if anything.
pub open spec fn token_fault(auth: Option<TokenAuth>) -> Option<GuestError> {
    match auth {
        None => Some(GuestError::TokenMissing),
        Some(a) => if sha256(a.token@) == a.expected_hash@ {
            None
        } else {
            Some(GuestError::TokenMismatch)
        },
    }
}

/// Why no proof of a join can be made from `input`, if anything.
pub open spec fn join_fault(input: BaseInputs) -> Option<GuestError> {
    if valid_board(input.board@) {
        None
    } else {
        Some(GuestError::InvalidFleet)
    }
}

/// Why no proof of a win or of a contest can be made from `input`, if
/// anything.
pub open spec fn claim_fault(input: BaseInputs) -> Option<GuestError> {
    if input.board@.len() == 0 {
        Some(GuestError::EmptyFleet)
    } else {
        None
    }
}

/// Why no proof of a shot can be made from `input`, if anything.
pub open spec fn fire_fault(input: FireInputs) -> Option<GuestError> {
    if input.board@.len() == 0 {
        Some(GuestError::EmptyFleet)
    } else {
        token_fault(input.token_auth)
    }
}

/// Why no proof of a hit or of a miss can be made from `input`, if anything.
pub open spec fn outcome_fault(input: FireInputs) -> Option<GuestError> {
    if token_fault(input.token_auth) is Some {
        token_fault(input.token_auth)
    } else if input.board@.contains(input.pos) {
        Some(GuestError::PositionOnBoard)
    } else {
        None
    }
}

/// Why no proof of a report can be made from `input`, if anything.
pub open spec fn report_fault(input: FireInputs) -> Option<GuestError> {
    if input.target@ == "Hit"@ || input.target@ == "Miss"@ {
        outcome_fault(input)
    } else {
        Some(GuestError::InvalidReport)
    }
}

/// `journal` is the journal of the inputs `input` with the token
/// commitment `token_commitment`.
pub open spec fn is_base_journal(
    journal: BaseJournal,
    input: BaseInputs,
    token_commitment: Seq<u8>,
) -> bool {
    &&& journal.gameid@ == input.gameid@
    &&& journal.fleet@ == input.fleet@
    &&& journal.board@ == board_commitment(input.board@, input.random@)
    &&& journal.token_commitment@ == token_commitment
}

/// `journal` is the journal of the shot that `input` describes.
pub open spec fn is_fire_journal(journal: FireJournal, input: FireInputs) -> bool {
    &&& journal.gameid@ == input.gameid@
    &&& journal.fleet@ == input.fleet@
    &&& journal.board@ == board_commitment(input.board@, input.random@)
    &&& journal.target@ == input.target@
    &&& journal.pos == input.pos
    &&& journal.token_commitment@ == token_commitment_of(input.token_auth)
}

/// `journal` reports a miss: the board is the same before and after.
pub open spec fn is_miss_journal(journal: ReportJournal, input: FireInputs) -> bool {
    &&& journal.gameid@ == input.gameid@
    &&& journal.fleet@ == input.fleet@
    &&& journal.report@ == input.target@
    &&& journal.pos == input.pos
    &&& journal.board@ == board_commitment(input.board@, input.random@)
    &&& journal.next_board@ == board_commitment(input.board@, input.random@)
    &&& journal.token_commitment@ == token_commitment_of(input.token_auth)
}

/// `journal` reports a hit: the board before is the board of the inputs with
/// the cell that was hit put back.
pub open spec fn is_hit_journal(journal: ReportJournal, input: FireInputs) -> bool {
    &&& journal.gameid@ == input.gameid@
    &&& journal.fleet@ == input.fleet@
    &&& journal.report@ == input.target@
    &&& journal.pos == input.pos
    &&& journal.board@ == board_commitment(
        board_before_hit(input.board@, input.pos),
        input.random@,
    )
    &&& journal.next_board@ == board_commitment(input.board@, input.random@)
    &&& journal.token_commitment@ == token_commitment_of(input.token_auth)
}

/// `journal` is the journal of the report that `input` describes.
pub open spec fn is_report_journal(journal: ReportJournal, input: FireInputs) -> bool {
    if input.target@ == "Hit"@ {
        is_hit_journal(journal, input)
    } else {
        is_miss_journal(journal, input)
    }
}

proof fn lemma_cell_leq_total()
    ensures
        total_ordering(cell_leq()),
{
    let leq = cell_leq();
    assert(vstd::relations::reflexive(leq));
    assert(vstd::relations::antisymmetric(leq));
    assert(vstd::relations::transitive(leq));
    assert(vstd::relations::strongly_connected(leq));
}

/// The cells of `board` in ascending order.
pub fn sort_cells(board: &Vec<u8>) -> (sorted: Vec<u8>)
    ensures
        sorted@ == sorted_board(board@),
{
    let mut out: Vec<u8> = Vec::new();
    let mut k: usize = 0;
    assert(out@ =~= board@.take(0));
    while k < board.len()
        invariant
            k <= board@.len(),
            out@.len() == k,
            sorted_by(out@, cell_leq()),
            out@.to_multiset() == board@.take(k as int).to_multiset(),
        decreases board@.len() - k,
    {
        let cell = board[k];
        let mut p: usize = 0;
        while p < out.len() && out[p] <= cell
            invariant
                p <= out@.len(),
                forall|i: int| 0 <= i < p ==> out@[i] <= cell,
            decreases out@.len() - p,
        {
            p += 1;
        }
        let ghost before = out@;
        out.insert(p, cell);
        proof {
            to_multiset_insert(before, p as int, cell);
            assert(board@.take(k + 1) =~= board@.take(k as int).push(cell));
            to_multiset_build(board@.take(k as int), cell);
            assert forall|i: int, j: int| 0 <= i < j < out@.len() implies #[trigger] cell_leq()(
                out@[i],
                out@[j],
            ) by {
                let a = if i < p {
                    i
                } else {
                    i - 1
                };
                let b = if j < p {
                    j
                } else {
                    j - 1
                };
                if i != p && j != p {
                    assert(cell_leq()(before[a], before[b]));
                } else if i == p {
                    assert(cell_leq()(before[p as int], before[b]));
                }
            }
        }
        k += 1;
    }
    proof {
        assert(board@.take(k as int) =~= board@);
        lemma_cell_leq_total();
        board@.lemma_sort_by_ensures(cell_leq());
        lemma_sorted_unique(out@, sorted_board(board@), cell_leq());
    }
    out
}

/// Whether the board holds the cell `pos`.
pub fn board_contains(board: &Vec<u8>, pos: u8) -> (found: bool)
    ensures
        found == board@.contains(pos),
{
    let mut i: usize = 0;
    while i < board.len()
        invariant
            i <= board@.len(),
            forall|j: int| 0 <= j < i ==> board@[j] != pos,
        decreases board@.len() - i,
    {
        if board[i] == pos {
            return true;
        }
        i += 1;
    }
    false
}

/// Checks that the player holds the turn: the token must hash to the
/// commitment on record. Gives the hash of the token.
pub fn check_token(auth: &Option<TokenAuth>) -> (checked: Result<Digest, GuestError>)
    ensures
        match checked {
            Ok(hash) => token_fault(*auth) is None && hash@ == token_commitment_of(*auth),
            Err(e) => token_fault(*auth) == Some(e),
        },
{
    match auth {
        None => Err(GuestError::TokenMissing),
        Some(a) => {
            let hash = Digest::of(a.token.as_slice());
            if hash.same(&a.expected_hash) {
                Ok(hash)
            } else {
                Err(GuestError::TokenMismatch)
            }
        },
    }
}

/// Whether the text is the word `word`.
fn is_word(text: &String, word: &str) -> (same: bool)
    ensures
        same == (text@ == word@),
{
    let expected = word.to_owned();
    *text == expected
}

/// The proof program for join: the board must be a legal fleet. The journal
/// commits to the board and carries no turn token.
pub fn join_journal(input: &BaseInputs) -> (out: Result<BaseJournal, GuestError>)
    ensures
        match out {
            Ok(journal) => join_fault(*input) is None && is_base_journal(
                journal,
                *input,
                zero_digest(),
            ),
            Err(e) => join_fault(*input) == Some(e),
        },
{
    if !validate_battleship_board(input.board.as_slice()) {
        return Err(GuestError::InvalidFleet);
    }
    let board_hash = hash_board(input.board.as_slice(), input.random.as_str());
    Ok(
        BaseJournal {
            gameid: input.gameid.clone(),
            fleet: input.fleet.clone(),
            board: board_hash,
            token_commitment: Digest::zero(),
        },
    )
}

/// The journal of a claim that needs no turn: the fleet must have a cell
/// left.
fn claim_journal(input: &BaseInputs) -> (out: Result<BaseJournal, GuestError>)
    ensures
        match out {
            Ok(journal) => claim_fault(*input) is None && is_base_journal(
                journal,
                *input,
                zero_digest(),
            ),
            Err(e) => claim_fault(*input) == Some(e),
        },
{
    if input.board.len() == 0 {
        return Err(GuestError::EmptyFleet);
    }
    let digest = hash_board(input.board.as_slice(), input.random.as_str());
    Ok(
        BaseJournal {
            gameid: input.gameid.clone(),
            fleet: input.fleet.clone(),
            board: digest,
            token_commitment: Digest::zero(),
        },
    )
}

/// The proof program for win: the fleet must have a cell left. The journal
/// commits to the board and carries no turn token.
pub fn win_journal(input: &BaseInputs) -> (out: Result<BaseJournal, GuestError>)
    ensures
        match out {
            Ok(journal) => claim_fault(*input) is None && is_base_journal(
                journal,
                *input,
                zero_digest(),
            ),
            Err(e) => claim_fault(*input) == Some(e),
        },
{
    claim_journal(input)
}

/// The proof program for contest: the fleet must have a cell left. The
/// journal commits to the board and carries no turn token.
pub fn contest_journal(input: &BaseInputs) -> (out: Result<BaseJournal, GuestError>)
    ensures
        match out {
            Ok(journal) => claim_fault(*input) is None && is_base_journal(
                journal,
                *input,
                zero_digest(),
            ),
            Err(e) => claim_fault(*input) == Some(e),
        },
{
    claim_journal(input)
}

/// The proof program for wave: the player must hold the turn. The journal
/// commits to the board and to the token.
pub fn wave_journal(input: &BaseInputs) -> (out: Result<BaseJournal, GuestError>)
    ensures
        match out {
            Ok(journal) => token_fault(input.token_auth) is None && is_base_journal(
                journal,
                *input,
                token_commitment_of(input.token_auth),
            ),
            Err(e) => token_fault(input.token_auth) == Some(e),
        },
{
    let token_hash = match check_token(&input.token_auth) {
        Ok(hash) => hash,
        Err(e) => {
            return Err(e);
        },
    };
    let board_hash = hash_board(input.board.as_slice(), input.random.as_str());
    Ok(
        BaseJournal {
            gameid: input.gameid.clone(),
            fleet: input.fleet.clone(),
            board: board_hash,
            token_commitment: token_hash,
        },
    )
}

/// The proof program for fire: the fleet must have a cell left and the
/// player must hold the turn. The journal names the target and the cell.
pub fn fire_journal(input: &FireInputs) -> (out: Result<FireJournal, GuestError>)
    ensures
        match out {
            Ok(journal) => fire_fault(*input) is None && is_fire_journal(journal, *input),
            Err(e) => fire_fault(*input) == Some(e),
        },
{
    if input.board.len() == 0 {
        return Err(GuestError::EmptyFleet);
    }
    let token_hash = match check_token(&input.token_auth) {
        Ok(hash) => hash,
        Err(e) => {
            return Err(e);
        },
    };
    let board_hash = hash_board(input.board.as_slice(), input.random.as_str());
    Ok(
        FireJournal {
            gameid: input.gameid.clone(),
            fleet: input.fleet.clone(),
            board: board_hash,
            target: input.target.clone(),
            pos: input.pos,
            token_commitment: token_hash,
        },
    )
}

/// A reported miss: the player must hold the turn and the board must not
/// hold the cell. The board stays as it is, so the journal commits to it
/// twice.
pub fn handle_miss(input: &FireInputs) -> (out: Result<ReportJournal, GuestError>)
    ensures
        match out {
            Ok(journal) => outcome_fault(*input) is None && is_miss_journal(journal, *input),
            Err(e) => outcome_fault(*input) == Some(e),
        },
{
    let token_hash = match check_token(&input.token_auth) {
        Ok(hash) => hash,
        Err(e) => {
            return Err(e);
        },
    };
    if board_contains(&input.board, input.pos) {
        return Err(GuestError::PositionOnBoard);
    }
    let board_hash = hash_board(input.board.as_slice(), input.random.as_str());
    Ok(
        ReportJournal {
            gameid: input.gameid.clone(),
            fleet: input.fleet.clone(),
            report: input.target.clone(),
            pos: input.pos,
            board: board_hash,
            next_board: board_hash,
            token_commitment: token_hash,
        },
    )
}

/// A reported hit: the player must hold the turn and the board, which is
/// the board after the hit, must no longer hold the cell. The journal
/// commits to the board before the hit, which is the board with the cell put
/// back in ascending order, and to the board after it.
pub fn handle_hit(input: &FireInputs) -> (out: Result<ReportJournal, GuestError>)
    ensures
        match out {
            Ok(journal) => outcome_fault(*input) is None && is_hit_journal(journal, *input),
            Err(e) => outcome_fault(*input) == Some(e),
        },
{
    let token_hash = match check_token(&input.token_auth) {
        Ok(hash) => hash,
        Err(e) => {
            return Err(e);
        },
    };
    if board_contains(&input.board, input.pos) {
        return Err(GuestError::PositionOnBoard);
    }
    let mut original_board = input.board.clone();
    original_board.push(input.pos);
    let original_board = sort_cells(&original_board);
    let board_hash = hash_board(original_board.as_slice(), input.random.as_str());
    let next_board_hash = hash_board(input.board.as_slice(), input.random.as_str());
    Ok(
        ReportJournal {
            gameid: input.gameid.clone(),
            fleet: input.fleet.clone(),
            report: input.target.clone(),
            pos: input.pos,
            board: board_hash,
            next_board: next_board_hash,
            token_commitment: token_hash,
        },
    )
}

/// The proof program for report: the outcome must be "Hit" or "Miss", and
/// the rest is as for a hit or for a miss.
pub fn report_journal(input: &FireInputs) -> (out: Result<ReportJournal, GuestError>)
    ensures
        match out {
            Ok(journal) => report_fault(*input) is None && is_report_journal(journal, *input),
            Err(e) => report_fault(*input) == Some(e),
        },
{
    if is_word(&input.target, "Hit") {
        handle_hit(input)
    } else if is_word(&input.target, "Miss") {
        handle_miss(input)
    } else {
        Err(GuestError::InvalidReport)
    }
}

} // verus!
