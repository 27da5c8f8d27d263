use crate::handlers::{check_player, put_back, take_game};
use crate::rules::{contest_rule, handle_contest_rule, ChainError};
use crate::states::{ChainState, Game};
use crate::types::{BaseJournal, Command, CommunicationData, Journal};
use vstd::prelude::*;

verus! {

/// A contest in one game.
pub fn contest_on(game: &mut Game, data: &BaseJournal, public_key: &[u8]) -> (result: Result<
    (),
    ChainError,
>)
    ensures
        match contest_rule(old(game)@, *data, public_key@) {
            Ok(next) => result is Ok && final(game)@ == next,
            Err(e) => result == Err::<(), ChainError>(e) && final(game)@ == old(game)@,
        },
{
    if game.shot_position.is_some() {
        return Err(ChainError::PendingShotUnreported);
    }
    match check_player(game, data.fleet.as_str(), &data.board, public_key) {
        Some(e) => {
            return Err(e);
        },
        None => {},
    }
    let own_claim = match &game.pending_win {
        None => {
            return Err(ChainError::NoWinClaim);
        },
        Some(pending) => pending.claimant == data.fleet,
    };
    if own_claim {
        return Err(ChainError::SelfContest);
    }
    game.pending_win = None;
    Ok(())
}

/// Handles a contest: the claim of victory is dropped and the game goes on.
pub fn handle_contest(
    chain: &mut ChainState,
    input_data: &CommunicationData,
    public_key: &[u8],
) -> (result: Result<(), ChainError>)
    ensures
        match handle_contest_rule(old(chain)@, *input_data, public_key@) {
            Ok(next) => result is Ok && final(chain)@ == next,
            Err(e) => result == Err::<(), ChainError>(e) && final(chain)@ == old(chain)@,
        },
{
    if !input_data.receipt.verifies(Command::Contest) {
        return Err(ChainError::InvalidProof);
    }
    let data = match &input_data.receipt.journal {
        Journal::Base(journal) => journal,
        _ => {
            return Err(ChainError::MalformedInput);
        },
    };
    let i = match chain.games.index_of(data.gameid.as_str()) {
        Some(i) => i,
        None => {
            return Err(ChainError::GameNotFound);
        },
    };
    let ghost before = *chain;
    let (gameid, mut game) = take_game(chain, i);
    let result = contest_on(&mut game, data, public_key);
    put_back(
        chain,
        i,
        gameid,
        game,
        Ghost(before),
        Ghost(contest_rule(before@[data.gameid@], *data, public_key@)),
    );
    result
}

} // verus!
