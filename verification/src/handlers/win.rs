use crate::handlers::{check_player, put_back, take_game};
use crate::rules::{handle_win_rule, win_rule, ChainError};
use crate::states::{ChainState, Game, PendingWin};
use crate::types::{BaseJournal, Command, CommunicationData, Journal};
use vstd::prelude::*;

verus! {

/// A claim of victory in one game, made at the time `now`.
pub fn win_on(game: &mut Game, data: &BaseJournal, public_key: &[u8], now: u64) -> (result: Result<
    (),
    ChainError,
>)
    ensures
        match win_rule(old(game)@, *data, public_key@, now) {
            Ok(next) => result is Ok && final(game)@ == next,
            Err(e) => result == Err::<(), ChainError>(e) && final(game)@ == old(game)@,
        },
{
    if game.shot_position.is_some() {
        return Err(ChainError::PendingShotUnreported);
    }
    match check_player(game, data.fleet.as_str(), &data.board, public_key) {
        Some(e) => {
            return Err(e);
        },
        None => {},
    }
    if game.pending_win.is_some() {
        return Err(ChainError::ActiveWinClaim);
    }
    game.pending_win = Some(
        PendingWin { claimant: data.fleet.clone(), board: data.board, time: now },
    );
    Ok(())
}

/// Handles a claim of victory made at the time `now`: the claim is put on
/// record, where it can be contested.
pub fn handle_win(
    chain: &mut ChainState,
    input_data: &CommunicationData,
    public_key: &[u8],
    now: u64,
) -> (result: Result<(), ChainError>)
    ensures
        match handle_win_rule(old(chain)@, *input_data, public_key@, now) {
            Ok(next) => result is Ok && final(chain)@ == next,
            Err(e) => result == Err::<(), ChainError>(e) && final(chain)@ == old(chain)@,
        },
{
    if !input_data.receipt.verifies(Command::Win) {
        return Err(ChainError::InvalidProof);
    }
    let data = match &input_data.receipt.journal {
        Journal::Base(journal) => journal,
        _ => {
            return Err(ChainError::MalformedInput);
        },
    };
    let i = match chain.games.index_of(data.gameid.as_str()) {
        Some(i) => i,
        None => {
            return Err(ChainError::GameNotFound);
        },
    };
    let ghost before = *chain;
    let (gameid, mut game) = take_game(chain, i);
    let result = win_on(&mut game, data, public_key, now);
    put_back(
        chain,
        i,
        gameid,
        game,
        Ghost(before),
        Ghost(win_rule(before@[data.gameid@], *data, public_key@, now)),
    );
    result
}

} // verus!
