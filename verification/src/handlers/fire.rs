use crate::digest::same_commitment;
use crate::handlers::{check_player, pass_turn, put_back, take_game};
use crate::rules::{fire_rule, handle_fire_rule, ChainError};
use crate::states::{ChainState, Game};
use crate::types::{Command, CommunicationData, EncryptedToken, FireJournal, Journal};
use vstd::prelude::*;

verus! {

/// A shot in one game.
pub fn fire_on(
    game: &mut Game,
    data: &FireJournal,
    token_data: &Option<EncryptedToken>,
    public_key: &[u8],
) -> (result: Result<(), ChainError>)
    ensures
        match fire_rule(old(game)@, *data, *token_data, public_key@) {
            Ok(next) => result is Ok && final(game)@ == next,
            Err(e) => result == Err::<(), ChainError>(e) && final(game)@ == old(game)@,
        },
{
    if !same_commitment(&game.turn_commitment, &data.token_commitment) {
        return Err(ChainError::NotYourTurn);
    }
    if game.shot_position.is_some() {
        return Err(ChainError::PendingShotUnreported);
    }
    match check_player(game, data.fleet.as_str(), &data.board, public_key) {
        Some(e) => {
            return Err(e);
        },
        None => {},
    }
    if !game.pmap.contains_key(data.target.as_str()) {
        return Err(ChainError::TargetNotFound);
    }
    let token = match token_data {
        Some(t) => t,
        None => {
            return Err(ChainError::MalformedInput);
        },
    };
    pass_turn(game, token);
    game.shot_position = Some(data.pos);
    Ok(())
}

/// Handles a shot: the turn passes to the target and the shot waits for the
/// target's report.
pub fn handle_fire(
    chain: &mut ChainState,
    input_data: &CommunicationData,
    public_key: &[u8],
) -> (result: Result<(), ChainError>)
    ensures
        match handle_fire_rule(old(chain)@, *input_data, public_key@) {
            Ok(next) => result is Ok && final(chain)@ == next,
            Err(e) => result == Err::<(), ChainError>(e) && final(chain)@ == old(chain)@,
        },
{
    if !input_data.receipt.verifies(Command::Fire) {
        return Err(ChainError::InvalidProof);
    }
    let data = match &input_data.receipt.journal {
        Journal::Fire(journal) => journal,
        _ => {
            return Err(ChainError::MalformedInput);
        },
    };
    let i = match chain.games.index_of(data.gameid.as_str()) {
        Some(i) => i,
        None => {
            return Err(ChainError::GameNotFound);
        },
    };
    let ghost before = *chain;
    let (gameid, mut game) = take_game(chain, i);
    let result = fire_on(&mut game, data, &input_data.token_data, public_key);
    put_back(
        chain,
        i,
        gameid,
        game,
        Ghost(before),
        Ghost(fire_rule(before@[data.gameid@], *data, input_data.token_data, public_key@)),
    );
    result
}

} // verus!
