use crate::digest::same_commitment;
use crate::handlers::{check_player, pass_turn, put_back, take_game};
use crate::rules::{handle_wave_rule, wave_rule, ChainError};
use crate::states::{ChainState, Game};
use crate::types::{BaseJournal, Command, CommunicationData, EncryptedToken, Journal};
use vstd::prelude::*;

verus! {

/// A wave in one game.
pub fn wave_on(
    game: &mut Game,
    data: &BaseJournal,
    token_data: &Option<EncryptedToken>,
    public_key: &[u8],
) -> (result: Result<(), ChainError>)
    ensures
        match wave_rule(old(game)@, *data, *token_data, public_key@) {
            Ok(next) => result is Ok && final(game)@ == next,
            Err(e) => result == Err::<(), ChainError>(e) && final(game)@ == old(game)@,
        },
{
    if !same_commitment(&game.turn_commitment, &data.token_commitment) {
        return Err(ChainError::NotYourTurn);
    }
    if game.shot_position.is_some() {
        return Err(ChainError::PendingShotUnreported);
    }
    match check_player(game, data.fleet.as_str(), &data.board, public_key) {
        Some(e) => {
            return Err(e);
        },
        None => {},
    }
    let token = match token_data {
        Some(t) => t,
        None => {
            return Err(ChainError::MalformedInput);
        },
    };
    pass_turn(game, token);
    Ok(())
}

/// Handles a wave: the player gives the turn away without a shot.
pub fn handle_wave(
    chain: &mut ChainState,
    input_data: &CommunicationData,
    public_key: &[u8],
) -> (result: Result<(), ChainError>)
    ensures
        match handle_wave_rule(old(chain)@, *input_data, public_key@) {
            Ok(next) => result is Ok && final(chain)@ == next,
            Err(e) => result == Err::<(), ChainError>(e) && final(chain)@ == old(chain)@,
        },
{
    if !input_data.receipt.verifies(Command::Wave) {
        return Err(ChainError::InvalidProof);
    }
    let data = match &input_data.receipt.journal {
        Journal::Base(journal) => journal,
        _ => {
            return Err(ChainError::MalformedInput);
        },
    };
    let i = match chain.games.index_of(data.gameid.as_str()) {
        Some(i) => i,
        None => {
            return Err(ChainError::GameNotFound);
        },
    };
    let ghost before = *chain;
    let (gameid, mut game) = take_game(chain, i);
    let result = wave_on(&mut game, data, &input_data.token_data, public_key);
    put_back(
        chain,
        i,
        gameid,
        game,
        Ghost(before),
        Ghost(wave_rule(before@[data.gameid@], *data, input_data.token_data, public_key@)),
    );
    result
}

} // verus!
