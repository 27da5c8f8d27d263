use crate::digest::bytes_eq;
use crate::handlers::{put_back, take_game};
use crate::registry::Registry;
use crate::rules::{handle_join_rule, join_rule, new_game, ChainError};
use crate::states::{ChainState, Game, Player};
use crate::types::{BaseJournal, Command, CommunicationData, EncryptedToken, Journal};
use vstd::prelude::*;
use vstd::slice::slice_to_vec;

verus! {

/// A game that nobody has joined yet, with the turn token that the first
/// join brings.
pub fn open_game(token_data: &Option<EncryptedToken>) -> (game: Game)
    ensures
        game@ == new_game(*token_data),
{
    let (turn_commitment, encrypted_token) = match token_data {
        Some(t) => (Some(t.token_hash), Some(t.enc_token.clone())),
        None => (None, None),
    };
    let game = Game {
        pmap: Registry::new(),
        shot_position: None,
        pending_win: None,
        turn_commitment,
        encrypted_token,
    };
    assert(game@.players =~= new_game(*token_data).players);
    game
}

/// A join in one game.
pub fn join_on(
    game: &mut Game,
    data: &BaseJournal,
    token_data: &Option<EncryptedToken>,
    public_key: &[u8],
) -> (result: Result<(), ChainError>)
    ensures
        match join_rule(old(game)@, *data, *token_data, public_key@) {
            Ok(next) => result is Ok && final(game)@ == next,
            Err(e) => result == Err::<(), ChainError>(e) && final(game)@ == old(game)@,
        },
{
    if game.shot_position.is_some() {
        return Err(ChainError::PendingShotUnreported);
    }
    if game.pending_win.is_some() {
        return Err(ChainError::ActiveWinClaim);
    }
    match game.pmap.get(data.fleet.as_str()) {
        Some(existing_player) => {
            if !bytes_eq(existing_player.public_key.as_slice(), public_key) {
                return Err(ChainError::DuplicatePlayer);
            }
            return Ok(());
        },
        None => {},
    }
    let rsa_pubkey = match token_data {
        Some(t) => t.pub_rsa_key.clone(),
        None => Vec::new(),
    };
    game.pmap.insert(
        data.fleet.clone(),
        Player {
            name: data.fleet.clone(),
            current_state: data.board,
            public_key: slice_to_vec(public_key),
            rsa_pubkey,
        },
    );
    Ok(())
}

/// Handles a join: the player is registered in the game, which is created
/// where it does not exist yet. The first player brings the turn token.
pub fn handle_join(
    chain: &mut ChainState,
    input_data: &CommunicationData,
    public_key: &[u8],
) -> (result: Result<(), ChainError>)
    ensures
        match handle_join_rule(old(chain)@, *input_data, public_key@) {
            Ok(next) => result is Ok && final(chain)@ == next,
            Err(e) => result == Err::<(), ChainError>(e) && final(chain)@ == old(chain)@,
        },
{
    if !input_data.receipt.verifies(Command::Join) {
        return Err(ChainError::InvalidProof);
    }
    let data = match &input_data.receipt.journal {
        Journal::Base(journal) => journal,
        _ => {
            return Err(ChainError::MalformedInput);
        },
    };
    let ghost before = *chain;
    match chain.games.index_of(data.gameid.as_str()) {
        Some(i) => {
            let (gameid, mut game) = take_game(chain, i);
            let result = join_on(&mut game, data, &input_data.token_data, public_key);
            put_back(
                chain,
                i,
                gameid,
                game,
                Ghost(before),
                Ghost(join_rule(before@[data.gameid@], *data, input_data.token_data, public_key@)),
            );
            result
        },
        None => {
            let mut game = open_game(&input_data.token_data);
            let result = join_on(&mut game, data, &input_data.token_data, public_key);
            chain.games.insert(data.gameid.clone(), game);
            result
        },
    }
}

} // verus!
