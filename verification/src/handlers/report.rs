use crate::digest::{bytes_eq, same_commitment};
use crate::handlers::{pass_turn, put_back, take_game};
use crate::registry::Registry;
use crate::rules::{handle_report_rule, report_rule, ChainError};
use crate::states::{ChainState, Game};
use crate::types::{Command, CommunicationData, EncryptedToken, Journal, ReportJournal};
use vstd::prelude::*;

verus! {

/// A report in one game.
pub fn report_on(
    game: &mut Game,
    data: &ReportJournal,
    token_data: &Option<EncryptedToken>,
    public_key: &[u8],
) -> (result: Result<(), ChainError>)
    ensures
        match report_rule(old(game)@, *data, *token_data, public_key@) {
            Ok(next) => result is Ok && final(game)@ == next,
            Err(e) => result == Err::<(), ChainError>(e) && final(game)@ == old(game)@,
        },
{
    if !same_commitment(&game.turn_commitment, &data.token_commitment) {
        return Err(ChainError::NotYourTurn);
    }
    let place = match game.pmap.index_of(data.fleet.as_str()) {
        Some(place) => place,
        None => {
            return Err(ChainError::PlayerNotFound);
        },
    };
    proof {
        game.pmap.lemma_position(place as int);
    }
    if !bytes_eq(game.pmap.value_at(place).public_key.as_slice(), public_key) {
        return Err(ChainError::SignerMismatch);
    }
    let confirmed = match game.shot_position {
        Some(shot) => shot == data.pos,
        None => false,
    };
    if !confirmed {
        return Err(ChainError::MalformedInput);
    }
    if !game.pmap.value_at(place).current_state.same(&data.board) {
        return Err(ChainError::StaleCommitment);
    }
    let token = match token_data {
        Some(t) => t,
        None => {
            return Err(ChainError::MalformedInput);
        },
    };
    let ghost before = game@;
    let ghost players = game.pmap;
    let (name, mut player) = game.pmap.take_at(place);
    let ghost others = game.pmap;
    player.current_state = data.next_board;
    proof {
        Registry::lemma_taken(players, others, place as int);
        if others.contains(name@) {
            others.lemma_contains(name@);
            let a = others.position(name@);
            let a0 = if a < place {
                a
            } else {
                a + 1
            };
            assert(players.names()[a0] == name@);
        }
    }
    game.pmap.put_at(place, name, player);
    proof {
        let fleet = data.fleet@;
        Registry::lemma_put(others, game.pmap, place as int, fleet, player);
        assert(before.players.remove(fleet).insert(fleet, player@) =~= before.players.insert(
            fleet,
            player@,
        ));
    }
    pass_turn(game, token);
    game.shot_position = None;
    Ok(())
}

/// Handles a report: the reporter's board moves on to the board after the
/// shot, the reporter takes the turn, and no shot is pending any more.
pub fn handle_report(
    chain: &mut ChainState,
    input_data: &CommunicationData,
    public_key: &[u8],
) -> (result: Result<(), ChainError>)
    ensures
        match handle_report_rule(old(chain)@, *input_data, public_key@) {
            Ok(next) => result is Ok && final(chain)@ == next,
            Err(e) => result == Err::<(), ChainError>(e) && final(chain)@ == old(chain)@,
        },
{
    if !input_data.receipt.verifies(Command::Report) {
        return Err(ChainError::InvalidProof);
    }
    let data = match &input_data.receipt.journal {
        Journal::Report(journal) => journal,
        _ => {
            return Err(ChainError::MalformedInput);
        },
    };
    let i = match chain.games.index_of(data.gameid.as_str()) {
        Some(i) => i,
        None => {
            return Err(ChainError::GameNotFound);
        },
    };
    let ghost before = *chain;
    let (gameid, mut game) = take_game(chain, i);
    let result = report_on(&mut game, data, &input_data.token_data, public_key);
    put_back(
        chain,
        i,
        gameid,
        game,
        Ghost(before),
        Ghost(report_rule(before@[data.gameid@], *data, input_data.token_data, public_key@)),
    );
    result
}

} // verus!
