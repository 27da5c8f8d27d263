//! The handlers of the six actions. Each takes the chain from one state to
//! the next as the rules say, or refuses the action and leaves the chain as
//! it is.

pub mod contest;
pub mod fire;
pub mod join;
pub mod report;
pub mod wave;
pub mod win;

pub use contest::handle_contest;
pub use fire::handle_fire;
pub use join::handle_join;
pub use report::handle_report;
pub use wave::handle_wave;
pub use win::handle_win;

use crate::digest::{bytes_eq, Digest};
use crate::registry::Registry;
use crate::rules::{with_turn, ChainError};
use crate::states::{ChainState, Game, GameView};
use crate::types::EncryptedToken;
use vstd::prelude::*;

verus! {

/// What stands against an action by the fleet `fleet`: the game must have
/// the player, the player must have signed with the own key, and the board
/// must be the one on record.
pub open spec fn player_fault(
    game: GameView,
    fleet: Seq<char>,
    board: Seq<u8>,
    signer: Seq<u8>,
) -> Option<ChainError> {
    if !game.players.contains_key(fleet) {
        Some(ChainError::PlayerNotFound)
    } else if game.players[fleet].public_key != signer {
        Some(ChainError::SignerMismatch)
    } else if game.players[fleet].current_state != board {
        Some(ChainError::StaleCommitment)
    } else {
        None
    }
}

/// Looks the player up and checks key and board.
pub(crate) fn check_player(game: &Game, fleet: &str, board: &Digest, public_key: &[u8]) -> (fault:
    Option<ChainError>)
    ensures
        fault == player_fault(game@, fleet@, board@, public_key@),
{
    let player = match game.pmap.get(fleet) {
        Some(p) => p,
        None => {
            return Some(ChainError::PlayerNotFound);
        },
    };
    if !bytes_eq(player.public_key.as_slice(), public_key) {
        return Some(ChainError::SignerMismatch);
    }
    if !board.same(&player.current_state) {
        return Some(ChainError::StaleCommitment);
    }
    None
}

/// Hands the turn on: the game takes the token of the message and its hash,
/// both at once.
pub(crate) fn pass_turn(game: &mut Game, token: &EncryptedToken)
    ensures
        final(game)@ == with_turn(old(game)@, *token),
{
    game.encrypted_token = Some(token.enc_token.clone());
    game.turn_commitment = Some(token.token_hash);
}

/// The game has been taken off the chain `before` at place `i`, which left
/// the chain `after`.
pub open spec fn game_taken(before: ChainState, after: ChainState, i: int) -> bool {
    &&& before.games.wf()
    &&& 0 <= i < before.games.names().len()
    &&& after.games.names() == before.games.names().remove(i)
    &&& after.games.values() == before.games.values().remove(i)
}

/// Takes the game at place `i` off the chain, to let it take a step.
pub(crate) fn take_game(chain: &mut ChainState, i: usize) -> (entry: (String, Game))
    requires
        i < old(chain).games.names().len(),
    ensures
        game_taken(*old(chain), *final(chain), i as int),
        entry.0@ == old(chain).games.names()[i as int],
        old(chain)@.contains_key(entry.0@),
        entry.1@ == old(chain)@[entry.0@],
        final(chain)@ == old(chain)@.remove(entry.0@),
{
    let ghost before = chain.games;
    let entry = chain.games.take_at(i);
    proof {
        Registry::lemma_taken(before, chain.games, i as int);
    }
    entry
}

/// Puts a game back on the chain after a step that it took or refused.
pub(crate) fn put_back(
    chain: &mut ChainState,
    i: usize,
    gameid: String,
    game: Game,
    Ghost(before): Ghost<ChainState>,
    Ghost(outcome): Ghost<Result<GameView, ChainError>>,
)
    requires
        game_taken(before, *old(chain), i as int),
        gameid@ == before.games.names()[i as int],
        match outcome {
            Ok(next) => game@ == next,
            Err(_) => game@ == before@[gameid@],
        },
    ensures
        final(chain).games.names() == before.games.names(),
        match crate::rules::lift(before@, gameid@, outcome) {
            Ok(next) => final(chain)@ == next,
            Err(_) => final(chain)@ == before@,
        },
{
    let ghost name = gameid@;
    let ghost without = chain.games;
    proof {
        Registry::lemma_taken(before.games, without, i as int);
        if without.contains(name) {
            without.lemma_contains(name);
            let a = without.position(name);
            let a0 = if a < i {
                a
            } else {
                a + 1
            };
            assert(before.games.names()[a0] == name);
        }
    }
    chain.games.put_at(i, gameid, game);
    proof {
        Registry::lemma_put(without, chain.games, i as int, name, game);
        assert(chain.games.names() =~= before.games.names());
        assert(before@.remove(name).insert(name, game@) =~= before@.insert(name, game@));
        if outcome is Err {
            assert(before@.insert(name, before@[name]) =~= before@);
        }
    }
}

} // verus!
