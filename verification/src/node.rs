//! The chain node without its transport: the dispatch of signed actions,
//! the scan that finalizes claims of victory that nobody contested, and the
//! questions that players may ask of the chain.

use crate::authenticate::{authenticate, authenticate_rule};
use crate::digest::bytes_eq;
use crate::encoding::{base64_encoded, export_key_base64};
use crate::form::copy_text;
use crate::handlers::{
    handle_contest, handle_fire, handle_join, handle_report, handle_wave, handle_win, take_game,
};
use crate::rules::{claim_expired, dispatch_rule, ChainError, CONTEST_WINDOW_SECS};
use crate::states::{ChainState, ChainView, Game};
use crate::types::{Command, CommunicationData, EncryptedToken, SignedMessage};
use vstd::prelude::*;

verus! {

/// What a player needs to prove the turn: the encrypted token and its hash.
#[derive(Clone, Debug, PartialEq, Eq)]
pub struct TokenData {
    pub enc_token: String,
    pub token_hash: [u8; 32],
}

/// Why the chain has no answer to a question.
#[derive(Clone, Copy, Debug, PartialEq, Eq, Structural)]
pub enum LookupError {
    /// The chain knows no game under the identifier.
    GameNotFound,
    /// The game has no player under the fleet identifier.
    FleetNotFound,
    /// The game has no turn token yet.
    NoToken,
}

impl LookupError {
    /// The sentence that tells a player why there is no answer.
    pub open spec fn sentence(self) -> Seq<char> {
        match self {
            LookupError::GameNotFound => "Game not found"@,
            LookupError::FleetNotFound => "Fleet not found"@,
            LookupError::NoToken => "No token available"@,
        }
    }

    /// The sentence that tells a player why there is no answer.
    pub fn message(&self) -> (text: String)
        ensures
            text@ == self.sentence(),
    {
        match self {
            LookupError::GameNotFound => "Game not found".to_owned(),
            LookupError::FleetNotFound => "Fleet not found".to_owned(),
            LookupError::NoToken => "No token available".to_owned(),
        }
    }
}

/// What the chain makes of a signed action made at the time `now`: the
/// state that follows, or the reason why the action is refused. The message
/// is authenticated first; then the rule of its command decides.
pub open spec fn accepted(
    chain: ChainView,
    signed: SignedMessage<CommunicationData>,
    message_bytes: Seq<u8>,
    now: u64,
) -> Result<ChainView, ChainError> {
    match authenticate_rule(chain, signed, message_bytes) {
        Err(e) => Err(e),
        Ok(_) => dispatch_rule(chain, signed.payload, signed.public_key@, now),
    }
}

/// Handles a signed action made at the time `now`: the message is
/// authenticated, and then the handler of its command decides. A message
/// that is refused leaves the chain as it is.
pub fn smart_contract(
    chain: &mut ChainState,
    signed: &SignedMessage<CommunicationData>,
    message_bytes: &[u8],
    now: u64,
) -> (result: Result<(), ChainError>)
    ensures
        match accepted(old(chain)@, *signed, message_bytes@, now) {
            Ok(next) => result is Ok && final(chain)@ == next,
            Err(e) => result == Err::<(), ChainError>(e) && final(chain)@ == old(chain)@,
        },
{
    match authenticate(chain, signed, message_bytes) {
        Err(e) => {
            return Err(e);
        },
        Ok(_) => {},
    }
    let input = &signed.payload;
    let pk = signed.public_key.as_slice();
    match input.cmd {
        Command::Join => handle_join(chain, input, pk),
        Command::Fire => handle_fire(chain, input, pk),
        Command::Report => handle_report(chain, input, pk),
        Command::Wave => handle_wave(chain, input, pk),
        Command::Win => handle_win(chain, input, pk, now),
        Command::Contest => handle_contest(chain, input, pk),
    }
}

/// Whether the claim of the game can no longer be contested at the time
/// `now`.
pub fn is_expired(game: &Game, now: u64) -> (expired: bool)
    ensures
        expired == claim_expired(game@, now),
{
    match &game.pending_win {
        Some(claim) => now >= claim.time && now - claim.time >= CONTEST_WINDOW_SECS,
        None => false,
    }
}

/// Finalizes the claims of victory that nobody has contested in time: every
/// game whose claim has expired at the time `now` leaves the chain, and
/// the other games stay as they are. Gives the identifiers of the games
/// that have left.
pub fn reap_expired_claims(chain: &mut ChainState, now: u64) -> (finalized: Vec<String>)
    ensures
        forall|id: Seq<char>|
            #![trigger final(chain)@.contains_key(id)]
            #![trigger old(chain)@.contains_key(id)]
            final(chain)@.contains_key(id) <==> old(chain)@.contains_key(id) && !claim_expired(
                old(chain)@[id],
                now,
            ),
        forall|id: Seq<char>|
            #![trigger final(chain)@.contains_key(id)]
            final(chain)@.contains_key(id) ==> final(chain)@[id] == old(chain)@[id],
        forall|k: int|
            0 <= k < finalized@.len() ==> old(chain)@.contains_key((#[trigger] finalized@[k])@)
                && claim_expired(old(chain)@[finalized@[k]@], now),
        forall|id: Seq<char>|
            #![trigger old(chain)@.contains_key(id)]
            old(chain)@.contains_key(id) && claim_expired(old(chain)@[id], now) ==> exists|k: int|
                0 <= k < finalized@.len() && (#[trigger] finalized@[k])@ == id,
        forall|k: int, m: int|
            0 <= k < m < finalized@.len() ==> (#[trigger] finalized@[k])@ != (
            #[trigger] finalized@[m])@,
{
    let ghost start = chain@;
    let mut finalized: Vec<String> = Vec::new();
    let mut i: usize = 0;
    while i < chain.len()
        invariant
            start == old(chain)@,
            i <= chain.games.names().len(),
            forall|id: Seq<char>|
                #![trigger chain@.contains_key(id)]
                chain@.contains_key(id) ==> start.contains_key(id) && chain@[id] == start[id],
            forall|id: Seq<char>|
                #![trigger start.contains_key(id)]
                start.contains_key(id) && !chain@.contains_key(id) ==> claim_expired(
                    start[id],
                    now,
                ) && exists|k: int| 0 <= k < finalized@.len() && (#[trigger] finalized@[k])@ == id,
            forall|k: int|
                0 <= k < finalized@.len() ==> start.contains_key((#[trigger] finalized@[k])@)
                    && claim_expired(start[finalized@[k]@], now) && !chain@.contains_key(
                    finalized@[k]@,
                ),
            forall|k: int, m: int|
                0 <= k < m < finalized@.len() ==> (#[trigger] finalized@[k])@ != (
                #[trigger] finalized@[m])@,
            forall|j: int|
                0 <= j < i ==> chain@.contains_key(#[trigger] chain.games.names()[j])
                    && !claim_expired(chain@[chain.games.names()[j]], now),
        decreases chain.games.names().len() - i,
    {
        let expired = is_expired(chain.games.value_at(i), now);
        proof {
            chain.games.lemma_position(i as int);
        }
        if expired {
            let ghost before = *chain;
            let ghost done = finalized@;
            let (gameid, _game) = take_game(chain, i);
            finalized.push(gameid);
            proof {
                assert(finalized@[done.len() as int]@ == gameid@);
                assert forall|id: Seq<char>|
                    #![trigger chain@.contains_key(id)]
                    chain@.contains_key(id) implies start.contains_key(id) && chain@[id]
                    == start[id] by {
                    assert(before@.contains_key(id));
                    assert(chain@[id] == before@[id]);
                }
                assert forall|id: Seq<char>|
                    #![trigger start.contains_key(id)]
                    start.contains_key(id) && !chain@.contains_key(id) implies claim_expired(
                    start[id],
                    now,
                ) && exists|k: int| 0 <= k < finalized@.len() && (#[trigger] finalized@[k])@ == id by {
                    if id != gameid@ {
                        assert(!before@.contains_key(id));
                        let k = choose|k: int| 0 <= k < done.len() && (#[trigger] done[k])@ == id;
                        assert(finalized@[k]@ == id);
                    }
                }
                assert forall|k: int| 0 <= k < finalized@.len() implies start.contains_key(
                    (#[trigger] finalized@[k])@,
                ) && claim_expired(start[finalized@[k]@], now) && !chain@.contains_key(
                    finalized@[k]@,
                ) by {
                    if k < done.len() {
                        assert(finalized@[k] == done[k]);
                    }
                }
                assert forall|k: int, m: int| 0 <= k < m < finalized@.len() implies (
                #[trigger] finalized@[k])@ != (#[trigger] finalized@[m])@ by {
                    assert(finalized@[k] == done[k]);
                    if m < done.len() {
                        assert(finalized@[m] == done[m]);
                    } else {
                        assert(!before@.contains_key(done[k]@));
                    }
                }
                assert forall|j: int| 0 <= j < i implies chain@.contains_key(
                    #[trigger] chain.games.names()[j],
                ) && !claim_expired(chain@[chain.games.names()[j]], now) by {
                    assert(chain.games.names()[j] == before.games.names()[j]);
                    assert(before@.contains_key(before.games.names()[j]));
                    assert(before.games.names()[j] != before.games.names()[i as int]);
                }
            }
        } else {
            i += 1;
        }
    }
    proof {
        use_type_invariant(&chain.games);
        assert forall|id: Seq<char>| chain@.contains_key(id) implies !claim_expired(
            start[id],
            now,
        ) by {
            chain.games.lemma_contains(id);
            let j = chain.games.position(id);
            assert(chain.games.names()[j] == id);
        }
    }
    finalized
}

/// The encrypted turn token of a game and its hash.
pub fn get_token_data(chain: &ChainState, gameid: &str) -> (data: Result<TokenData, LookupError>)
    ensures
        match data {
            Ok(token) => {
                &&& chain@.contains_key(gameid@)
                &&& chain@[gameid@].encrypted_token == Some(token.enc_token@)
                &&& chain@[gameid@].turn_commitment == Some(token.token_hash@)
            },
            Err(LookupError::GameNotFound) => !chain@.contains_key(gameid@),
            Err(LookupError::NoToken) => chain@.contains_key(gameid@) && (
            chain@[gameid@].encrypted_token is None || chain@[gameid@].turn_commitment is None),
            Err(LookupError::FleetNotFound) => false,
        },
{
    let game = match chain.game(gameid) {
        Some(g) => g,
        None => {
            return Err(LookupError::GameNotFound);
        },
    };
    match (&game.encrypted_token, &game.turn_commitment) {
        (Some(enc), Some(hash)) => Ok(TokenData { enc_token: enc.clone(), token_hash: hash.bytes }),
        _ => Err(LookupError::NoToken),
    }
}

/// The RSA public key of a fleet, as base-64 text.
pub fn get_rsa_key(chain: &ChainState, gameid: &str, fleetid: &str) -> (key: Result<
    String,
    LookupError,
>)
    ensures
        match key {
            Ok(text) => {
                &&& chain@.contains_key(gameid@)
                &&& chain@[gameid@].players.contains_key(fleetid@)
                &&& text@ == base64_encoded(chain@[gameid@].players[fleetid@].rsa_pubkey)
            },
            Err(LookupError::GameNotFound) => !chain@.contains_key(gameid@),
            Err(LookupError::FleetNotFound) => chain@.contains_key(gameid@)
                && !chain@[gameid@].players.contains_key(fleetid@),
            Err(LookupError::NoToken) => false,
        },
{
    let game = match chain.game(gameid) {
        Some(g) => g,
        None => {
            return Err(LookupError::GameNotFound);
        },
    };
    let player = match game.pmap.get(fleetid) {
        Some(p) => p,
        None => {
            return Err(LookupError::FleetNotFound);
        },
    };
    Ok(export_key_base64(player.rsa_pubkey.as_slice()))
}

/// The fleets of a game, in the order in which they joined. A game that
/// the chain does not know has none.
pub fn get_player_list(chain: &ChainState, gameid: &str) -> (fleets: Vec<String>)
    ensures
        !chain@.contains_key(gameid@) ==> fleets@.len() == 0,
        forall|i: int, j: int|
            0 <= i < j < fleets@.len() ==> (#[trigger] fleets@[i])@ != (#[trigger] fleets@[j])@,
        forall|name: Seq<char>|
            (exists|i: int| 0 <= i < fleets@.len() && (#[trigger] fleets@[i])@ == name) <==> (
            chain@.contains_key(gameid@) && chain@[gameid@].players.contains_key(name)),
{
    let game = match chain.game(gameid) {
        Some(g) => g,
        None => {
            return Vec::new();
        },
    };
    let fleets = game.pmap.names_list();
    proof {
        assert forall|i: int, j: int|
            0 <= i < j < fleets@.len() implies (#[trigger] fleets@[i])@ != (
        #[trigger] fleets@[j])@ by {
            assert(game.pmap.names()[i] == fleets@[i]@);
            assert(game.pmap.names()[j] == fleets@[j]@);
        }
        assert forall|name: Seq<char>|
            (exists|i: int| 0 <= i < fleets@.len() && (#[trigger] fleets@[i])@ == name) <==> (
            chain@.contains_key(gameid@) && chain@[gameid@].players.contains_key(name)) by {
            if exists|i: int| 0 <= i < fleets@.len() && (#[trigger] fleets@[i])@ == name {
                let i = choose|i: int| 0 <= i < fleets@.len() && (#[trigger] fleets@[i])@ == name;
                assert(game.pmap.names()[i] == name);
            }
            if game.pmap.contains(name) {
                game.pmap.lemma_contains(name);
                assert(fleets@[game.pmap.position(name)]@ == name);
            }
        }
    }
    fleets
}

/// The fleet that a token is for: a player of the game whose RSA key is the
/// key that the token names. There is none where no token is given or no
/// player has that key.
pub fn token_recipient(game: &Game, token_data: &Option<EncryptedToken>) -> (recipient: Option<
    String,
>)
    ensures
        recipient matches Some(name) ==> {
            &&& token_data is Some
            &&& game@.players.contains_key(name@)
            &&& game@.players[name@].rsa_pubkey == token_data.unwrap().pub_rsa_key@
        },
        recipient is None && token_data is Some ==> forall|name: Seq<char>|
            #![trigger game@.players.contains_key(name)]
            game@.players.contains_key(name) ==> game@.players[name].rsa_pubkey
                != token_data.unwrap().pub_rsa_key@,
{
    let token = match token_data {
        Some(t) => t,
        None => {
            return None;
        },
    };
    proof {
        use_type_invariant(&game.pmap);
    }
    let mut i: usize = 0;
    while i < game.pmap.len()
        invariant
            i <= game.pmap.names().len(),
            game.pmap.wf(),
            *token_data == Some(*token),
            forall|j: int|
                0 <= j < i ==> (#[trigger] game.pmap.values()[j])@.rsa_pubkey != token.pub_rsa_key@,
        decreases game.pmap.names().len() - i,
    {
        if bytes_eq(game.pmap.value_at(i).rsa_pubkey.as_slice(), token.pub_rsa_key.as_slice()) {
            let name = copy_text(game.pmap.name_at(i));
            proof {
                game.pmap.lemma_position(i as int);
                assert(game@.players[name@] == game.pmap.values()[i as int]@);
            }
            return Some(name);
        }
        i += 1;
    }
    proof {
        assert forall|name: Seq<char>|
            #![trigger game@.players.contains_key(name)]
            game@.players.contains_key(name) implies game@.players[name].rsa_pubkey
            != token.pub_rsa_key@ by {
            game.pmap.lemma_contains(name);
            let j = game.pmap.position(name);
            assert(game.pmap.values()[j]@.rsa_pubkey != token.pub_rsa_key@);
        }
    }
    None
}

/// `String::push` of std: the character is added at the end of the text.
#[verifier::external_body]
fn push_char(text: &mut String, c: char)
    ensures
        final(text)@ == old(text)@.push(c),
{
    text.push(c);
}

/// The character of a decimal digit.
pub open spec fn digit_char(d: int) -> char {
    (d + 48) as char
}

/// A number in decimal digits.
pub open spec fn decimal_text(n: nat) -> Seq<char>
    decreases n,
{
    if n < 10 {
        seq![digit_char(n as int)]
    } else {
        decimal_text(n / 10).push(digit_char((n % 10) as int))
    }
}

/// A cell as players write it: the letter of its column, from A, and the
/// number of its row. No cell is written "None".
pub open spec fn xy_text(pos: Option<u8>) -> Seq<char> {
    match pos {
        Some(p) => seq![((p % 10) as int + 65) as char] + decimal_text((p / 10) as nat),
        None => "None"@,
    }
}

/// Writes a cell as players read it: column letter and row number.
pub fn xy_pos(pos: Option<u8>) -> (text: String)
    ensures
        text@ == xy_text(pos),
{
    match pos {
        Some(p) => {
            let x: u8 = p % 10;
            let y: u8 = p / 10;
            let mut text = String::new();
            push_char(&mut text, (x + 65) as char);
            if y >= 10 {
                push_char(&mut text, (y / 10 + 48) as char);
            }
            push_char(&mut text, (y % 10 + 48) as char);
            proof {
                reveal_with_fuel(decimal_text, 2);
                assert(text@ =~= xy_text(pos));
            }
            text
        },
        None => "None".to_owned(),
    }
}

} // verus!
