//! What a player's client works out for each action: the inputs of the
//! proof, the proof of the turn, and the token that goes to the next holder.
//! Fetching from the chain, proving and sending are left to the caller.

use crate::digest::Digest;
use crate::encoding::{base64_decoded, base64_encoded, import_key_base64};
use crate::form::{
    copy_text, field, unmarshal_data, unmarshal_data_spec, unmarshal_fire, unmarshal_fire_spec,
    unmarshal_report, unmarshal_report_spec, FormData,
};
use crate::node::TokenData;
use crate::token::{
    generate_raw_token_base64, is_prepared_token, open_turn_token, open_turn_token_spec,
    prepare_turn_token, turn_token_fits, TOKEN_BYTES,
};
use crate::types::{BaseInputs, Command, EncryptedToken, FireInputs, TokenAuth};
use rand::rngs::StdRng;
use rand::seq::IteratorRandom;
use rand::SeedableRng;
use vstd::prelude::*;
use vstd::string::StrSliceExecFns;

verus! {

/// Number of characters in a nonce that the client makes up.
pub const NONCE_CHARS: usize = 12;

/// The proof of the turn that the form and the chain's token data give, or
/// the first thing that stands against it.
pub open spec fn token_auth_spec(token_data: TokenData, idata: FormData) -> Result<
    (Seq<u8>, Seq<u8>),
    Seq<char>,
> {
    match idata.rsa_privkey {
        None => Err("Missing RSA private key"@),
        Some(key) => match open_turn_token_spec(key@, token_data.enc_token@) {
            Err(e) => Err(e),
            Ok(token) => Ok((token, token_data.token_hash@)),
        },
    }
}

/// Builds the proof of the turn: decrypts the token that the chain holds
/// for the player with the player's RSA private key, and puts it beside the
/// hash that the chain has on record.
pub fn build_token_auth(token_data: &TokenData, idata: &FormData) -> (auth: Result<
    TokenAuth,
    String,
>)
    ensures
        match auth {
            Ok(a) => token_auth_spec(*token_data, *idata) == Ok::<(Seq<u8>, Seq<u8>), Seq<char>>(
                (a.token@, a.expected_hash@),
            ),
            Err(e) => token_auth_spec(*token_data, *idata) == Err::<(Seq<u8>, Seq<u8>), Seq<char>>(
                e@,
            ),
        },
{
    let rsa_privkey_b64 = match &idata.rsa_privkey {
        Some(key) => key,
        None => {
            return Err("Missing RSA private key".to_owned());
        },
    };
    match open_turn_token(rsa_privkey_b64.as_str(), token_data.enc_token.as_str()) {
        Ok(token) => Ok(
            TokenAuth { token, expected_hash: Digest { bytes: token_data.token_hash } },
        ),
        Err(e) => Err(e),
    }
}

/// The inputs of a proof that needs no turn, as the form gives them.
pub open spec fn base_inputs_match(
    out: Result<BaseInputs, String>,
    idata: FormData,
    auth: Option<TokenAuth>,
) -> bool {
    match out {
        Ok(input) => {
            &&& unmarshal_data_spec(idata) == Ok::<
                (Seq<char>, Seq<char>, Seq<u8>, Seq<char>),
                Seq<char>,
            >((input.gameid@, input.fleet@, input.board@, input.random@))
            &&& input.token_auth == auth
        },
        Err(e) => unmarshal_data_spec(idata) == Err::<
            (Seq<char>, Seq<char>, Seq<u8>, Seq<char>),
            Seq<char>,
        >(e@),
    }
}

/// The inputs of a proof of a shot or of a report, as the form gives them.
/// The cell is `y * 10 + x`.
pub open spec fn fire_inputs_match(
    out: Result<FireInputs, String>,
    expected: Result<(Seq<char>, Seq<char>, Seq<u8>, Seq<char>, Seq<char>, u8, u8), Seq<char>>,
    auth: TokenAuth,
) -> bool {
    match out {
        Ok(input) => {
            &&& expected matches Ok(v)
            &&& v.0 == input.gameid@
            &&& v.1 == input.fleet@
            &&& v.2 == input.board@
            &&& v.3 == input.random@
            &&& v.4 == input.target@
            &&& input.pos == v.6 * 10 + v.5
            &&& input.token_auth == Some(auth)
        },
        Err(e) => expected == Err::<
            (Seq<char>, Seq<char>, Seq<u8>, Seq<char>, Seq<char>, u8, u8),
            Seq<char>,
        >(e@),
    }
}

/// The inputs of the proof for an action on the common fields of the form.
fn base_inputs(idata: &FormData, auth: Option<TokenAuth>) -> (out: Result<BaseInputs, String>)
    ensures
        base_inputs_match(out, *idata, auth),
{
    match unmarshal_data(idata) {
        Ok((gameid, fleetid, board, random)) => Ok(
            BaseInputs { gameid, fleet: fleetid, board, random, token_auth: auth },
        ),
        Err(e) => Err(e),
    }
}

/// Join: the inputs of the proof are the common fields; a join needs no
/// turn.
pub fn join_game(idata: &FormData) -> (out: Result<BaseInputs, String>)
    ensures
        base_inputs_match(out, *idata, None),
{
    base_inputs(idata, None)
}

/// Win: the inputs of the proof are the common fields; a claim needs no
/// turn.
pub fn win(idata: &FormData) -> (out: Result<BaseInputs, String>)
    ensures
        base_inputs_match(out, *idata, None),
{
    base_inputs(idata, None)
}

/// Contest: the inputs of the proof are the common fields; a contest needs
/// no turn.
pub fn contest(idata: &FormData) -> (out: Result<BaseInputs, String>)
    ensures
        base_inputs_match(out, *idata, None),
{
    base_inputs(idata, None)
}

/// Wave: the inputs of the proof are the common fields and the proof of the
/// turn.
pub fn wave(idata: &FormData, token_auth: TokenAuth) -> (out: Result<BaseInputs, String>)
    ensures
        base_inputs_match(out, *idata, Some(token_auth)),
{
    base_inputs(idata, Some(token_auth))
}

/// Fire: the inputs of the proof are the common fields, the target, the
/// cell of the shot and the proof of the turn.
pub fn fire(idata: &FormData, token_auth: TokenAuth) -> (out: Result<FireInputs, String>)
    ensures
        fire_inputs_match(out, unmarshal_fire_spec(*idata), token_auth),
{
    match unmarshal_fire(idata) {
        Ok((gameid, fleetid, board, random, targetfleet, x, y)) => Ok(
            FireInputs {
                gameid,
                fleet: fleetid,
                board,
                random,
                target: targetfleet,
                pos: y * 10 + x,
                token_auth: Some(token_auth),
            },
        ),
        Err(e) => Err(e),
    }
}

/// Report: the inputs of the proof are the common fields, the outcome, the
/// cell of the shot and the proof of the turn.
pub fn report(idata: &FormData, token_auth: TokenAuth) -> (out: Result<FireInputs, String>)
    ensures
        fire_inputs_match(out, unmarshal_report_spec(*idata), token_auth),
{
    match unmarshal_report(idata) {
        Ok((gameid, fleetid, board, random, report_value, x, y)) => Ok(
            FireInputs {
                gameid,
                fleet: fleetid,
                board,
                random,
                target: report_value,
                pos: y * 10 + x,
                token_auth: Some(token_auth),
            },
        ),
        Err(e) => Err(e),
    }
}

/// The player's own RSA public key, which a join and a report send along so
/// that the player holds the turn afterwards.
pub fn own_rsa_pubkey(idata: &FormData) -> (key: Result<String, String>)
    ensures
        match key {
            Ok(k) => field(idata.rsa_pubkey) == Some(k@) && k@.len() > 0,
            Err(e) => e@ == "Missing RSA public key"@ && (idata.rsa_pubkey matches Some(k)
                ==> k@.len() == 0),
        },
{
    match &idata.rsa_pubkey {
        Some(k) => {
            if k.as_str().unicode_len() == 0 {
                Err("Missing RSA public key".to_owned())
            } else {
                Ok(copy_text(k))
            }
        },
        None => Err("Missing RSA public key".to_owned()),
    }
}

/// The message hands a token on: the action names a recipient, the form
/// has a turn token, and the token can be encrypted to the recipient's key.
pub open spec fn hands_token_on(idata: FormData, recipient_rsa_pubkey: Option<String>) -> bool {
    &&& recipient_rsa_pubkey is Some
    &&& idata.turn_token is Some
    &&& idata.turn_token.unwrap()@.len() > 0
    &&& turn_token_fits(recipient_rsa_pubkey.unwrap()@, idata.turn_token.unwrap()@)
}

/// The token that a message hands on: the turn token of the form,
/// encrypted to the recipient's RSA key, with the hash of the plain token
/// and the bytes of the recipient's key. There is none where the action
/// names no recipient, the form has no token or an empty one, or the token
/// cannot be encrypted to the key, and in no other case.
pub fn prepare_token_data(idata: &FormData, recipient_rsa_pubkey: &Option<String>) -> (token_data:
    Option<EncryptedToken>)
    ensures
        token_data is Some <==> hands_token_on(*idata, *recipient_rsa_pubkey),
        token_data matches Some(t) ==> {
            &&& base64_decoded(recipient_rsa_pubkey.unwrap()@) == Some(t.pub_rsa_key@)
            &&& is_prepared_token(
                (t.enc_token, t.token_hash.bytes),
                recipient_rsa_pubkey.unwrap()@,
                idata.turn_token.unwrap()@,
            )
        },
{
    let pubkey_b64 = match recipient_rsa_pubkey {
        Some(key) => key,
        None => {
            return None;
        },
    };
    let turn_token_b64 = match &idata.turn_token {
        Some(token) => token,
        None => {
            return None;
        },
    };
    if turn_token_b64.as_str().unicode_len() == 0 {
        return None;
    }
    let (enc_token, token_hash) = match prepare_turn_token(
        pubkey_b64.as_str(),
        turn_token_b64.as_str(),
    ) {
        Some(pair) => pair,
        None => {
            return None;
        },
    };
    let recipient_pubkey_bytes = match import_key_base64(pubkey_b64.as_str()) {
        Some(bytes) => bytes,
        None => {
            return None;
        },
    };
    Some(
        EncryptedToken {
            enc_token,
            token_hash: Digest { bytes: token_hash },
            pub_rsa_key: recipient_pubkey_bytes,
        },
    )
}

/// `IteratorRandom::choose` of the `rand` crate on the candidates, with a
/// generator seeded by `StdRng::from_entropy`: one of the candidates, and
/// `None` if and only if there is none to choose from. The crate stops the
/// program where the operating system gives no random bytes.
#[verifier::external_body]
fn choose_one(candidates: Vec<String>) -> (chosen: Option<String>)
    ensures
        chosen is None <==> candidates@.len() == 0,
        chosen matches Some(c) ==> candidates@.contains(c),
{
    let mut rng = StdRng::from_entropy();
    candidates.into_iter().choose(&mut rng)
}

/// The list holds the name.
pub open spec fn listed(list: Seq<String>, name: Seq<char>) -> bool {
    exists|j: int| 0 <= j < list.len() && (#[trigger] list[j])@ == name
}

/// The names that the texts of a list spell.
pub open spec fn names_of(list: Seq<String>) -> Seq<Seq<char>> {
    list.map_values(|name: String| name@)
}

/// The players other than `self_id`, in the order of the list.
pub fn other_players(players: &Vec<String>, self_id: &str) -> (others: Vec<String>)
    ensures
        names_of(others@) == names_of(players@).filter(|name: Seq<char>| name != self_id@),
        forall|name: Seq<char>|
            #![trigger listed(others@, name)]
            listed(others@, name) <==> listed(players@, name) && name != self_id@,
{
    let own = self_id.to_owned();
    let mut others: Vec<String> = Vec::new();
    let mut j: usize = 0;
    proof {
        reveal(Seq::filter);
        assert(names_of(players@.take(0)) =~= Seq::<Seq<char>>::empty());
        assert(names_of(others@) =~= Seq::<Seq<char>>::empty());
    }
    while j < players.len()
        invariant
            j <= players@.len(),
            own@ == self_id@,
            names_of(others@) == names_of(players@.take(j as int)).filter(
                |name: Seq<char>| name != self_id@,
            ),
            forall|name: Seq<char>|
                #![trigger listed(others@, name)]
                listed(others@, name) <==> listed(players@.take(j as int), name) && name
                    != self_id@,
        decreases players@.len() - j,
    {
        let ghost before = others@;
        let ghost seen = players@.take(j as int);
        let ghost more = players@.take(j + 1);
        let ghost current = players@[j as int]@;
        let keep = players[j] != own;
        if keep {
            others.push(copy_text(&players[j]));
        }
        proof {
            assert(more.drop_last() =~= seen);
            assert(more[j as int] == players@[j as int]);
            let differs = |name: Seq<char>| name != self_id@;
            assert(names_of(more) =~= names_of(seen).push(current));
            names_of(seen).lemma_filter_push(current, differs);
            if keep {
                assert(names_of(others@) =~= names_of(before).push(current));
            }
            assert forall|name: Seq<char>|
                #![trigger listed(others@, name)]
                listed(others@, name) <==> listed(
                more,
                name,
            ) && name != self_id@ by {
                if listed(others@, name) {
                    let i = choose|i: int|
                        0 <= i < others@.len() && (#[trigger] others@[i])@ == name;
                    if i < before.len() {
                        assert(before[i]@ == name);
                        assert(listed(before, name));
                        let m = choose|m: int| 0 <= m < seen.len() && (#[trigger] seen[m])@ == name;
                        assert(more[m]@ == name);
                    } else {
                        assert(more[j as int]@ == name);
                    }
                }
                if listed(more, name) && name != self_id@ {
                    let m = choose|m: int| 0 <= m < more.len() && (#[trigger] more[m])@ == name;
                    if m < j {
                        assert(seen[m]@ == name);
                        assert(listed(seen, name));
                        assert(listed(before, name));
                        let i = choose|i: int|
                            0 <= i < before.len() && (#[trigger] before[i])@ == name;
                        assert(others@[i]@ == name);
                    } else {
                        assert(others@[before.len() as int]@ == name);
                    }
                }
            }
        }
        j += 1;
    }
    proof {
        assert(players@.take(j as int) =~= players@);
    }
    others
}

/// Picks at random a player other than `self_id` to hand the turn to, or
/// `None` where there is no other player.
pub fn pick_random_other_player(players: &Vec<String>, self_id: &str) -> (picked: Option<String>)
    ensures
        picked is None <==> forall|j: int|
            0 <= j < players@.len() ==> (#[trigger] players@[j])@ == self_id@,
        picked matches Some(p) ==> p@ != self_id@ && listed(players@, p@),
{
    let others = other_players(players, self_id);
    let ghost candidates = others@;
    let picked = choose_one(others);
    proof {
        if picked is Some {
            let p = picked.unwrap();
            assert(candidates.contains(p));
            let i = choose|i: int| 0 <= i < candidates.len() && candidates[i] == p;
            assert(candidates[i]@ == p@);
            assert(listed(candidates, p@));
        }
        if candidates.len() > 0 {
            assert(listed(candidates, candidates[0]@));
            let j = choose|j: int|
                0 <= j < players@.len() && (#[trigger] players@[j])@ == candidates[0]@;
            assert(players@[j]@ != self_id@);
        } else {
            assert forall|j: int| 0 <= j < players@.len() implies (#[trigger] players@[j])@
                == self_id@ by {
                if players@[j]@ != self_id@ {
                    assert(listed(players@, players@[j]@));
                    assert(listed(candidates, players@[j]@));
                }
            }
        }
    }
    picked
}

/// `nanoid::format` of the `nanoid` crate with its default random source
/// and its alphabet `SAFE`: a random text of `size` characters. The crate
/// stops the program where the operating system gives no random bytes,
/// does not come back where no character is asked for, and multiplies the
/// size by eight on the way.
#[verifier::external_body]
fn fresh_nonce(size: usize) -> (nonce: String)
    requires
        0 < size <= 0x1000_0000,
    ensures
        nonce@.len() == size,
{
    nanoid::format(nanoid::rngs::default, &nanoid::alphabet::SAFE, size)
}

/// Whether the form lacks a nonce.
pub open spec fn lacks_nonce(random: Option<String>) -> bool {
    match random {
        Some(r) => r@.len() == 0,
        None => true,
    }
}

/// Completes the form before an action: a form without a nonce gets a
/// fresh one of twelve characters, and every form gets a fresh turn token,
/// to hand on if the action passes the turn. The other fields stay.
pub fn process_input_data(input_data: FormData) -> (out: FormData)
    ensures
        out == (FormData { random: out.random, turn_token: out.turn_token, ..input_data }),
        !lacks_nonce(input_data.random) ==> out.random == input_data.random,
        lacks_nonce(input_data.random) ==> out.random is Some && out.random.unwrap()@.len()
            == NONCE_CHARS,
        out.turn_token matches Some(t) ==> exists|token: Seq<u8>|
            token.len() == TOKEN_BYTES && t@ == #[trigger] base64_encoded(token),
{
    let mut input_data = input_data;
    let lacks = match &input_data.random {
        Some(r) => r.as_str().unicode_len() == 0,
        None => true,
    };
    if lacks {
        input_data.random = Some(fresh_nonce(NONCE_CHARS));
    }
    input_data.turn_token = generate_raw_token_base64();
    input_data
}

/// Whether the text is the word `word`.
fn is_word(text: &str, word: &str) -> (same: bool)
    ensures
        same == (text@ == word@),
{
    let a = text.to_owned();
    let b = word.to_owned();
    a == b
}

/// The action that a button of the form stands for.
pub open spec fn button_command(button: Seq<char>) -> Option<Command> {
    if button == "Join"@ {
        Some(Command::Join)
    } else if button == "Fire"@ {
        Some(Command::Fire)
    } else if button == "Report"@ {
        Some(Command::Report)
    } else if button == "Wave"@ {
        Some(Command::Wave)
    } else if button == "Win"@ {
        Some(Command::Win)
    } else if button == "Contest"@ {
        Some(Command::Contest)
    } else {
        None
    }
}

/// Reads the action off the button that was pressed.
pub fn command_for_button(button: &str) -> (cmd: Option<Command>)
    ensures
        cmd == button_command(button@),
{
    if is_word(button, "Join") {
        Some(Command::Join)
    } else if is_word(button, "Fire") {
        Some(Command::Fire)
    } else if is_word(button, "Report") {
        Some(Command::Report)
    } else if is_word(button, "Wave") {
        Some(Command::Wave)
    } else if is_word(button, "Win") {
        Some(Command::Win)
    } else if is_word(button, "Contest") {
        Some(Command::Contest)
    } else {
        None
    }
}

} // verus!
