//! The check that every message passes before the chain acts on it: the
//! signature must hold, and a fleet that is in the game must have signed
//! with the key it joined with.

use crate::digest::bytes_eq;
use crate::rules::ChainError;
use crate::signing::{signature_valid, verify_signature};
use crate::states::{ChainState, ChainView};
use crate::types::{CommunicationData, Journal, SignedMessage};
use vstd::prelude::*;

verus! {

/// The fleet of the journal is a player of the journal's game, and `key` is
/// not the key that the player joined with.
pub open spec fn registered_under_other_key(
    chain: ChainView,
    gameid: Seq<char>,
    fleet: Seq<char>,
    key: Seq<u8>,
) -> bool {
    &&& chain.contains_key(gameid)
    &&& chain[gameid].players.contains_key(fleet)
    &&& chain[gameid].players[fleet].public_key != key
}

/// What stands against a signed message, if anything. `message_bytes` are
/// the bytes that stand for the payload and that the signature is over.
pub open spec fn authenticate_rule(
    chain: ChainView,
    signed: SignedMessage<CommunicationData>,
    message_bytes: Seq<u8>,
) -> Result<(), ChainError> {
    if !signature_valid(message_bytes, signed.signature@, signed.public_key@) {
        Err(ChainError::InvalidSignature)
    } else if registered_under_other_key(
        chain,
        signed.payload.receipt.journal.spec_gameid(),
        signed.payload.receipt.journal.spec_fleet(),
        signed.public_key@,
    ) {
        Err(ChainError::SignerMismatch)
    } else {
        Ok(())
    }
}

/// Checks the key of a message against what the chain knows of its
/// sender: where the fleet of the journal is a player of the journal's
/// game, the key must be the one that the player joined with.
pub fn check_signer(chain: &ChainState, journal: &Journal, public_key: &[u8]) -> (result: Result<
    (),
    ChainError,
>)
    ensures
        result == if registered_under_other_key(
            chain@,
            journal.spec_gameid(),
            journal.spec_fleet(),
            public_key@,
        ) {
            Err::<(), ChainError>(ChainError::SignerMismatch)
        } else {
            Ok::<(), ChainError>(())
        },
{
    match chain.game(journal.gameid().as_str()) {
        Some(game) => match game.pmap.get(journal.fleet().as_str()) {
            Some(player) => {
                if !bytes_eq(player.public_key.as_slice(), public_key) {
                    return Err(ChainError::SignerMismatch);
                }
            },
            None => {},
        },
        None => {},
    }
    Ok(())
}

/// Verifies that a signed message is authentic and that it agrees with
/// what the chain knows of its sender. `message_bytes` are the bytes that
/// stand for the payload.
pub fn authenticate(
    chain: &ChainState,
    signed: &SignedMessage<CommunicationData>,
    message_bytes: &[u8],
) -> (result: Result<(), ChainError>)
    ensures
        result == authenticate_rule(chain@, *signed, message_bytes@),
{
    if !verify_signature(message_bytes, signed.signature.as_slice(), signed.public_key.as_slice()) {
        return Err(ChainError::InvalidSignature);
    }
    check_signer(chain, &signed.payload.receipt.journal, signed.public_key.as_slice())
}

} // verus!
