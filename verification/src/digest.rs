//! 32-byte digests and the SHA-256 commitments built from them.

use sha2::Sha256;
use vstd::prelude::*;

verus! {

/// Number of bytes in a digest.
pub const DIGEST_BYTES: usize = 32;

/// A SHA-256 digest: a board commitment or the hash of a turn token.
#[derive(Clone, Copy, Debug, PartialEq, Eq)]
pub struct Digest {
    pub bytes: [u8; 32],
}

impl View for Digest {
    type V = Seq<u8>;

    open spec fn view(&self) -> Seq<u8> {
        self.bytes@
    }
}

/// The digest of 32 zero bytes, which stands for "no turn token".
pub open spec fn zero_digest() -> Seq<u8> {
    Seq::new(32, |i: int| 0u8)
}

/// The SHA-256 hash of a byte string, as the `sha2` crate computes it.
pub uninterp spec fn sha256(data: Seq<u8>) -> Seq<u8>;

/// The commitment that binds a board to a nonce: the hash of the nonce's
/// UTF-8 bytes followed by the board's cells, in this order.
pub open spec fn board_commitment(board: Seq<u8>, nonce: Seq<char>) -> Seq<u8> {
    sha256(vstd::utf8::encode_utf8(nonce) + board)
}

/// Compares two byte strings.
pub fn bytes_eq(a: &[u8], b: &[u8]) -> (same: bool)
    ensures
        same == (a@ == b@),
{
    if a.len() != b.len() {
        return false;
    }
    let mut i: usize = 0;
    while i < a.len()
        invariant
            i <= a.len(),
            a.len() == b.len(),
            forall|j: int| 0 <= j < i ==> a@[j] == b@[j],
        decreases a.len() - i,
    {
        if a[i] != b[i] {
            return false;
        }
        i += 1;
    }
    assert(a@ =~= b@);
    true
}

/// `Sha256::digest` of the `sha2` crate: the result is the SHA-256 hash of
/// `data`, 32 bytes long.
#[verifier::external_body]
fn sha256_digest(data: &[u8]) -> (hash: [u8; 32])
    ensures
        hash@ == sha256(data@),
{
    <Sha256 as sha2::Digest>::digest(data).into()
}

impl Digest {
    /// The digest of 32 zero bytes.
    pub fn zero() -> (d: Digest)
        ensures
            d@ == zero_digest(),
    {
        let d = Digest { bytes: [0u8; 32] };
        assert(d@ =~= zero_digest());
        d
    }

    /// The digest that holds the 32 bytes of `bytes`, or `None` where there
    /// are more or fewer.
    pub fn from_slice(bytes: &[u8]) -> (d: Option<Digest>)
        ensures
            d is Some <==> bytes@.len() == 32,
            d matches Some(digest) ==> digest@ == bytes@,
    {
        if bytes.len() != 32 {
            return None;
        }
        let mut out: [u8; 32] = [0u8; 32];
        let mut i: usize = 0;
        while i < 32
            invariant
                i <= 32,
                bytes@.len() == 32,
                forall|j: int| 0 <= j < i ==> out@[j] == bytes@[j],
            decreases 32 - i,
        {
            out[i] = bytes[i];
            i += 1;
        }
        assert(out@ =~= bytes@);
        Some(Digest { bytes: out })
    }

    /// The SHA-256 hash of `data`.
    pub fn of(data: &[u8]) -> (d: Digest)
        ensures
            d@ == sha256(data@),
    {
        Digest { bytes: sha256_digest(data) }
    }

    /// Whether two digests hold the same bytes.
    pub fn same(&self, other: &Digest) -> (b: bool)
        ensures
            b == (self@ == other@),
    {
        bytes_eq(self.bytes.as_slice(), other.bytes.as_slice())
    }

    /// The digest as a vector of its 32 bytes.
    pub fn to_vec(&self) -> (v: Vec<u8>)
        ensures
            v@ == self@,
    {
        let mut v: Vec<u8> = Vec::new();
        let mut i: usize = 0;
        while i < 32
            invariant
                i <= 32,
                v@.len() == i,
                forall|j: int| 0 <= j < i ==> v@[j] == self.bytes@[j],
            decreases 32 - i,
        {
            v.push(self.bytes[i]);
            i += 1;
        }
        assert(v@ =~= self@);
        v
    }
}

/// Whether two optional digests are both absent or hold the same bytes.
pub fn same_commitment(a: &Option<Digest>, b: &Digest) -> (same: bool)
    ensures
        same == (a matches Some(d) && d@ == b@),
{
    match a {
        Some(d) => d.same(b),
        None => false,
    }
}

/// Computes the commitment of a board under a nonce: SHA-256 of the nonce
/// followed by the board.
pub fn hash_board(board: &[u8], nonce: &str) -> (commitment: Digest)
    ensures
        commitment@ == board_commitment(board@, nonce@),
{
    let nonce_bytes = nonce.as_bytes();
    let mut data: Vec<u8> = Vec::new();
    let mut i: usize = 0;
    while i < nonce_bytes.len()
        invariant
            i <= nonce_bytes@.len(),
            data@ == nonce_bytes@.take(i as int),
        decreases nonce_bytes@.len() - i,
    {
        data.push(nonce_bytes[i]);
        assert(data@ =~= nonce_bytes@.take(i + 1));
        i += 1;
    }
    assert(nonce_bytes@.take(i as int) =~= nonce_bytes@);
    let mut k: usize = 0;
    while k < board.len()
        invariant
            k <= board@.len(),
            data@ == nonce_bytes@ + board@.take(k as int),
        decreases board@.len() - k,
    {
        data.push(board[k]);
        assert(data@ =~= nonce_bytes@ + board@.take(k + 1));
        k += 1;
    }
    assert(board@.take(k as int) =~= board@);
    Digest::of(data.as_slice())
}

} // verus!
