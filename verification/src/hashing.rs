//! The commitment scheme: a (choice, secret) pair is encoded as one
//! choice byte followed by the sixteen big-endian bytes of the secret,
//! hashed with Keccak-256, and stored hex-encoded. The encoding is
//! injective, so distinct pairs never share a preimage.

use vstd::prelude::*;
use vstd::bytes::{spec_u128_to_le_bytes, spec_u128_from_le_bytes, u128_to_le_bytes,
    lemma_auto_spec_u128_to_from_le_bytes};
use crate::game::{Choice, choice_code};

verus! {

/// The lowercase hexadecimal digit for one nibble.
pub open spec fn hex_digit(n: u8) -> char
    recommends
        n < 16,
{
    if n == 0 {
        '0'
    } else if n == 1 {
        '1'
    } else if n == 2 {
        '2'
    } else if n == 3 {
        '3'
    } else if n == 4 {
        '4'
    } else if n == 5 {
        '5'
    } else if n == 6 {
        '6'
    } else if n == 7 {
        '7'
    } else if n == 8 {
        '8'
    } else if n == 9 {
        '9'
    } else if n == 10 {
        'a'
    } else if n == 11 {
        'b'
    } else if n == 12 {
        'c'
    } else if n == 13 {
        'd'
    } else if n == 14 {
        'e'
    } else {
        'f'
    }
}

/// Lowercase hex encoding: two digits per byte, high nibble first.
pub open spec fn hex_of(bytes: Seq<u8>) -> Seq<char> {
    Seq::new(
        bytes.len() * 2,
        |i: int|
            if i % 2 == 0 {
                hex_digit((bytes[i / 2] / 16) as u8)
            } else {
                hex_digit((bytes[i / 2] % 16) as u8)
            },
    )
}

/// The Keccak-256 digest of a byte sequence, named but not written out:
/// only the trusted wrapper below says anything about it.
pub uninterp spec fn keccak256_of(input: Seq<u8>) -> Seq<u8>;

/// Relies on near_sdk::env::keccak256: the Keccak-256 digest of the
/// input, a function of the input bytes alone, 32 bytes long.
#[verifier::external_body]
pub(crate) fn keccak256(input: &Vec<u8>) -> (r: Vec<u8>)
    ensures
        r@ == keccak256_of(input@),
        r@.len() == 32,
{
    near_sdk::env::keccak256(input.as_slice())
}

/// Relies on hex::encode: lowercase hexadecimal of the input bytes, two
/// digits per byte, high nibble first.
#[verifier::external_body]
pub(crate) fn hex_encode(bytes: &Vec<u8>) -> (r: String)
    ensures
        r@ == hex_of(bytes@),
{
    hex::encode(bytes.as_slice())
}

/// The sixteen bytes of a secret, most significant first.
pub open spec fn u128_be_bytes(x: u128) -> Seq<u8> {
    Seq::new(16, |i: int| spec_u128_to_le_bytes(x)[15 - i])
}

/// Writes a secret out big-endian.
pub fn u128_to_be_bytes(x: u128) -> (r: Vec<u8>)
    ensures
        r@ == u128_be_bytes(x),
{
    proof {
        lemma_auto_spec_u128_to_from_le_bytes();
    }
    let le = u128_to_le_bytes(x);
    let mut r: Vec<u8> = Vec::new();
    let mut i: usize = 0;
    while i < 16
        invariant
            le@ == spec_u128_to_le_bytes(x),
            le@.len() == 16,
            i <= 16,
            r@ == u128_be_bytes(x).take(i as int),
        decreases 16 - i,
    {
        r.push(le[15 - i]);
        proof {
            assert(u128_be_bytes(x).take(i + 1) =~= u128_be_bytes(x).take(i as int).push(
                le@[15 - i],
            ));
        }
        i += 1;
    }
    proof {
        assert(r@ =~= u128_be_bytes(x));
    }
    r
}

/// Equal big-endian encodings come from equal secrets.
pub proof fn lemma_u128_be_bytes_injective(x: u128, y: u128)
    requires
        u128_be_bytes(x) == u128_be_bytes(y),
    ensures
        x == y,
{
    lemma_auto_spec_u128_to_from_le_bytes();
    assert(spec_u128_to_le_bytes(x) =~= spec_u128_to_le_bytes(y)) by {
        assert forall|j: int| 0 <= j < 16 implies spec_u128_to_le_bytes(x)[j]
            == spec_u128_to_le_bytes(y)[j] by {
            assert(u128_be_bytes(x)[15 - j] == spec_u128_to_le_bytes(x)[j]);
            assert(u128_be_bytes(y)[15 - j] == spec_u128_to_le_bytes(y)[j]);
        }
    }
    assert(spec_u128_from_le_bytes(spec_u128_to_le_bytes(x)) == x);
    assert(spec_u128_from_le_bytes(spec_u128_to_le_bytes(y)) == y);
}

/// The bytes that are hashed for a commitment: the choice byte, then
/// the big-endian secret.
pub open spec fn commit_preimage(choice: Choice, secret: u128) -> Seq<u8> {
    seq![choice_code(choice)] + u128_be_bytes(secret)
}

/// The stored form of a commitment: the hex-encoded Keccak-256 digest
/// of the preimage. Deterministic by construction: it is a function of
/// the choice and the secret alone.
pub open spec fn commit_hash(choice: Choice, secret: u128) -> Seq<char> {
    hex_of(keccak256_of(commit_preimage(choice, secret)))
}

/// Computes the commitment for a (choice, secret) pair.
pub fn compute_commitment(choice: Choice, secret: u128) -> (r: String)
    ensures
        r@ == commit_hash(choice, secret),
        r@.len() == 64,
{
    let mut concat: Vec<u8> = Vec::new();
    concat.push(choice.code());
    let mut be = u128_to_be_bytes(secret);
    concat.append(&mut be);
    proof {
        assert(concat@ =~= commit_preimage(choice, secret));
    }
    let digest = keccak256(&concat);
    hex_encode(&digest)
}

/// Distinct (choice, secret) pairs produce distinct preimages: the
/// hash is applied to an injective encoding, so a commitment binds its
/// pair as strongly as the hash itself does.
pub proof fn lemma_commit_preimage_injective(c1: Choice, s1: u128, c2: Choice, s2: u128)
    requires
        c1 != c2 || s1 != s2,
    ensures
        commit_preimage(c1, s1) != commit_preimage(c2, s2),
{
    if c1 != c2 {
        assert(commit_preimage(c1, s1)[0] == choice_code(c1));
        assert(commit_preimage(c2, s2)[0] == choice_code(c2));
    } else if commit_preimage(c1, s1) == commit_preimage(c2, s2) {
        assert(u128_be_bytes(s1) =~= u128_be_bytes(s2)) by {
            assert forall|j: int| 0 <= j < 16 implies u128_be_bytes(s1)[j] == u128_be_bytes(
                s2,
            )[j] by {
                assert(commit_preimage(c1, s1)[j + 1] == u128_be_bytes(s1)[j]);
                assert(commit_preimage(c2, s2)[j + 1] == u128_be_bytes(s2)[j]);
            }
        }
        lemma_u128_be_bytes_injective(s1, s2);
    }
}

} // verus!
