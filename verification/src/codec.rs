//! Deterministic wire encodings: the settlement message crossing the shard
//! boundary, and the claim operation bytes a client submits.
//!
//! Every field is laid out at a fixed offset; amounts and lengths are
//! little-endian byte strings whose reading is pinned by `le_value`.

use vstd::prelude::*;

use crate::bytes::append_bytes;
use crate::bytes::bytes_range;
use crate::types::Account;
use crate::types::AirDropClaim;
use crate::types::AirDropId;
use crate::types::ApprovedAirDrop;

verus! {

/// The number a little-endian byte string denotes.
pub open spec fn le_value(bytes: Seq<u8>) -> nat
    decreases bytes.len(),
{
    if bytes.len() == 0 {
        0
    } else {
        (bytes[0] + 256 * le_value(bytes.drop_first())) as nat
    }
}

/// `256^n`: one more than the largest value `n` bytes can denote.
pub open spec fn pow256(n: nat) -> nat
    decreases n,
{
    if n == 0 {
        1
    } else {
        256 * pow256((n - 1) as nat)
    }
}

/// A byte string of length `n` denotes a value below `256^n`.
proof fn lemma_le_value_bound(bytes: Seq<u8>)
    ensures
        le_value(bytes) < pow256(bytes.len()),
    decreases bytes.len(),
{
    if bytes.len() > 0 {
        lemma_le_value_bound(bytes.drop_first());
        let rest = le_value(bytes.drop_first());
        let cap = pow256((bytes.len() - 1) as nat);
        assert(rest + 1 <= cap);
        assert(256 * rest + 256 <= 256 * cap) by (nonlinear_arith)
            requires
                rest + 1 <= cap,
        ;
    }
}

/// `256^n` grows with `n`.
proof fn lemma_pow256_monotonic(a: nat, b: nat)
    requires
        a <= b,
    ensures
        pow256(a) <= pow256(b),
    decreases b,
{
    if a < b {
        lemma_pow256_monotonic(a, (b - 1) as nat);
        assert(pow256((b - 1) as nat) <= 256 * pow256((b - 1) as nat)) by (nonlinear_arith)
            requires
                pow256((b - 1) as nat) >= 0,
        ;
    }
}

/// Sixteen bytes cover every amount a `u128` can hold.
proof fn lemma_pow256_16()
    ensures
        pow256(16) == 0x100000000000000000000000000000000nat,
{
    reveal_with_fuel(pow256, 17);
}

/// Appending a byte raises the denoted value by that byte at the next place.
proof fn lemma_le_value_push(bytes: Seq<u8>, b: u8)
    ensures
        le_value(bytes.push(b)) == le_value(bytes) + pow256(bytes.len()) * b,
    decreases bytes.len(),
{
    if bytes.len() == 0 {
        assert(bytes.push(b).drop_first() =~= bytes);
        assert(bytes.push(b)[0] == b);
        assert(le_value(bytes) == 0);
        assert(le_value(bytes.push(b)) == b + 256 * le_value(bytes));
        assert(pow256(bytes.len()) == 1);
    } else {
        assert(bytes.push(b).drop_first() =~= bytes.drop_first().push(b));
        lemma_le_value_push(bytes.drop_first(), b);
        let rest = le_value(bytes.drop_first());
        let cap = pow256((bytes.len() - 1) as nat);
        assert(le_value(bytes.drop_first().push(b)) == rest + cap * b);
        assert(bytes.push(b)[0] == bytes[0]);
        assert(le_value(bytes.push(b)) == bytes[0] + 256 * (rest + cap * b));
        assert(pow256(bytes.len()) == 256 * cap);
        assert(256 * (rest + cap * b) == 256 * rest + (256 * cap) * b) by (nonlinear_arith);
    }
}

/// Writes `x` as exactly `width` little-endian bytes.
pub fn le_encode(x: u128, width: usize) -> (r: Vec<u8>)
    requires
        (x as nat) < pow256(width as nat),
    ensures
        r@.len() == width,
        le_value(r@) == x as nat,
{
    let mut out: Vec<u8> = Vec::new();
    let mut rem: u128 = x;
    let mut i: usize = 0;
    proof {
        assert(le_value(out@) == 0);
        assert(pow256(0nat) == 1);
    }
    while i < width
        invariant
            i <= width,
            out@.len() == i,
            le_value(out@) + pow256(i as nat) * rem == x as nat,
        decreases width - i,
    {
        let b = (rem % 256) as u8;
        proof {
            lemma_le_value_push(out@, b);
            let p = pow256(i as nat);
            assert(rem == 256 * (rem / 256) + (rem % 256)) by (nonlinear_arith);
            assert(p * rem == p * b + (256 * p) * (rem / 256)) by (nonlinear_arith)
                requires
                    rem == 256 * (rem / 256) + b,
            ;
        }
        out.push(b);
        rem = rem / 256;
        i = i + 1;
    }
    proof {
        lemma_le_value_bound(out@);
        if rem > 0 {
            assert(pow256(width as nat) * rem >= pow256(width as nat)) by (nonlinear_arith)
                requires
                    rem >= 1,
                    pow256(width as nat) >= 0,
            ;
        }
    }
    out
}

/// Reads the `width` little-endian bytes of `src` starting at `start`.
pub fn le_decode(src: &Vec<u8>, start: usize, width: usize) -> (r: u128)
    requires
        start + width <= src@.len(),
        width <= 16,
    ensures
        r as nat == le_value(src@.subrange(start as int, start + width)),
{
    let mut acc: u128 = 0;
    let mut i: usize = width;
    let total: usize = src.len();
    proof {
        assert(src@.len() == total);
        assert(src@.subrange(start + width, start + width) =~= Seq::<u8>::empty());
    }
    while i > 0
        invariant
            i <= width,
            width <= 16,
            start + width <= src@.len(),
            src@.len() <= usize::MAX,
            acc as nat == le_value(src@.subrange(start + i, start + width)),
        decreases i,
    {
        let b = src[start + i - 1];
        proof {
            let tail = src@.subrange(start + i, start + width);
            let whole = src@.subrange(start + i - 1, start + width);
            assert(whole.drop_first() =~= tail);
            assert(whole[0] == b);
            lemma_le_value_bound(tail);
            lemma_pow256_monotonic((width - i) as nat, 15);
            lemma_pow256_16();
            assert(256 * le_value(tail) + 256 <= 256 * pow256((width - i) as nat)) by (
            nonlinear_arith)
                requires
                    le_value(tail) + 1 <= pow256((width - i) as nat),
            ;
            assert(256 * pow256(15nat) == pow256(16nat));
        }
        acc = 256 * acc + (b as u128);
        i = i - 1;
    }
    acc
}

/// Total length of an encoded settlement message.
pub const MESSAGE_WIRE_LEN: usize = 100;

/// Serializes a settlement message: the identity, then sixteen amount bytes,
/// then the destination's shard and owner identifiers.
pub fn encode_message(message: &ApprovedAirDrop) -> (r: Vec<u8>)
    requires
        message.well_formed(),
    ensures
        r@.len() == MESSAGE_WIRE_LEN,
        r@.subrange(0, 20) == message.id.bytes@,
        le_value(r@.subrange(20, 36)) == message.amount as nat,
        r@.subrange(36, 68) == message.destination.chain_id@,
        r@.subrange(68, 100) == message.destination.owner@,
{
    proof {
        lemma_pow256_16();
    }
    let mut out: Vec<u8> = Vec::new();
    append_bytes(&mut out, &message.id.bytes);
    let amount_bytes = le_encode(message.amount, 16);
    append_bytes(&mut out, &amount_bytes);
    append_bytes(&mut out, &message.destination.chain_id);
    append_bytes(&mut out, &message.destination.owner);
    assert(out@.subrange(0, 20) =~= message.id.bytes@);
    assert(out@.subrange(20, 36) =~= amount_bytes@);
    assert(out@.subrange(36, 68) =~= message.destination.chain_id@);
    assert(out@.subrange(68, 100) =~= message.destination.owner@);
    out
}

/// Deserializes a settlement message; exactly the 100-byte strings in the
/// wire layout decode, and every field reads back what was written.
pub fn decode_message(bytes: &Vec<u8>) -> (r: Option<ApprovedAirDrop>)
    ensures
        bytes@.len() != MESSAGE_WIRE_LEN ==> r is None,
        bytes@.len() == MESSAGE_WIRE_LEN ==> (r matches Some(message) && message.well_formed()
            && message.id.bytes@ == bytes@.subrange(0, 20) && message.amount as nat == le_value(
            bytes@.subrange(20, 36),
        ) && message.destination.chain_id@ == bytes@.subrange(36, 68)
            && message.destination.owner@ == bytes@.subrange(68, 100)),
{
    if bytes.len() != MESSAGE_WIRE_LEN {
        return None;
    }
    let id = AirDropId { bytes: bytes_range(bytes, 0, 20) };
    let amount = le_decode(bytes, 20, 16);
    let destination = Account {
        chain_id: bytes_range(bytes, 36, 68),
        owner: bytes_range(bytes, 68, 100),
    };
    Some(ApprovedAirDrop { id, amount, destination })
}

/// Fixed part of an encoded claim operation, before the credential bytes.
pub const CLAIM_WIRE_HEADER_LEN: usize = 133;

/// Serializes a claim operation: the signature, the destination's shard and
/// owner identifiers, four length bytes, then the credential itself.
/// Pure: the bytes are a function of the claim alone.
pub fn encode_claim(claim: &AirDropClaim) -> (r: Vec<u8>)
    requires
        claim.well_formed(),
        claim.api_token@.len() < 0x100000000,
    ensures
        r@.len() == CLAIM_WIRE_HEADER_LEN + claim.api_token@.len(),
        r@.subrange(0, 65) == claim.signature@,
        r@.subrange(65, 97) == claim.destination.chain_id@,
        r@.subrange(97, 129) == claim.destination.owner@,
        le_value(r@.subrange(129, 133)) == claim.api_token@.len(),
        r@.subrange(133, r@.len() as int) == claim.api_token@,
{
    proof {
        lemma_pow256_monotonic(4, 16);
        lemma_pow256_16();
        reveal_with_fuel(pow256, 5);
    }
    let mut out: Vec<u8> = Vec::new();
    append_bytes(&mut out, &claim.signature);
    append_bytes(&mut out, &claim.destination.chain_id);
    append_bytes(&mut out, &claim.destination.owner);
    let len_bytes = le_encode(claim.api_token.len() as u128, 4);
    append_bytes(&mut out, &len_bytes);
    append_bytes(&mut out, &claim.api_token);
    assert(out@.subrange(0, 65) =~= claim.signature@);
    assert(out@.subrange(65, 97) =~= claim.destination.chain_id@);
    assert(out@.subrange(97, 129) =~= claim.destination.owner@);
    assert(out@.subrange(129, 133) =~= len_bytes@);
    assert(out@.subrange(133, out@.len() as int) =~= claim.api_token@);
    out
}

/// Deserializes a claim operation; exactly the byte strings whose length
/// bytes match their tail decode, and every field reads back what was
/// written.
pub fn decode_claim(bytes: &Vec<u8>) -> (r: Option<AirDropClaim>)
    ensures
        bytes@.len() < CLAIM_WIRE_HEADER_LEN ==> r is None,
        bytes@.len() >= CLAIM_WIRE_HEADER_LEN ==> (if le_value(bytes@.subrange(129, 133))
            == bytes@.len() - CLAIM_WIRE_HEADER_LEN {
            r matches Some(claim) && claim.well_formed() && claim.signature@ == bytes@.subrange(
                0,
                65,
            ) && claim.destination.chain_id@ == bytes@.subrange(65, 97)
                && claim.destination.owner@ == bytes@.subrange(97, 129) && claim.api_token@
                == bytes@.subrange(133, bytes@.len() as int)
        } else {
            r is None
        }),
{
    if bytes.len() < CLAIM_WIRE_HEADER_LEN {
        return None;
    }
    let token_len = le_decode(bytes, 129, 4);
    proof {
        lemma_le_value_bound(bytes@.subrange(129, 133));
        reveal_with_fuel(pow256, 5);
    }
    if token_len != (bytes.len() - CLAIM_WIRE_HEADER_LEN) as u128 {
        return None;
    }
    let claim = AirDropClaim {
        signature: bytes_range(bytes, 0, 65),
        destination: Account {
            chain_id: bytes_range(bytes, 65, 97),
            owner: bytes_range(bytes, 97, 129),
        },
        api_token: bytes_range(bytes, CLAIM_WIRE_HEADER_LEN, bytes.len()),
    };
    Some(claim)
}

} // verus!
