//! The eligibility oracle client: the queries sent on a claimant's behalf,
//! the request body and authorization header around them, and the
//! interpretation of what comes back.
//!
//! The network call itself is an environment capability; this module builds
//! every byte that goes out and decides what every possible answer means.

use vstd::prelude::*;
use vstd::string::StringSliceAdditionalSpecFns;

use crate::bytes::append_bytes;

use crate::types::OracleVerdict;

verus! {

/// The lower-case hex digit of a nibble.
pub open spec fn hex_digit(n: u8) -> u8 {
    if n < 10 {
        (48 + n) as u8
    } else {
        (87 + n) as u8
    }
}

/// Lower-case hex encoding: two digits per byte, high nibble first.
pub open spec fn hex_of(bytes: Seq<u8>) -> Seq<u8> {
    Seq::new(
        bytes.len() * 2,
        |i: int|
            if i % 2 == 0 {
                hex_digit((bytes[i / 2] / 16) as u8)
            } else {
                hex_digit((bytes[i / 2] % 16) as u8)
            },
    )
}

/// Relies on `hex::encode`: lower-case hex, two digits per byte, high nibble
/// first, a function of the input bytes alone.
#[verifier::external_body]
fn hex_encode(bytes: &Vec<u8>) -> (r: Vec<u8>)
    ensures
        r@ == hex_of(bytes@),
{
    hex::encode(bytes.as_slice()).into_bytes()
}

/// Appends the UTF-8 bytes of `s` to `dst`.
fn append_str_bytes(dst: &mut Vec<u8>, s: &str)
    ensures
        final(dst)@ == old(dst)@ + s.spec_bytes(),
{
    let bytes = s.as_bytes();
    let mut i: usize = 0;
    while i < bytes.len()
        invariant
            i <= bytes@.len(),
            bytes@ == s.spec_bytes(),
            dst@ == old(dst)@ + bytes@.subrange(0, i as int),
        decreases bytes@.len() - i,
    {
        dst.push(bytes[i]);
        assert(dst@ =~= old(dst)@ + bytes@.subrange(0, i + 1 as int));
        i = i + 1;
    }
    assert(dst@ =~= old(dst)@ + s.spec_bytes());
}

/// The textual form of a claimant address: `0x` followed by its hex digits.
pub open spec fn address_text_spec(address: Seq<u8>) -> Seq<u8> {
    ("0x").spec_bytes() + hex_of(address)
}

/// Renders a claimant address in its textual form.
pub fn address_text(address: &Vec<u8>) -> (r: Vec<u8>)
    ensures
        r@ == address_text_spec(address@),
{
    let mut out: Vec<u8> = Vec::new();
    append_str_bytes(&mut out, "0x");
    let digits = hex_encode(address);
    append_bytes(&mut out, &digits);
    out
}

/// The client-facing eligibility query for one claimant, carrying the
/// claimant's textual address and the bearer credential.
pub open spec fn eligibility_query_spec(address_text: Seq<u8>, api_token: Seq<u8>) -> Seq<u8> {
    ("query { checkEligibility(address: \"").spec_bytes() + address_text + (
    "\", apiToken: \"").spec_bytes() + api_token + ("\") }").spec_bytes()
}

/// Builds the eligibility query for a claimant address and credential.
pub fn eligibility_query(address: &Vec<u8>, api_token: &Vec<u8>) -> (r: Vec<u8>)
    ensures
        r@ == eligibility_query_spec(address_text_spec(address@), api_token@),
{
    let mut out: Vec<u8> = Vec::new();
    append_str_bytes(&mut out, "query { checkEligibility(address: \"");
    let text = address_text(address);
    append_bytes(&mut out, &text);
    append_str_bytes(&mut out, "\", apiToken: \"");
    append_bytes(&mut out, api_token);
    append_str_bytes(&mut out, "\") }");
    assert(out@ =~= eligibility_query_spec(address_text_spec(address@), api_token@));
    out
}

/// The count query posed to the external data service: does the claimant's
/// wallet appear with a positive balance?
pub open spec fn sql_query_spec(address: Seq<u8>) -> Seq<u8> {
    ("SELECT COUNT(*) FROM (SELECT * FROM ETHEREUM.NATIVE_WALLETS WHERE WALLET_ADDRESS = '0x").spec_bytes()
        + hex_of(address) + ("' AND BALANCE > 0 LIMIT 1);").spec_bytes()
}

/// Builds the count query for one claimant address.
pub fn sql_query(address: &Vec<u8>) -> (r: Vec<u8>)
    ensures
        r@ == sql_query_spec(address@),
{
    let mut out: Vec<u8> = Vec::new();
    append_str_bytes(
        &mut out,
        "SELECT COUNT(*) FROM (SELECT * FROM ETHEREUM.NATIVE_WALLETS WHERE WALLET_ADDRESS = '0x",
    );
    let digits = hex_encode(address);
    append_bytes(&mut out, &digits);
    append_str_bytes(&mut out, "' AND BALANCE > 0 LIMIT 1);");
    assert(out@ =~= sql_query_spec(address@));
    out
}

/// The POST body wrapping a count query.
pub open spec fn request_body_spec(sql: Seq<u8>) -> Seq<u8> {
    ("{ \"sqlText\": \"").spec_bytes() + sql + ("\" }").spec_bytes()
}

/// Wraps a count query into the POST body the service expects.
pub fn request_body(sql: &Vec<u8>) -> (r: Vec<u8>)
    ensures
        r@ == request_body_spec(sql@),
{
    let mut out: Vec<u8> = Vec::new();
    append_str_bytes(&mut out, "{ \"sqlText\": \"");
    append_bytes(&mut out, sql);
    append_str_bytes(&mut out, "\" }");
    assert(out@ =~= request_body_spec(sql@));
    out
}

/// The authorization header value carrying the opaque bearer credential.
pub open spec fn bearer_header_spec(api_token: Seq<u8>) -> Seq<u8> {
    ("Bearer ").spec_bytes() + api_token
}

/// Builds the authorization header value for a credential.
pub fn bearer_header(api_token: &Vec<u8>) -> (r: Vec<u8>)
    ensures
        r@ == bearer_header_spec(api_token@),
{
    let mut out: Vec<u8> = Vec::new();
    append_str_bytes(&mut out, "Bearer ");
    append_bytes(&mut out, api_token);
    out
}

/// An ASCII decimal digit.
pub open spec fn is_digit(b: u8) -> bool {
    48 <= b <= 57
}

/// The number read from a string of ASCII digits.
pub open spec fn dec_value(digits: Seq<u8>) -> nat
    decreases digits.len(),
{
    if digits.len() == 0 {
        0
    } else {
        (dec_value(digits.drop_last()) * 10 + (digits.last() - 48)) as nat
    }
}

/// A canonical decimal rendering of `n`: nonempty, all digits, and no
/// leading zero unless the value is zero itself.
pub open spec fn canonical_decimal(digits: Seq<u8>, n: nat) -> bool {
    &&& digits.len() > 0
    &&& forall|i: int| 0 <= i < digits.len() ==> is_digit(#[trigger] digits[i])
    &&& digits[0] == 48 ==> digits.len() == 1
    &&& dec_value(digits) == n
}

/// The ASCII bytes a success body puts before the count: `[{ "COUNT(1)": `.
pub open spec fn count_prefix_spec() -> Seq<u8> {
    seq![91u8, 123, 32, 34, 67, 79, 85, 78, 84, 40, 49, 41, 34, 58, 32]
}

/// The ASCII bytes a success body puts after the count: ` }]`.
pub open spec fn count_suffix_spec() -> Seq<u8> {
    seq![32u8, 125, 93]
}

/// The whole success body carrying a rendered count.
pub open spec fn count_body_spec(digits: Seq<u8>) -> Seq<u8> {
    count_prefix_spec() + digits + count_suffix_spec()
}

/// The count a response body carries: `Some(n)` exactly when the body is a
/// success body around a canonical rendering of `n`, and `None` for every
/// other shape.
pub open spec fn count_of_body(body: Seq<u8>) -> Option<u64> {
    if exists|digits: Seq<u8>, n: u64|
        canonical_decimal(digits, n as nat) && body == count_body_spec(digits) {
        let witness = choose|digits: Seq<u8>, n: u64|
            canonical_decimal(digits, n as nat) && body == count_body_spec(digits);
        Some(witness.1)
    } else {
        None
    }
}

/// A success body pins its digits: they are the bytes between the fixed
/// prefix and suffix.
proof fn lemma_body_digits(body: Seq<u8>, digits: Seq<u8>)
    requires
        digits.len() > 0,
        body == count_body_spec(digits),
    ensures
        body.len() == 18 + digits.len(),
        digits == body.subrange(15, body.len() - 3),
{
    assert(digits =~= body.subrange(15, body.len() - 3));
}

/// Reading a prefix of a digit string never exceeds the whole string's value.
proof fn lemma_dec_value_prefix(digits: Seq<u8>, m: int)
    requires
        0 <= m <= digits.len(),
        forall|i: int| 0 <= i < digits.len() ==> is_digit(#[trigger] digits[i]),
    ensures
        dec_value(digits.subrange(0, m)) <= dec_value(digits),
    decreases digits.len(),
{
    if m < digits.len() {
        let shorter = digits.drop_last();
        assert(digits.subrange(0, m) =~= shorter.subrange(0, m));
        lemma_dec_value_prefix(shorter, m);
        assert(dec_value(digits) == dec_value(shorter) * 10 + (digits.last() - 48));
        assert(dec_value(shorter) <= dec_value(shorter) * 10) by (nonlinear_arith);
    } else {
        assert(digits.subrange(0, m) =~= digits);
    }
}

/// Builds the fixed prefix of a success body.
fn count_prefix() -> (r: Vec<u8>)
    ensures
        r@ == count_prefix_spec(),
{
    let mut out: Vec<u8> = Vec::new();
    out.push(91);
    out.push(123);
    out.push(32);
    out.push(34);
    out.push(67);
    out.push(79);
    out.push(85);
    out.push(78);
    out.push(84);
    out.push(40);
    out.push(49);
    out.push(41);
    out.push(34);
    out.push(58);
    out.push(32);
    assert(out@ =~= count_prefix_spec());
    out
}

/// Builds the fixed suffix of a success body.
fn count_suffix() -> (r: Vec<u8>)
    ensures
        r@ == count_suffix_spec(),
{
    let mut out: Vec<u8> = Vec::new();
    out.push(32);
    out.push(125);
    out.push(93);
    assert(out@ =~= count_suffix_spec());
    out
}

/// Parses a response body into the count it carries, returning `None` for
/// every body that is not a success body around one canonical decimal count.
pub fn parse_count_response(body: &Vec<u8>) -> (r: Option<u64>)
    ensures
        r == count_of_body(body@),
{
    let prefix = count_prefix();
    let suffix = count_suffix();
    if body.len() < 19 {
        proof {
            if count_of_body(body@) is Some {
                let witness = choose|digits: Seq<u8>, n: u64|
                    canonical_decimal(digits, n as nat) && body@ == count_body_spec(digits);
                lemma_body_digits(body@, witness.0);
            }
        }
        return None;
    }
    let digits_len = body.len() - 18;
    let mut i: usize = 0;
    while i < 15
        invariant
            i <= 15,
            body@.len() >= 19,
            prefix@ == count_prefix_spec(),
            forall|j: int| 0 <= j < i ==> body@[j] == count_prefix_spec()[j],
        decreases 15 - i,
    {
        if body[i] != prefix[i] {
            proof {
                if count_of_body(body@) is Some {
                    let witness = choose|digits: Seq<u8>, n: u64|
                        canonical_decimal(digits, n as nat) && body@ == count_body_spec(digits);
                    assert(body@[i as int] == count_prefix_spec()[i as int]);
                }
            }
            return None;
        }
        i = i + 1;
    }
    let mut j: usize = 0;
    while j < 3
        invariant
            j <= 3,
            body@.len() >= 19,
            suffix@ == count_suffix_spec(),
            forall|k: int|
                0 <= k < j ==> body@[body@.len() - 3 + k] == count_suffix_spec()[k],
        decreases 3 - j,
    {
        if body[body.len() - 3 + j] != suffix[j] {
            proof {
                if count_of_body(body@) is Some {
                    let witness = choose|digits: Seq<u8>, n: u64|
                        canonical_decimal(digits, n as nat) && body@ == count_body_spec(digits);
                    lemma_body_digits(body@, witness.0);
                    assert(body@[body@.len() - 3 + j] == count_suffix_spec()[j as int]);
                }
            }
            return None;
        }
        j = j + 1;
    }
    let ghost region = body@.subrange(15, body@.len() - 3);
    if digits_len > 1 && body[15] == 48 {
        proof {
            if count_of_body(body@) is Some {
                let witness = choose|digits: Seq<u8>, n: u64|
                    canonical_decimal(digits, n as nat) && body@ == count_body_spec(digits);
                lemma_body_digits(body@, witness.0);
                assert(witness.0[0] == 48);
            }
        }
        return None;
    }
    let mut value: u64 = 0;
    let mut k: usize = 0;
    while k < digits_len
        invariant
            k <= digits_len,
            digits_len == body@.len() - 18,
            body@.len() >= 19,
            body@.len() <= usize::MAX,
            region == body@.subrange(15, body@.len() - 3),
            region.len() == digits_len,
            forall|m: int| 0 <= m < k ==> is_digit(#[trigger] region[m]),
            value == dec_value(region.subrange(0, k as int)),
        decreases digits_len - k,
    {
        let b = body[15 + k];
        assert(region[k as int] == b);
        if b < 48 || b > 57 {
            proof {
                if count_of_body(body@) is Some {
                    let witness = choose|digits: Seq<u8>, n: u64|
                        canonical_decimal(digits, n as nat) && body@ == count_body_spec(digits);
                    lemma_body_digits(body@, witness.0);
                    assert(is_digit(witness.0[k as int]));
                }
            }
            return None;
        }
        let d = (b - 48) as u64;
        if value > (u64::MAX - d) / 10 {
            proof {
                assert(region.subrange(0, k as int) =~= region.subrange(0, k + 1 as int).drop_last());
                assert(region.subrange(0, k + 1 as int).last() == b);
                assert(dec_value(region.subrange(0, k + 1 as int)) == value * 10 + d);
                assert(value * 10 + d > u64::MAX) by (nonlinear_arith)
                    requires
                        value > (u64::MAX - d) / 10,
                        d <= 9,
                ;
                if count_of_body(body@) is Some {
                    let witness = choose|digits: Seq<u8>, n: u64|
                        canonical_decimal(digits, n as nat) && body@ == count_body_spec(digits);
                    lemma_body_digits(body@, witness.0);
                    assert(witness.0 == region);
                    lemma_dec_value_prefix(region, k + 1);
                    assert(dec_value(region) >= dec_value(region.subrange(0, k + 1 as int)));
                    assert(witness.1 as nat == dec_value(region));
                }
            }
            return None;
        }
        proof {
            assert(region.subrange(0, k as int) =~= region.subrange(0, k + 1 as int).drop_last());
            assert(region.subrange(0, k + 1 as int).last() == b);
            assert(value * 10 + d <= u64::MAX) by (nonlinear_arith)
                requires
                    value <= (u64::MAX - d) / 10,
                    d <= 9,
            ;
        }
        value = value * 10 + d;
        k = k + 1;
    }
    proof {
        assert(region.subrange(0, digits_len as int) =~= region);
        assert(canonical_decimal(region, value as nat));
        assert(body@ =~= count_body_spec(region));
        let witness = choose|digits: Seq<u8>, n: u64|
            canonical_decimal(digits, n as nat) && body@ == count_body_spec(digits);
        lemma_body_digits(body@, witness.0);
        assert(witness.0 == region);
    }
    Some(value)
}

/// Interprets one whole oracle exchange: a failed request, of whatever kind,
/// is an oracle failure; a success body carrying a count means eligible
/// exactly when the count is positive; any other body is a failure too.
pub fn interpret_oracle_response(success: bool, body: &Vec<u8>) -> (r: OracleVerdict)
    ensures
        !success ==> r == OracleVerdict::Failed,
        success ==> r == (match count_of_body(body@) {
            Some(n) => if n > 0 {
                OracleVerdict::Eligible
            } else {
                OracleVerdict::Ineligible
            },
            None => OracleVerdict::Failed,
        }),
{
    if !success {
        return OracleVerdict::Failed;
    }
    match parse_count_response(body) {
        Some(n) => if n > 0 {
            OracleVerdict::Eligible
        } else {
            OracleVerdict::Ineligible
        },
        None => OracleVerdict::Failed,
    }
}

} // verus!
