//! What the library computes around the prover: the private value of a range
//! proof, the committed witnesses, and the opening key the prover hands back.
use vstd::prelude::*;
use crate::algebra::copy_scalar;
use crate::codec::{
    encode_opening_key, opening_key_text, strip_hex_prefix, AggregatorError, OpeningKey, Scalar,
};
use crate::curve::{scalar_modulus, scalar_reduce, Curve};
use crate::hex_text::{be_value, byte_power, lemma_byte_power_positive, hex_digit_value, hex_text_of, is_hex_digit};
use vstd::arithmetic::div_mod::{lemma_div_denominator, lemma_fundamental_div_mod, lemma_small_mod};

verus! {

/// The number that hexadecimal digits spell, most significant first.
pub open spec fn hex_number(s: Seq<char>) -> nat
    decreases s.len(),
{
    if s.len() == 0 {
        0
    } else {
        hex_number(s.drop_last()) * 16 + hex_digit_value(s.last())
    }
}

/// The digits of an unsigned numeral: one leading `+` is allowed.
pub open spec fn unsigned_digits(s: Seq<char>) -> Seq<char> {
    if s.len() > 0 && s[0] == '+' {
        s.subrange(1, s.len() as int)
    } else {
        s
    }
}

/// Text that reads as a hexadecimal `u64`: at least one digit, all hexadecimal,
/// with a value that fits in 64 bits.
pub open spec fn is_u64_hex(s: Seq<char>) -> bool {
    let d = unsigned_digits(s);
    d.len() > 0 && (forall|i: int| 0 <= i < d.len() ==> is_hex_digit(#[trigger] d[i])) && hex_number(d)
        <= u64::MAX
}

proof fn lemma_hex_number_grows(s: Seq<char>, j: int, k: int)
    requires
        0 <= j <= k <= s.len(),
    ensures
        hex_number(s.subrange(0, j)) <= hex_number(s.subrange(0, k)),
    decreases k - j,
{
    if j < k {
        lemma_hex_number_grows(s, j, k - 1);
        assert(s.subrange(0, k).drop_last() =~= s.subrange(0, k - 1));
    }
}

fn hex_digit(ch: char) -> (r: Option<u64>)
    ensures
        r is Some <==> is_hex_digit(ch),
        r matches Some(d) ==> d == hex_digit_value(ch) && d < 16,
{
    if '0' <= ch && ch <= '9' {
        Some((ch as u32 - '0' as u32) as u64)
    } else if 'a' <= ch && ch <= 'f' {
        Some((ch as u32 - 'a' as u32 + 10) as u64)
    } else if 'A' <= ch && ch <= 'F' {
        Some((ch as u32 - 'A' as u32 + 10) as u64)
    } else {
        None
    }
}

/// Reads a hexadecimal `u64`, with one leading `+` allowed.
fn parse_hex_u64(t: &str) -> (r: Option<u64>)
    ensures
        r is Some <==> is_u64_hex(t@),
        r matches Some(n) ==> n == hex_number(unsigned_digits(t@)),
{
    let len = t.unicode_len();
    let mut start: usize = 0;
    if len > 0 && t.get_char(0) == '+' {
        start = 1;
    }
    let ghost d = unsigned_digits(t@);
    assert(d =~= t@.subrange(start as int, len as int));
    if start == len {
        return None;
    }
    let mut acc: u64 = 0;
    let mut i: usize = start;
    while i < len
        invariant
            start <= i <= len,
            len == t@.len(),
            d =~= t@.subrange(start as int, len as int),
            d == unsigned_digits(t@),
            forall|j: int| 0 <= j < i - start ==> is_hex_digit(#[trigger] d[j]),
            acc == hex_number(d.subrange(0, i - start)),
        decreases len - i,
    {
        let ch = t.get_char(i);
        let ghost k = (i - start) as int;
        assert(d[k] == ch);
        let digit = match hex_digit(ch) {
            Some(x) => x,
            None => {
                assert(0 <= k < d.len());
                assert(!is_hex_digit(d[k]));
                assert(!is_u64_hex(t@));
                return None;
            },
        };
        assert(d.subrange(0, k + 1).drop_last() =~= d.subrange(0, k));
        if acc > (0xffff_ffff_ffff_ffffu64 - digit) / 16 {
            proof {
                assert(acc * 16 + digit > 0xffff_ffff_ffff_ffffu64) by (nonlinear_arith)
                    requires
                        acc > (0xffff_ffff_ffff_ffffu64 - digit) / 16,
                        digit < 16,
                ;
                lemma_hex_number_grows(d, k + 1, d.len() as int);
                assert(d.subrange(0, d.len() as int) =~= d);
            }
            return None;
        }
        assert(acc * 16 + digit <= 0xffff_ffff_ffff_ffffu64) by (nonlinear_arith)
            requires
                acc <= (0xffff_ffff_ffff_ffffu64 - digit) / 16,
                digit < 16,
        ;
        acc = acc * 16 + digit;
        i = i + 1;
    }
    assert(d.subrange(0, i - start) =~= d);
    Some(acc)
}

/// The eight big-endian bytes of a `u64`.
fn u64_be_bytes(n: u64) -> (r: Vec<u8>)
    ensures
        r@.len() == 8,
        be_value(r@) == n,
{
    let mut out: Vec<u8> = Vec::new();
    let mut d: u64 = 0x0100_0000_0000_0000;
    let mut i: usize = 0;
    proof {
        reveal_with_fuel(byte_power, 9);
        assert(byte_power(8) == 0x1_0000_0000_0000_0000);
        assert(byte_power(7) == 0x0100_0000_0000_0000);
        lemma_small_mod(n as nat, byte_power(8));
        assert(n as nat / byte_power(8) == 0);
    }
    while i < 8
        invariant
            i <= 8,
            out@.len() == i,
            i < 8 ==> d == byte_power((7 - i) as nat),
            d >= 1,
            be_value(out@) == n as nat / byte_power((8 - i) as nat),
        decreases 8 - i,
    {
        let b = ((n / d) % 256) as u8;
        proof {
            let p = byte_power((7 - i) as nat) as int;
            assert(byte_power((8 - i) as nat) == 256 * byte_power((7 - i) as nat));
            lemma_div_denominator(n as int, p, 256);
            lemma_fundamental_div_mod(n as int / p, 256);
            assert(out@.push(b).drop_last() =~= out@);
        }
        out.push(b);
        if i < 7 {
            proof {
                assert(byte_power((7 - i) as nat) == 256 * byte_power((6 - i) as nat));
                lemma_byte_power_positive((6 - i) as nat);
            }
            d = d / 256;
        }
        i = i + 1;
    }
    assert(byte_power(0) == 1);
    assert(n as nat / 1 == n);
    out
}

/// The private value of a range proof, read from hexadecimal text: every
/// leading `0x` is dropped, and what is left must read as a `u64` (one leading
/// `+` allowed); otherwise it is a format error.
pub fn make_range_inputs(c: Curve, input: &str) -> (r: Result<Scalar, AggregatorError>)
    ensures
        r is Ok <==> is_u64_hex(strip_hex_prefix(input@)),
        r matches Ok(x) ==> x.wf(c) && x.value() == hex_number(
            unsigned_digits(strip_hex_prefix(input@)),
        ),
        r matches Err(e) ==> e == AggregatorError::Format,
{
    let trimmed = crate::codec::trim_hex_prefix(input);
    match parse_hex_u64(trimmed) {
        None => Err(AggregatorError::Format),
        Some(n) => {
            let bytes = u64_be_bytes(n);
            let reduced = scalar_reduce(c, bytes.as_slice());
            proof {
                assert(n as nat <= u64::MAX);
                lemma_small_mod(n as nat, scalar_modulus(c));
            }
            Ok(Scalar { bytes: reduced })
        },
    }
}

/// The witnesses that a proof commits to: after the constant wire and the
/// public inputs, the first `commit_witness_count` wires, as far as they go.
pub fn committed_witnesses(wires: &Vec<Scalar>, public_input_count: usize, commit_witness_count: usize) -> (r:
    Vec<Scalar>)
    ensures
        r@.len() == if wires@.len() as int <= public_input_count + 1 {
            0
        } else if wires@.len() - public_input_count - 1 < commit_witness_count {
            wires@.len() - public_input_count - 1
        } else {
            commit_witness_count as int
        },
        forall|i: int|
            0 <= i < r@.len() ==> (#[trigger] r@[i]).bytes@ == wires@[public_input_count + 1
                + i].bytes@,
{
    let mut out: Vec<Scalar> = Vec::new();
    if wires.len() <= public_input_count || wires.len() - public_input_count <= 1 {
        return out;
    }
    let first = public_input_count + 1;
    let available = wires.len() - first;
    let count = if available < commit_witness_count {
        available
    } else {
        commit_witness_count
    };
    let mut i: usize = 0;
    while i < count
        invariant
            count <= available,
            available == wires@.len() - first,
            first + available == wires@.len(),
            wires@.len() <= usize::MAX,
            first == public_input_count + 1,
            i <= count,
            out@.len() == i,
            forall|j: int| 0 <= j < i ==> (#[trigger] out@[j]).bytes@ == wires@[first + j].bytes@,
        decreases count - i,
    {
        let at = first + i;
        out.push(copy_scalar(&wires[at]));
        i = i + 1;
    }
    out
}

/// The opening key that the prover hands back for a proof: the first
/// committed witness and the blinding scalar, as JSON text.
pub fn prover_opening_key(committed: &Vec<Scalar>, v: &Scalar) -> (r: String)
    requires
        committed@.len() > 0,
    ensures
        r@ == opening_key_text(hex_text_of(committed@[0].bytes@), hex_text_of(v.bytes@)),
{
    let key = OpeningKey { m: copy_scalar(&committed[0]), v: copy_scalar(v) };
    encode_opening_key(&key)
}

} // verus!
