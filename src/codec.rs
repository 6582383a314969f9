//! The values that cross a process boundary, and their canonical encodings:
//! scalars, G1 points and opening keys.
use vstd::prelude::*;
use crate::curve::{is_point, point_canonical, point_decode, scalar_modulus, scalar_reduce, Curve};
use crate::hex_text::{
    be_value, hex_bytes, hex_decode, hex_encode, hex_text_of, is_hex_text,
    lemma_be_value_injective, lemma_hex_digit_round_trip, lemma_hex_round_trip,
};

verus! {

/// Why an operation of the library failed.
#[derive(PartialEq, Eq, Structural, Clone, Copy, Debug)]
pub enum AggregatorError {
    /// Bytes that are not the canonical encoding of the expected value.
    Deserialization,
    /// Opening-key text without a required field, or with a field that is not hexadecimal.
    Format,
    /// An aggregation over no element.
    EmptyInput,
    /// An update under a commitment basis other than the aggregate's.
    BasisMismatch,
}

/// An element of the scalar field: its 32 big-endian bytes.
#[derive(Clone, Debug)]
pub struct Scalar {
    pub bytes: Vec<u8>,
}

impl Scalar {
    pub open spec fn value(&self) -> nat {
        be_value(self.bytes@)
    }

    /// Canonical on the curve: 32 bytes, below the order of the scalar field.
    pub open spec fn wf(&self, c: Curve) -> bool {
        self.bytes@.len() == 32 && self.value() < scalar_modulus(c)
    }
}

/// A point of G1 held in its compressed canonical encoding.
#[derive(Clone, Debug)]
pub struct GroupElement {
    pub bytes: Vec<u8>,
}

impl GroupElement {
    pub open spec fn wf(&self, c: Curve) -> bool {
        is_point(c, self.bytes@)
    }
}

/// The pair `(m, v)` that opens a Pedersen commitment: the committed value and
/// the blinding scalar.
#[derive(Clone, Debug)]
pub struct OpeningKey {
    pub m: Scalar,
    pub v: Scalar,
}

impl OpeningKey {
    pub open spec fn wf(&self, c: Curve) -> bool {
        self.m.wf(c) && self.v.wf(c)
    }
}

/// Bytes that are the canonical encoding of a scalar.
pub open spec fn is_scalar_encoding(c: Curve, b: Seq<u8>) -> bool {
    b.len() == 32 && be_value(b) < scalar_modulus(c)
}

/// Canonical bytes that denote one number are the same bytes.
pub proof fn lemma_scalar_bytes_determined(c: Curve, a: Scalar, b: Scalar)
    requires
        a.wf(c),
        b.wf(c),
        a.value() == b.value(),
    ensures
        a.bytes@ == b.bytes@,
{
    lemma_be_value_injective(a.bytes@, b.bytes@);
}

/// The canonical byte encoding of a scalar.
pub fn encode_scalar(s: &Scalar) -> (r: Vec<u8>)
    ensures
        r@ == s.bytes@,
{
    s.bytes.clone()
}

/// Reads the canonical byte encoding of a scalar: exactly 32 big-endian bytes
/// below the order of the scalar field.
pub fn decode_scalar(c: Curve, b: &[u8]) -> (r: Result<Scalar, AggregatorError>)
    ensures
        r is Ok <==> is_scalar_encoding(c, b@),
        r matches Ok(s) ==> s.wf(c) && s.bytes@ == b@,
        r matches Err(e) ==> e == AggregatorError::Deserialization,
{
    if b.len() != 32 {
        return Err(AggregatorError::Deserialization);
    }
    let reduced = scalar_reduce(c, b);
    let mut i: usize = 0;
    while i < 32
        invariant
            i <= 32,
            b@.len() == 32,
            reduced@.len() == 32,
            be_value(reduced@) == be_value(b@) % scalar_modulus(c),
            forall|j: int| 0 <= j < i ==> reduced@[j] == b@[j],
        decreases 32 - i,
    {
        if reduced[i] != b[i] {
            proof {
                assert(reduced@[i as int] != b@[i as int]);
                if be_value(b@) < scalar_modulus(c) {
                    vstd::arithmetic::div_mod::lemma_small_mod(be_value(b@), scalar_modulus(c));
                    assert(be_value(reduced@) == be_value(b@));
                    lemma_be_value_injective(reduced@, b@);
                }
            }
            return Err(AggregatorError::Deserialization);
        }
        i = i + 1;
    }
    assert(reduced@ =~= b@);
    proof {
        vstd::arithmetic::div_mod::lemma_mod_bound(be_value(b@) as int, scalar_modulus(c) as int);
    }
    Ok(Scalar { bytes: reduced })
}

/// The canonical byte encoding of a G1 point.
pub fn encode_group_element(p: &GroupElement) -> (r: Vec<u8>)
    ensures
        r@ == p.bytes@,
{
    p.bytes.clone()
}

/// Reads the canonical compressed encoding of a G1 point; bytes that are not
/// exactly that encoding (off the curve, outside the group, of another length,
/// not canonical) are refused.
pub fn decode_group_element(c: Curve, b: &[u8]) -> (r: Result<GroupElement, AggregatorError>)
    ensures
        r is Ok <==> is_point(c, b@),
        r matches Ok(p) ==> p.wf(c) && p.bytes@ == b@,
        r matches Err(e) ==> e == AggregatorError::Deserialization,
{
    match point_decode(c, b) {
        None => Err(AggregatorError::Deserialization),
        Some(p) => {
            if p.len() != b.len() {
                assert(p@ != b@);
                return Err(AggregatorError::Deserialization);
            }
            let mut i: usize = 0;
            while i < p.len()
                invariant
                    i <= p@.len(),
                    p@.len() == b@.len(),
                    point_canonical(c, b@) == Some(p@),
                    forall|j: int| 0 <= j < i ==> p@[j] == b@[j],
                decreases p@.len() - i,
            {
                if p[i] != b[i] {
                    assert(p@[i as int] != b@[i as int]);
                    return Err(AggregatorError::Deserialization);
                }
                i = i + 1;
            }
            assert(p@ =~= b@);
            Ok(GroupElement { bytes: p })
        },
    }
}

/// Text with every leading `0x` taken off, as often as it repeats.
pub open spec fn strip_hex_prefix(s: Seq<char>) -> Seq<char>
    decreases s.len(),
{
    if s.len() >= 2 && s[0] == '0' && s[1] == 'x' {
        strip_hex_prefix(s.subrange(2, s.len() as int))
    } else {
        s
    }
}

/// Text left-padded with `0` up to 64 characters; longer text is kept whole.
pub open spec fn pad_to_scalar_width(s: Seq<char>) -> Seq<char> {
    if s.len() < 64 {
        Seq::new((64 - s.len()) as nat, |i: int| '0') + s
    } else {
        s
    }
}

/// The hexadecimal digits that a scalar's text stands for, once its prefix
/// is taken off and it is padded to the width of a scalar.
pub open spec fn scalar_digits(s: Seq<char>) -> Seq<char> {
    pad_to_scalar_width(strip_hex_prefix(s))
}

/// The scalar that hexadecimal text stands for, if it is hexadecimal.
pub open spec fn scalar_of_text(c: Curve, s: Seq<char>) -> Option<nat> {
    if is_hex_text(scalar_digits(s)) {
        Some(be_value(hex_bytes(scalar_digits(s))) % scalar_modulus(c))
    } else {
        None
    }
}

/// The lowercase hexadecimal text of a scalar: 64 digits, big-endian, no prefix.
pub fn scalar_to_hex_string(s: &Scalar) -> (r: String)
    ensures
        r@ == hex_text_of(s.bytes@),
{
    hex_encode(s.bytes.as_slice())
}

pub(crate) fn trim_hex_prefix(s: &str) -> (r: &str)
    ensures
        r@ == strip_hex_prefix(s@),
{
    let mut t = s;
    while t.unicode_len() >= 2 && t.get_char(0) == '0' && t.get_char(1) == 'x'
        invariant
            strip_hex_prefix(t@) == strip_hex_prefix(s@),
        decreases t@.len(),
    {
        let n = t.unicode_len();
        t = t.substring_char(2, n);
    }
    t
}

fn pad_hex(t: &str) -> (r: String)
    ensures
        r@ == pad_to_scalar_width(t@),
{
    let n = t.unicode_len();
    let mut out = String::new();
    let mut k: usize = n;
    while k < 64
        invariant
            n == t@.len(),
            n <= k,
            k <= 64 || k == n,
            out@ =~= Seq::new((k - n) as nat, |i: int| '0'),
        decreases 64 - k,
    {
        proof {
            reveal_strlit("0");
        }
        out.append("0");
        k = k + 1;
        assert(out@ =~= Seq::new((k - n) as nat, |i: int| '0'));
    }
    out.append(t);
    assert(out@ =~= pad_to_scalar_width(t@));
    out
}

/// Reads a scalar from hexadecimal text: every leading `0x` is dropped, text
/// shorter than 64 digits is left-padded with zeros, and the big-endian number
/// is reduced modulo the order of the scalar field, so longer text is taken too.
/// Text that is then not an even number of hexadecimal digits is refused.
pub fn hex_string_to_scalar_field(c: Curve, s: &str) -> (r: Result<Scalar, AggregatorError>)
    ensures
        r is Ok <==> scalar_of_text(c, s@) is Some,
        r matches Ok(x) ==> x.wf(c) && scalar_of_text(c, s@) == Some(x.value()),
        r matches Err(e) ==> e == AggregatorError::Format,
{
    let trimmed = trim_hex_prefix(s);
    let padded = pad_hex(trimmed);
    match hex_decode(padded.as_str()) {
        None => Err(AggregatorError::Format),
        Some(bytes) => {
            let reduced = scalar_reduce(c, bytes.as_slice());
            proof {
                vstd::arithmetic::div_mod::lemma_mod_bound(
                    be_value(bytes@) as int,
                    scalar_modulus(c) as int,
                );
            }
            Ok(Scalar { bytes: reduced })
        },
    }
}

/// The string field `key` of the JSON object that `text` holds, if it has one.
pub uninterp spec fn json_str_field(text: Seq<char>, key: Seq<char>) -> Option<Seq<char>>;

/// Relies on `serde_json::from_str` into a `serde_json::Value`, then
/// `Value::get` and `Value::as_str`: the string under `key`, if the text is a
/// JSON object that has one.
#[verifier::external_body]
fn json_string_field(text: &str, key: &str) -> (r: Option<String>)
    ensures
        r is None ==> json_str_field(text@, key@) is None,
        r matches Some(f) ==> json_str_field(text@, key@) == Some(f@),
{
    let value: serde_json::Value = serde_json::from_str(text).ok()?;
    Some(value.get(key)?.as_str()?.to_string())
}

/// The JSON text of an opening key: `{"m":"<m>","v":"<v>"}`.
pub open spec fn opening_key_text(m: Seq<char>, v: Seq<char>) -> Seq<char> {
    seq!['{', '"', 'm', '"', ':', '"'] + m + seq!['"', ',', '"', 'v', '"', ':', '"'] + v + seq![
        '"',
        '}',
    ]
}

/// The values `(m, v)` that opening-key JSON text stands for, if both fields
/// are there and hexadecimal.
pub open spec fn opening_key_of_text(c: Curve, text: Seq<char>) -> Option<(nat, nat)> {
    match (json_str_field(text, seq!['m']), json_str_field(text, seq!['v'])) {
        (Some(m), Some(v)) => match (scalar_of_text(c, m), scalar_of_text(c, v)) {
            (Some(x), Some(y)) => Some((x, y)),
            _ => None,
        },
        _ => None,
    }
}

/// The JSON text of an opening key, each field its 64 lowercase hex digits.
pub fn encode_opening_key(k: &OpeningKey) -> (r: String)
    ensures
        r@ == opening_key_text(hex_text_of(k.m.bytes@), hex_text_of(k.v.bytes@)),
{
    let m = scalar_to_hex_string(&k.m);
    let v = scalar_to_hex_string(&k.v);
    proof {
        reveal_strlit("{\"m\":\"");
        reveal_strlit("\",\"v\":\"");
        reveal_strlit("\"}");
    }
    let mut out = String::from_str("{\"m\":\"");
    out.append(m.as_str());
    out.append("\",\"v\":\"");
    out.append(v.as_str());
    out.append("\"}");
    assert(out@ =~= opening_key_text(m@, v@));
    out
}

/// Reads an opening key from its JSON text; a missing field, or one that is
/// not hexadecimal, is a format error.
pub fn decode_opening_key(c: Curve, text: &str) -> (r: Result<OpeningKey, AggregatorError>)
    ensures
        r is Ok <==> opening_key_of_text(c, text@) is Some,
        r matches Ok(k) ==> k.wf(c) && opening_key_of_text(c, text@) == Some(
            (k.m.value(), k.v.value()),
        ),
        r matches Err(e) ==> e == AggregatorError::Format,
{
    proof {
        reveal_strlit("m");
        reveal_strlit("v");
        assert("m"@ =~= seq!['m']);
        assert("v"@ =~= seq!['v']);
    }
    let m_text = match json_string_field(text, "m") {
        Some(f) => f,
        None => return Err(AggregatorError::Format),
    };
    let v_text = match json_string_field(text, "v") {
        Some(f) => f,
        None => return Err(AggregatorError::Format),
    };
    let m = hex_string_to_scalar_field(c, m_text.as_str())?;
    let v = hex_string_to_scalar_field(c, v_text.as_str())?;
    Ok(OpeningKey { m, v })
}

/// Encoding a scalar to bytes and decoding it gives the scalar back: the
/// encoding is accepted, and decoding keeps the bytes.
pub proof fn scalar_byte_round_trip(c: Curve, s: Scalar)
    requires
        s.wf(c),
    ensures
        is_scalar_encoding(c, s.bytes@),
{
}

/// Encoding a G1 point and decoding it gives the point back.
pub proof fn group_element_round_trip(c: Curve, p: GroupElement)
    requires
        p.wf(c),
    ensures
        is_point(c, p.bytes@),
{
}

/// Hexadecimal text of a scalar reads back as the same scalar: the text stands
/// for the scalar's value, and a canonical scalar of that value has its bytes.
pub proof fn scalar_hex_round_trip(c: Curve, s: Scalar)
    requires
        s.wf(c),
    ensures
        scalar_of_text(c, hex_text_of(s.bytes@)) == Some(s.value()),
        forall|y: Scalar| #[trigger] y.wf(c) && y.value() == s.value() ==> y.bytes@ == s.bytes@,
{
    let t = hex_text_of(s.bytes@);
    lemma_hex_round_trip(s.bytes@);
    lemma_hex_digit_round_trip(s.bytes@[0] as nat % 16);
    assert(t[1] != 'x');
    assert(strip_hex_prefix(t) == t);
    assert(pad_to_scalar_width(t) == t);
    vstd::arithmetic::div_mod::lemma_small_mod(s.value(), scalar_modulus(c));
    assert forall|y: Scalar| #[trigger] y.wf(c) && y.value() == s.value() implies y.bytes@
        == s.bytes@ by {
        lemma_scalar_bytes_determined(c, y, s);
    }
}

} // verus!
