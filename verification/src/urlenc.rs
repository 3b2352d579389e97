//! Percent-encoding of query values.
use vstd::prelude::*;
use vstd::string::StringSliceAdditionalSpecFns;

verus! {

/// Upper-case hexadecimal digit.
pub open spec fn hex_upper(n: u8) -> char {
    if n < 10 {
        ((n + 48) as u8) as char
    } else {
        ((n + 55) as u8) as char
    }
}

/// Which punctuation survives unescaped besides ASCII letters and digits.
#[derive(Clone, Copy, PartialEq, Eq, Structural, Debug)]
pub enum Unreserved {
    /// `-`, `_`, `.` and `~` (the geocoding request encoder).
    Tilde,
    /// `*`, `-`, `.` and `_` (`application/x-www-form-urlencoded`).
    Star,
}

pub open spec fn kept(kind: Unreserved, b: u8) -> bool {
    ||| (65 <= b <= 90)
    ||| (97 <= b <= 122)
    ||| (48 <= b <= 57)
    ||| b == 45
    ||| b == 46
    ||| b == 95
    ||| (kind == Unreserved::Tilde && b == 126)
    ||| (kind == Unreserved::Star && b == 42)
}

/// One byte encoded: kept bytes as themselves, a space as `+`, any other
/// byte as `%` and two upper-case hex digits.
pub open spec fn escaped(kind: Unreserved, b: u8) -> Seq<char> {
    if kept(kind, b) {
        seq![b as char]
    } else if b == 32 {
        seq!['+']
    } else {
        seq!['%', hex_upper(b / 16), hex_upper(b % 16)]
    }
}

/// A byte string encoded byte by byte.
pub open spec fn url_encoded(kind: Unreserved, bytes: Seq<u8>) -> Seq<char>
    decreases bytes.len(),
{
    if bytes.len() == 0 {
        Seq::empty()
    } else {
        url_encoded(kind, bytes.drop_last()) + escaped(kind, bytes.last())
    }
}

fn hex_digit(n: u8) -> (c: char)
    requires
        n < 16,
    ensures
        c == hex_upper(n),
{
    if n < 10 {
        (n + 48) as char
    } else {
        (n + 55) as char
    }
}

fn is_kept(kind: Unreserved, b: u8) -> (r: bool)
    ensures
        r == kept(kind, b),
{
    (65 <= b && b <= 90) || (97 <= b && b <= 122) || (48 <= b && b <= 57) || b == 45 || b == 46
        || b == 95 || (kind == Unreserved::Tilde && b == 126) || (kind == Unreserved::Star && b
        == 42)
}

/// Encodes the UTF-8 bytes of `s` for a query string (the geocoding encoder:
/// letters, digits, `-_.~` kept, space as `+`, others `%XX`).
pub fn urlencoding_encode(s: &str) -> (r: String)
    ensures
        r@ == url_encoded(Unreserved::Tilde, s.spec_bytes()),
{
    let bytes = s.as_bytes();
    let mut out = String::new();
    let mut i: usize = 0;
    while i < bytes.len()
        invariant
            i <= bytes@.len(),
            bytes@ == s.spec_bytes(),
            out@ == url_encoded(Unreserved::Tilde, bytes@.take(i as int)),
        decreases bytes.len() - i,
    {
        let b = bytes[i];
        let ghost before = out@;
        if is_kept(Unreserved::Tilde, b) {
            out.push(b as char);
        } else if b == 32 {
            out.push('+');
        } else {
            out.push('%');
            out.push(hex_digit(b / 16));
            out.push(hex_digit(b % 16));
        }
        assert(bytes@.take(i + 1).drop_last() =~= bytes@.take(i as int));
        assert(out@ =~= before + escaped(Unreserved::Tilde, b));
        i = i + 1;
    }
    assert(bytes@.take(bytes@.len() as int) =~= bytes@);
    out
}

/// `url::form_urlencoded::byte_serialize` collected into a `String`: bytes in
/// `A-Za-z0-9*-._` unchanged, a space as `+`, every other byte as `%XX` with
/// upper-case hex digits (form_urlencoded 1.2, `byte_serialize` and
/// percent-encoding's `percent_encode_byte`).
#[verifier::external_body]
pub(crate) fn form_urlencode(s: &str) -> (r: String)
    ensures
        r@ == url_encoded(Unreserved::Star, s.spec_bytes()),
{
    url::form_urlencoded::byte_serialize(s.as_bytes()).collect()
}

/// Encoded text uses only ASCII characters.
pub proof fn lemma_url_encoded_ascii(kind: Unreserved, bytes: Seq<u8>)
    ensures
        forall|k: int|
            0 <= k < url_encoded(kind, bytes).len() ==> (#[trigger] url_encoded(kind, bytes)[k])
                as u32 <= 127,
    decreases bytes.len(),
{
    if bytes.len() > 0 {
        lemma_url_encoded_ascii(kind, bytes.drop_last());
        let a = url_encoded(kind, bytes.drop_last());
        let e = escaped(kind, bytes.last());
        assert forall|k: int| 0 <= k < (a + e).len() implies ((a + e)[k]) as u32 <= 127 by {
            if k >= a.len() {
                let b = bytes.last();
                assert(b / 16 < 16);
                assert(b % 16 < 16);
            }
        }
    }
}

/// The characters an encoded query value may hold: ASCII letters and digits,
/// `-`, `_`, `.`, the encoder's one extra mark (`~` or `*`), `+` for a space
/// and `%` for an escape.  Query delimiters such as `&`, `=` and `#` are not
/// among them.
pub open spec fn query_char(kind: Unreserved, c: char) -> bool {
    let u = c as u32;
    ||| 65 <= u <= 90
    ||| 97 <= u <= 122
    ||| 48 <= u <= 57
    ||| c == '-' || c == '_' || c == '.' || c == '+' || c == '%'
    ||| kind == Unreserved::Tilde && c == '~'
    ||| kind == Unreserved::Star && c == '*'
}

/// Value of a hexadecimal digit.
pub open spec fn hex_value(c: char) -> int {
    let u = c as u32;
    if 48 <= u <= 57 {
        u - 48
    } else if 65 <= u <= 70 {
        u - 55
    } else if 97 <= u <= 102 {
        u - 87
    } else {
        0
    }
}

/// Decoding a query value: `%XY` is the byte `XY`, `+` a space, any other
/// character its own code.
pub open spec fn url_decoded(s: Seq<char>) -> Seq<u8>
    decreases s.len(),
{
    if s.len() == 0 {
        Seq::empty()
    } else if s[0] == '%' && s.len() >= 3 {
        seq![(hex_value(s[1]) * 16 + hex_value(s[2])) as u8] + url_decoded(s.subrange(3, s.len() as int))
    } else if s[0] == '+' {
        seq![32u8] + url_decoded(s.subrange(1, s.len() as int))
    } else {
        seq![(s[0] as u32) as u8] + url_decoded(s.subrange(1, s.len() as int))
    }
}

proof fn lemma_encoded_front(kind: Unreserved, bytes: Seq<u8>)
    requires
        bytes.len() > 0,
    ensures
        url_encoded(kind, bytes) == escaped(kind, bytes[0]) + url_encoded(kind, bytes.drop_first()),
    decreases bytes.len(),
{
    if bytes.len() == 1 {
        assert(bytes.drop_last() =~= Seq::<u8>::empty());
        assert(bytes.drop_first() =~= Seq::<u8>::empty());
        assert(url_encoded(kind, bytes.drop_last()) =~= Seq::<char>::empty());
        assert(url_encoded(kind, bytes.drop_first()) =~= Seq::<char>::empty());
        assert(bytes.last() == bytes[0]);
        assert(url_encoded(kind, bytes) =~= escaped(kind, bytes[0]) + url_encoded(kind, bytes.drop_first()));
    } else {
        lemma_encoded_front(kind, bytes.drop_last());
        assert(bytes.drop_last().drop_first() =~= bytes.drop_first().drop_last());
        assert(bytes.drop_last()[0] == bytes[0]);
        assert(bytes.drop_first().last() == bytes.last());
        assert(url_encoded(kind, bytes) =~= escaped(kind, bytes[0]) + url_encoded(kind, bytes.drop_first()));
    }
}

proof fn lemma_hex_roundtrip(n: u8)
    requires
        n < 16,
    ensures
        hex_value(hex_upper(n)) == n,
{
}

proof fn lemma_decode_escaped(kind: Unreserved, b: u8, rest: Seq<char>)
    ensures
        url_decoded(escaped(kind, b) + rest) == seq![b] + url_decoded(rest),
{
    let x = escaped(kind, b) + rest;
    if kept(kind, b) {
        assert(x[0] == b as char);
        assert(x.subrange(1, x.len() as int) =~= rest);
    } else if b == 32 {
        assert(x[0] == '+');
        assert(x.subrange(1, x.len() as int) =~= rest);
    } else {
        lemma_hex_roundtrip(b / 16);
        lemma_hex_roundtrip(b % 16);
        assert(x[0] == '%' && x[1] == hex_upper(b / 16) && x[2] == hex_upper(b % 16));
        assert(x.subrange(3, x.len() as int) =~= rest);
        assert((b / 16) * 16 + b % 16 == b);
    }
}

/// Encoding loses nothing: decoding an encoded byte string gives the bytes
/// back, and the encoding uses only query-safe characters, so `&`, `=`, `#`
/// and `+` in the input always come out escaped.
pub proof fn lemma_url_encoding_roundtrip(kind: Unreserved, bytes: Seq<u8>)
    ensures
        url_decoded(url_encoded(kind, bytes)) == bytes,
        forall|k: int|
            0 <= k < url_encoded(kind, bytes).len() ==> query_char(kind, #[trigger] url_encoded(kind, bytes)[k]),
    decreases bytes.len(),
{
    if bytes.len() > 0 {
        lemma_encoded_front(kind, bytes);
        lemma_url_encoding_roundtrip(kind, bytes.drop_first());
        lemma_decode_escaped(kind, bytes[0], url_encoded(kind, bytes.drop_first()));
        assert(seq![bytes[0]] + bytes.drop_first() =~= bytes);
        let e = escaped(kind, bytes[0]);
        let r = url_encoded(kind, bytes.drop_first());
        let b = bytes[0];
        assert forall|k: int| 0 <= k < (e + r).len() implies query_char(kind, #[trigger] (e + r)[k]) by {
            if k >= e.len() {
                assert((e + r)[k] == r[k - e.len()]);
            } else if !kept(kind, b) && b != 32 && k > 0 {
                assert(b / 16 < 16);
                assert(b % 16 < 16);
            }
        }
    }
}

} // verus!
