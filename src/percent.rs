//! Percent-encoding of names for use in a URL path or fragment.
use vstd::prelude::*;
use vstd::utf8::encode_utf8;

verus! {

/// The upper-case hexadecimal digit of value `d` (0 to 15).
pub open spec fn hex_digit(d: int) -> char {
    seq!['0', '1', '2', '3', '4', '5', '6', '7', '8', '9', 'A', 'B', 'C', 'D', 'E', 'F'][d]
}

/// `%` and the two hexadecimal digits of `b`.
pub open spec fn percent_byte(b: u8) -> Seq<char> {
    seq!['%', hex_digit(b as int / 16), hex_digit(b as int % 16)]
}

/// The ASCII characters that the path percent-encode set encodes: controls,
/// space, `"`, `<`, `>`, `` ` ``, `#`, `?`, `{` and `}`.
pub open spec fn in_path_set(c: char) -> bool {
    let v = c as u32;
    v < 0x20 || v == 0x7f || c == ' ' || c == '"' || c == '<' || c == '>' || c == '`' || c == '#'
        || c == '?' || c == '{' || c == '}'
}

/// Each byte percent-encoded.
pub open spec fn encode_bytes(bs: Seq<u8>) -> Seq<char>
    decreases bs.len(),
{
    if bs.len() == 0 {
        Seq::empty()
    } else {
        encode_bytes(bs.drop_last()) + percent_byte(bs.last())
    }
}

/// The encoding of one character: ASCII outside the set is kept, ASCII in the
/// set is percent-encoded, and every UTF-8 byte of any other character is.
pub open spec fn encode_char(c: char) -> Seq<char> {
    if (c as u32) < 0x80 {
        if in_path_set(c) {
            percent_byte((c as u32) as u8)
        } else {
            seq![c]
        }
    } else {
        encode_bytes(encode_utf8(seq![c]))
    }
}

/// The path percent-encoding of `s`, character by character.
pub open spec fn path_encoded(s: Seq<char>) -> Seq<char>
    decreases s.len(),
{
    if s.len() == 0 {
        Seq::empty()
    } else {
        path_encoded(s.drop_last()) + encode_char(s.last())
    }
}

/// Relies on `percent_encoding::percent_encode_byte`: `%` followed by the two
/// upper-case hexadecimal digits of the byte.
#[verifier::external_body]
fn percent_encode_byte(b: u8) -> (r: &'static str)
    ensures
        r@ == percent_byte(b),
{
    percent_encoding::percent_encode_byte(b)
}

/// Whether an ASCII character is in the path percent-encode set.
fn is_in_path_set(c: char) -> (r: bool)
    ensures
        r == in_path_set(c),
{
    let v = c as u32;
    v < 0x20 || v == 0x7f || c == ' ' || c == '"' || c == '<' || c == '>' || c == '`' || c == '#'
        || c == '?' || c == '{' || c == '}'
}

/// The path percent-encoding of `s`.
pub(crate) fn encode_path(s: &str) -> (r: String)
    ensures
        r@ == path_encoded(s@),
{
    let n = s.unicode_len();
    let mut out = String::new();
    let mut i: usize = 0;
    while i < n
        invariant
            i <= n,
            n == s@.len(),
            out@ == path_encoded(s@.subrange(0, i as int)),
        decreases n - i,
    {
        let c = s.get_char(i);
        let ghost before = out@;
        proof {
            assert(s@.subrange(0, i + 1).drop_last() =~= s@.subrange(0, i as int));
            assert(s@.subrange(0, i + 1).last() == c);
        }
        let v = c as u32;
        if v < 0x80 {
            if is_in_path_set(c) {
                out.append(percent_encode_byte(v as u8));
            } else {
                let one = s.substring_char(i, i + 1);
                assert(one@ =~= seq![c]);
                out.append(one);
            }
        } else {
            let one = s.substring_char(i, i + 1);
            assert(one@ =~= seq![c]);
            let bytes = one.as_bytes();
            let mut j: usize = 0;
            while j < bytes.len()
                invariant
                    j <= bytes@.len(),
                    bytes@ == encode_utf8(seq![c]),
                    out@ == before + encode_bytes(bytes@.subrange(0, j as int)),
                decreases bytes@.len() - j,
            {
                proof {
                    assert(bytes@.subrange(0, j + 1).drop_last() =~= bytes@.subrange(0, j as int));
                }
                out.append(percent_encode_byte(bytes[j]));
                j += 1;
            }
            assert(bytes@.subrange(0, j as int) =~= bytes@);
        }
        i += 1;
    }
    assert(s@.subrange(0, n as int) =~= s@);
    out
}

} // verus!
