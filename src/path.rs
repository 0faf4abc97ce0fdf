use vstd::prelude::*;
use vstd::utf8::*;

use crate::glob::visible;
use crate::text::{lemma_ascii_utf8, string_from_utf8};

verus! {

/// The byte `/`.
pub const SLASH: u8 = 47;

/// Bytes that a path keeps only percent-encoded: non-ASCII bytes, control
/// characters, space, `"`, `<` and `>`.
pub open spec fn needs_encoding(b: u8) -> bool {
    b >= 128 || b < 32 || b == 127 || b == 32 || b == 34 || b == 60 || b == 62
}

/// The upper-case hexadecimal digit for `d < 16`.
pub open spec fn hex_digit(d: u8) -> u8 {
    if d < 10 {
        (48 + d) as u8
    } else {
        (55 + d) as u8
    }
}

/// `%` followed by the two upper-case hexadecimal digits of `b`.
pub open spec fn percent_triplet(b: u8) -> Seq<u8> {
    seq![37u8, hex_digit(b / 16), hex_digit(b % 16)]
}

/// `s` with every byte that needs it replaced by its percent triplet.
pub open spec fn percent_encoded(s: Seq<u8>) -> Seq<u8>
    decreases s.len(),
{
    if s.len() == 0 {
        Seq::empty()
    } else {
        let last = s.last();
        percent_encoded(s.drop_last()) + if needs_encoding(last) {
            percent_triplet(last)
        } else {
            seq![last]
        }
    }
}

/// The form in which paths and patterns are compared: percent-encoded, and
/// starting with `/`.
pub open spec fn normalized(s: Seq<u8>) -> Seq<u8> {
    let e = percent_encoded(s);
    if e.len() > 0 && e[0] == SLASH {
        e
    } else {
        seq![SLASH] + e
    }
}

/// Relies on `percent_encoding::percent_encode_byte`: the three characters
/// `%XY`, where `XY` is the byte in upper-case hexadecimal.
#[verifier::external_body]
fn percent_byte(b: u8) -> (r: Vec<u8>)
    ensures
        r@ == percent_triplet(b),
{
    percent_encoding::percent_encode_byte(b).as_bytes().to_vec()
}

proof fn lemma_hex_visible(b: u8)
    ensures
        visible(percent_triplet(b)),
{
    assert(b / 16 < 16);
    assert(b % 16 < 16);
}

/// Percent-encodes `bytes` and makes sure the result starts with `/`.
pub fn normalize_bytes(bytes: &[u8]) -> (r: Vec<u8>)
    ensures
        r@ == normalized(bytes@),
        visible(r@),
{
    let mut out: Vec<u8> = Vec::new();
    let mut i: usize = 0;
    while i < bytes.len()
        invariant
            i <= bytes@.len(),
            out@ == percent_encoded(bytes@.subrange(0, i as int)),
            visible(out@),
        decreases bytes@.len() - i,
    {
        let c = bytes[i];
        let ghost before = bytes@.subrange(0, i as int);
        let ghost after = bytes@.subrange(0, i + 1);
        assert(after.drop_last() =~= before);
        let ghost prev = out@;
        if c >= 128 || c < 32 || c == 127 || c == 32 || c == 34 || c == 60 || c == 62 {
            let t = percent_byte(c);
            proof {
                lemma_hex_visible(c);
            }
            let mut j: usize = 0;
            while j < t.len()
                invariant
                    j <= t@.len(),
                    t@ == percent_triplet(c),
                    out@ == prev + t@.subrange(0, j as int),
                    visible(out@),
                decreases t@.len() - j,
            {
                out.push(t[j]);
                assert(out@ =~= prev + t@.subrange(0, j + 1));
                j = j + 1;
            }
            assert(t@.subrange(0, t@.len() as int) =~= t@);
        } else {
            out.push(c);
        }
        assert(out@ =~= percent_encoded(after));
        i = i + 1;
    }
    assert(bytes@.subrange(0, bytes@.len() as int) =~= bytes@);
    if out.len() > 0 && out[0] == SLASH {
        out
    } else {
        let mut r: Vec<u8> = Vec::new();
        r.push(SLASH);
        let mut j: usize = 0;
        while j < out.len()
            invariant
                j <= out@.len(),
                r@ == seq![SLASH] + out@.subrange(0, j as int),
                visible(out@),
                visible(r@),
            decreases out@.len() - j,
        {
            r.push(out[j]);
            assert(r@ =~= seq![SLASH] + out@.subrange(0, j + 1));
            j = j + 1;
        }
        assert(out@.subrange(0, out@.len() as int) =~= out@);
        r
    }
}

/// Returns the path percent-encoded (control characters, space, `"`, `<`,
/// `>` and every non-ASCII byte) and prefixed with `/` where it lacks one.
pub fn normalize_path(path: &str) -> (r: String)
    ensures
        encode_utf8(r@) == normalized(encode_utf8(path@)),
{
    let b = normalize_bytes(path.as_bytes());
    let ghost bs = b@;
    proof {
        lemma_ascii_utf8(bs);
    }
    match string_from_utf8(b) {
        Ok(s) => {
            proof {
                vstd::utf8::decode_utf8_encode_utf8(bs);
            }
            s
        },
        Err(_) => {
            assert(false);
            String::new()
        },
    }
}

} // verus!
