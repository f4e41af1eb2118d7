//! The percent-encoder: AWS's RFC 3986-derived encoding of path and query
//! components, one `%XX` triplet per UTF-8 byte of every character outside
//! the unreserved set.

use vstd::prelude::*;
use vstd::string::StrSliceExecFns;
use vstd::utf8::{encode_scalar, is_scalar};
use crate::text::push_char;

verus! {

/// The characters that pass through unchanged: `A-Z a-z 0-9 - _ . ~`.
pub open spec fn is_unreserved(c: char) -> bool {
    let u = c as u32;
    (97 <= u && u <= 122) || (65 <= u && u <= 90) || (48 <= u && u <= 57) || u == 45 || u == 46
        || u == 95 || u == 126
}

/// The uppercase hexadecimal digit for `n < 16`.
pub open spec fn upper_hex_digit(n: u8) -> char {
    if n < 10 {
        ((48 + n) as char)
    } else {
        ((55 + n) as char)
    }
}

/// The `%XX` triplet of one byte, uppercase.
pub open spec fn percent_triplet(b: u8) -> Seq<char> {
    seq!['%', upper_hex_digit(b / 16), upper_hex_digit(b % 16)]
}

/// One `%XX` triplet per byte.
pub open spec fn percent_bytes(bs: Seq<u8>) -> Seq<char>
    decreases bs.len(),
{
    if bs.len() == 0 {
        Seq::empty()
    } else {
        percent_triplet(bs[0]) + percent_bytes(bs.drop_first())
    }
}

/// The encoding of a single character: unchanged if unreserved, unchanged if
/// `/` while slashes are kept, otherwise percent-escaped per UTF-8 byte.
pub open spec fn encoded_char(c: char, encode_slash: bool) -> Seq<char> {
    if is_unreserved(c) {
        seq![c]
    } else if c == '/' && !encode_slash {
        seq![c]
    } else {
        percent_bytes(encode_scalar(c as u32))
    }
}

/// The percent-encoding of a whole character sequence.
pub open spec fn uri_encode_chars(s: Seq<char>, encode_slash: bool) -> Seq<char>
    decreases s.len(),
{
    if s.len() == 0 {
        Seq::empty()
    } else {
        encoded_char(s[0], encode_slash) + uri_encode_chars(s.drop_first(), encode_slash)
    }
}

proof fn lemma_uri_encode_chars_push(s: Seq<char>, c: char, encode_slash: bool)
    ensures
        uri_encode_chars(s.push(c), encode_slash) == uri_encode_chars(s, encode_slash)
            + encoded_char(c, encode_slash),
    decreases s.len(),
{
    if s.len() == 0 {
        assert(s.push(c)[0] == c);
        assert(s.push(c).drop_first() =~= Seq::<char>::empty());
        assert(uri_encode_chars(Seq::<char>::empty(), encode_slash) =~= Seq::<char>::empty());
        assert(uri_encode_chars(s.push(c), encode_slash) =~= encoded_char(c, encode_slash));
        assert(uri_encode_chars(s, encode_slash) + encoded_char(c, encode_slash) =~= encoded_char(
            c,
            encode_slash,
        ));
    } else {
        assert(s.push(c).drop_first() =~= s.drop_first().push(c));
        lemma_uri_encode_chars_push(s.drop_first(), c, encode_slash);
        assert(uri_encode_chars(s.push(c), encode_slash) =~= uri_encode_chars(s, encode_slash)
            + encoded_char(c, encode_slash));
    }
}

proof fn lemma_percent_bytes_push(bs: Seq<u8>, b: u8)
    ensures
        percent_bytes(bs.push(b)) == percent_bytes(bs) + percent_triplet(b),
    decreases bs.len(),
{
    if bs.len() == 0 {
        assert(bs.push(b)[0] == b);
        assert(bs.push(b).drop_first() =~= Seq::<u8>::empty());
        assert(percent_bytes(Seq::<u8>::empty()) =~= Seq::<char>::empty());
        assert(percent_bytes(bs.push(b)) =~= percent_triplet(b));
        assert(percent_bytes(bs) + percent_triplet(b) =~= percent_triplet(b));
    } else {
        assert(bs.push(b).drop_first() =~= bs.drop_first().push(b));
        lemma_percent_bytes_push(bs.drop_first(), b);
        assert(percent_bytes(bs.push(b)) =~= percent_bytes(bs) + percent_triplet(b));
    }
}

/// The uppercase hexadecimal digit character for `n < 16`.
fn upper_hex_char(n: u8) -> (c: char)
    requires
        n < 16,
    ensures
        c == upper_hex_digit(n),
{
    if n < 10 {
        (48 + n) as char
    } else {
        (55 + n) as char
    }
}

/// The UTF-8 bytes of one Unicode scalar value.
fn utf8_bytes_of(u: u32) -> (r: Vec<u8>)
    requires
        is_scalar(u),
    ensures
        r@ == encode_scalar(u),
{
    let mut r: Vec<u8> = Vec::new();
    if u < 0x80 {
        r.push((u & 0x7F) as u8);
        proof {
            assert(r@ =~= encode_scalar(u));
        }
    } else if u < 0x800 {
        r.push(0xC0 | ((u >> 6) & 0x1F) as u8);
        r.push(0x80 | (u & 0x3F) as u8);
        proof {
            assert(r@ =~= encode_scalar(u));
        }
    } else if u < 0x10000 {
        r.push(0xE0 | ((u >> 12) & 0x0F) as u8);
        r.push(0x80 | ((u >> 6) & 0x3F) as u8);
        r.push(0x80 | (u & 0x3F) as u8);
        proof {
            assert(r@ =~= encode_scalar(u));
        }
    } else {
        r.push(0xF0 | ((u >> 18) & 0x7) as u8);
        r.push(0x80 | ((u >> 12) & 0x3F) as u8);
        r.push(0x80 | ((u >> 6) & 0x3F) as u8);
        r.push(0x80 | (u & 0x3F) as u8);
        proof {
            assert(r@ =~= encode_scalar(u));
        }
    }
    r
}

/// Percent-encodes `string` under AWS's unreserved-character rules. `/` is
/// kept as-is unless `encode_slash` is set, in which case it becomes `%2F`;
/// every character outside the unreserved set becomes one uppercase `%XX`
/// triplet per UTF-8 byte. Total: no input is rejected.
pub fn uri_encode(string: &str, encode_slash: bool) -> (r: String)
    ensures
        r@ == uri_encode_chars(string@, encode_slash),
{
    broadcast use vstd::utf8::char_is_scalar;

    let n = string.unicode_len();
    let mut out = String::new();
    let mut i: usize = 0;
    proof {
        assert(string@.take(0) =~= Seq::<char>::empty());
    }
    while i < n
        invariant
            i <= n,
            n == string@.len(),
            out@ == uri_encode_chars(string@.take(i as int), encode_slash),
        decreases n - i,
    {
        let c = string.get_char(i);
        let u = c as u32;
        let ghost pre = out@;
        if (97 <= u && u <= 122) || (65 <= u && u <= 90) || (48 <= u && u <= 57) || u == 45
            || u == 46 || u == 95 || u == 126 {
            push_char(&mut out, c);
            proof {
                assert(is_unreserved(c));
                assert(out@ =~= pre + encoded_char(c, encode_slash));
            }
        } else if u == 47 && !encode_slash {
            push_char(&mut out, c);
            proof {
                vstd::utf8::char_u32_cast(c, u);
                assert(c == '/');
                assert(out@ =~= pre + encoded_char(c, encode_slash));
            }
        } else {
            proof {
                if u == 47 {
                    vstd::utf8::char_u32_cast(c, u);
                    assert(c == '/');
                } else {
                    assert(c != '/') by {
                        if c == '/' {
                            assert(('/' as u32) == 47);
                        }
                    }
                }
            }
            let bytes = utf8_bytes_of(u);
            let mut k: usize = 0;
            proof {
                assert(bytes@.take(0) =~= Seq::<u8>::empty());
                assert(pre + percent_bytes(bytes@.take(0)) =~= pre);
            }
            while k < bytes.len()
                invariant
                    k <= bytes.len(),
                    out@ == pre + percent_bytes(bytes@.take(k as int)),
                decreases bytes.len() - k,
            {
                let b = bytes[k];
                let ghost pre_b = out@;
                push_char(&mut out, '%');
                let h1 = upper_hex_char(b / 16);
                push_char(&mut out, h1);
                let h2 = upper_hex_char(b % 16);
                push_char(&mut out, h2);
                proof {
                    lemma_percent_bytes_push(bytes@.take(k as int), b);
                    assert(bytes@.take(k + 1) =~= bytes@.take(k as int).push(b));
                    assert(out@ =~= pre_b + percent_triplet(b));
                    assert(out@ =~= pre + percent_bytes(bytes@.take(k + 1)));
                }
                k = k + 1;
            }
            proof {
                assert(bytes@.take(bytes@.len() as int) =~= bytes@);
                assert(out@ =~= pre + encoded_char(c, encode_slash));
            }
        }
        proof {
            lemma_uri_encode_chars_push(string@.take(i as int), c, encode_slash);
            assert(string@.take(i + 1) =~= string@.take(i as int).push(c));
        }
        i = i + 1;
    }
    proof {
        assert(string@.take(n as int) =~= string@);
    }
    out
}

} // verus!
