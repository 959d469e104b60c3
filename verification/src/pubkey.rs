//! Validation of the public keys that clients subscribe under.

use vstd::prelude::*;
use vstd::utf8::{encode_scalar, encode_utf8, has_width_2_encoding, has_width_3_encoding};

verus! {

/// Bytes allowed in a public key: ASCII letters and digits, `_` and `-`.
pub open spec fn is_pubkey_byte(b: u8) -> bool {
    ||| 48 <= b <= 57
    ||| 65 <= b <= 90
    ||| 97 <= b <= 122
    ||| b == 95
    ||| b == 45
}

/// A public key is 2 to 64 bytes long and made only of allowed bytes.
pub open spec fn pubkey_bytes_ok(bytes: Seq<u8>) -> bool {
    &&& 2 <= bytes.len() <= 64
    &&& forall|i: int| 0 <= i < bytes.len() ==> #[trigger] is_pubkey_byte(bytes[i])
}

/// A string is a valid public key when its UTF-8 bytes are.
pub open spec fn is_valid_pubkey(s: Seq<char>) -> bool {
    pubkey_bytes_ok(encode_utf8(s))
}

/// A character allowed in a public key.
pub open spec fn is_key_char(c: char) -> bool {
    ||| '0' as u32 <= c as u32 <= '9' as u32
    ||| 'A' as u32 <= c as u32 <= 'Z' as u32
    ||| 'a' as u32 <= c as u32 <= 'z' as u32
    ||| c as u32 == '_' as u32
    ||| c as u32 == '-' as u32
}

/// The first byte of the UTF-8 form of a character outside ASCII is at
/// least `0xC0`; an ASCII character is the one byte of its own code.
proof fn lemma_encode_char(c: char)
    ensures
        (c as u32) < 128 ==> encode_scalar(c as u32) == seq![(c as u32) as u8],
        (c as u32) >= 128 ==> encode_scalar(c as u32).len() > 0 && encode_scalar(c as u32)[0] >= 0xC0,
{
    let v = c as u32;
    if v < 128 {
        assert((v & 0x7F) == v) by (bit_vector)
            requires
                v < 128,
        ;
    } else if has_width_2_encoding(v) {
        assert(0xC0u8 | ((v >> 6) & 0x1F) as u8 >= 0xC0) by (bit_vector);
    } else if has_width_3_encoding(v) {
        assert(0xE0u8 | ((v >> 12) & 0x0F) as u8 >= 0xC0) by (bit_vector);
    } else {
        assert(0xF0u8 | ((v >> 18) & 0x7) as u8 >= 0xC0) by (bit_vector);
    }
}

/// When every byte of the UTF-8 form of `s` is at most 122, each character
/// of `s` is ASCII and is the byte at its own place.
proof fn lemma_small_bytes_ascii(s: Seq<char>)
    requires
        forall|i: int| 0 <= i < encode_utf8(s).len() ==> #[trigger] encode_utf8(s)[i] <= 122,
    ensures
        encode_utf8(s).len() == s.len(),
        forall|i: int| 0 <= i < s.len() ==> (#[trigger] s[i] as u32) < 128 && encode_utf8(s)[i] == (s[i] as u32) as u8,
    decreases s.len(),
{
    if s.len() > 0 {
        let e = encode_utf8(s);
        let head = encode_scalar(s[0] as u32);
        let tail = encode_utf8(s.drop_first());
        assert(e == head + tail);
        lemma_encode_char(s[0]);
        assert(e[0] == head[0]);
        assert(head.len() == 1);
        assert forall|i: int| 0 <= i < tail.len() implies #[trigger] tail[i] <= 122 by {
            assert(e[i + 1] == tail[i]);
        }
        lemma_small_bytes_ascii(s.drop_first());
        assert forall|i: int| 0 <= i < s.len() implies (#[trigger] s[i] as u32) < 128 && e[i] == (s[i] as u32) as u8 by {
            if i > 0 {
                assert(s[i] == s.drop_first()[i - 1]);
                assert(e[i] == tail[i - 1]);
            }
        }
    }
}

/// The UTF-8 form of an ASCII string is its character codes.
proof fn lemma_ascii_encoding(s: Seq<char>)
    requires
        forall|i: int| 0 <= i < s.len() ==> (#[trigger] s[i] as u32) < 128,
    ensures
        encode_utf8(s).len() == s.len(),
        forall|i: int| 0 <= i < s.len() ==> #[trigger] encode_utf8(s)[i] == (s[i] as u32) as u8,
    decreases s.len(),
{
    if s.len() > 0 {
        let e = encode_utf8(s);
        let tail = encode_utf8(s.drop_first());
        lemma_encode_char(s[0]);
        assert(e == seq![(s[0] as u32) as u8] + tail);
        assert forall|i: int| 0 <= i < s.drop_first().len() implies (#[trigger] s.drop_first()[i] as u32) < 128 by {
            assert(s.drop_first()[i] == s[i + 1]);
        }
        lemma_ascii_encoding(s.drop_first());
        assert forall|i: int| 0 <= i < s.len() implies #[trigger] e[i] == (s[i] as u32) as u8 by {
            if i > 0 {
                assert(s[i] == s.drop_first()[i - 1]);
                assert(e[i] == tail[i - 1]);
            }
        }
    }
}

/// A key is valid exactly when it is 2 to 64 characters long and each of
/// them is an ASCII letter or digit, `_` or `-`.
pub proof fn lemma_valid_pubkey_chars(s: Seq<char>)
    ensures
        is_valid_pubkey(s) <==> (2 <= s.len() <= 64 && forall|i: int| 0 <= i < s.len() ==> is_key_char(
            #[trigger] s[i],
        )),
{
    let e = encode_utf8(s);
    if is_valid_pubkey(s) {
        assert forall|i: int| 0 <= i < e.len() implies #[trigger] e[i] <= 122 by {
            assert(is_pubkey_byte(e[i]));
        }
        lemma_small_bytes_ascii(s);
        assert forall|i: int| 0 <= i < s.len() implies is_key_char(#[trigger] s[i]) by {
            let v = s[i] as u32;
            assert(v < 128);
            assert(is_pubkey_byte(e[i]));
            assert(e[i] == v as u8);
            assert(e[i] as u32 == v);
        }
    }
    if 2 <= s.len() <= 64 && forall|i: int| 0 <= i < s.len() ==> is_key_char(#[trigger] s[i]) {
        assert forall|i: int| 0 <= i < s.len() implies (#[trigger] s[i] as u32) < 128 by {
            assert(is_key_char(s[i]));
        }
        lemma_ascii_encoding(s);
        assert forall|i: int| 0 <= i < e.len() implies #[trigger] is_pubkey_byte(e[i]) by {
            assert(is_key_char(s[i]));
            assert(e[i] == (s[i] as u32) as u8);
        }
    }
}

fn pubkey_byte(b: u8) -> (r: bool)
    ensures
        r == is_pubkey_byte(b),
{
    (48 <= b && b <= 57) || (65 <= b && b <= 90) || (97 <= b && b <= 122) || b == 95 || b == 45
}

/// Whether `s` may be used as a subscription key or a publish target.
pub fn valid_pubkey(s: &str) -> (r: bool)
    ensures
        r == is_valid_pubkey(s@),
{
    let bytes = s.as_bytes();
    let n = bytes.len();
    if !(2 <= n && n <= 64) {
        return false;
    }
    let mut i: usize = 0;
    while i < n
        invariant
            n == bytes@.len(),
            bytes@ == encode_utf8(s@),
            i <= n,
            forall|j: int| 0 <= j < i ==> #[trigger] is_pubkey_byte(bytes@[j]),
        decreases n - i,
    {
        if !pubkey_byte(bytes[i]) {
            return false;
        }
        i += 1;
    }
    true
}

} // verus!
