//! Text formats used on the wire and in status lines: decimal numbers,
//! lowercase hexadecimal, and the trimming and prefix rules of URLs.

use vstd::prelude::*;
use vstd::string::*;

verus! {

/// The character of a digit below sixteen: `0`-`9`, then `a`-`f`.
pub open spec fn hex_digit(d: int) -> char {
    if d < 10 {
        (48 + d) as char
    } else {
        (87 + d) as char
    }
}

/// Decimal representation of a natural number, without sign or leading zeros.
pub open spec fn decimal(n: nat) -> Seq<char>
    decreases n,
{
    if n < 10 {
        seq![hex_digit(n as int)]
    } else {
        decimal(n / 10).push(hex_digit((n % 10) as int))
    }
}

/// Lowercase hexadecimal of a byte string, two digits per byte.
pub open spec fn hex_lower(bytes: Seq<u8>) -> Seq<char>
    decreases bytes.len(),
{
    if bytes.len() == 0 {
        Seq::empty()
    } else {
        hex_lower(bytes.drop_last()) + seq![
            hex_digit(bytes.last() as int / 16),
            hex_digit(bytes.last() as int % 16),
        ]
    }
}

/// Two digits per byte, each a lowercase hexadecimal digit.
pub proof fn lemma_hex_lower_shape(bytes: Seq<u8>)
    ensures
        hex_lower(bytes).len() == 2 * bytes.len(),
        forall|i: int|
            0 <= i < hex_lower(bytes).len() ==> {
                let c = #[trigger] hex_lower(bytes)[i];
                ('0' <= c <= '9') || ('a' <= c <= 'f')
            },
    decreases bytes.len(),
{
    if bytes.len() > 0 {
        lemma_hex_lower_shape(bytes.drop_last());
        let prev = hex_lower(bytes.drop_last());
        let hi = bytes.last() as int / 16;
        let lo = bytes.last() as int % 16;
        assert forall|i: int| 0 <= i < hex_lower(bytes).len() implies {
            let c = #[trigger] hex_lower(bytes)[i];
            ('0' <= c <= '9') || ('a' <= c <= 'f')
        } by {
            if i < prev.len() {
                assert(hex_lower(bytes)[i] == prev[i]);
            } else if i == prev.len() {
                assert(hex_lower(bytes)[i] == hex_digit(hi));
            } else {
                assert(hex_lower(bytes)[i] == hex_digit(lo));
            }
        }
    }
}

/// `s` with every trailing `/` removed.
pub open spec fn trim_end_slashes(s: Seq<char>) -> Seq<char>
    decreases s.len(),
{
    if s.len() > 0 && s.last() == '/' {
        trim_end_slashes(s.drop_last())
    } else {
        s
    }
}

/// Dropping the trailing slashes leaves no trailing slash, so doing it again
/// changes nothing.
pub proof fn lemma_trim_end_slashes_idempotent(s: Seq<char>)
    ensures
        trim_end_slashes(s).len() == 0 || trim_end_slashes(s).last() != '/',
        trim_end_slashes(trim_end_slashes(s)) == trim_end_slashes(s),
    decreases s.len(),
{
    if s.len() > 0 && s.last() == '/' {
        lemma_trim_end_slashes_idempotent(s.drop_last());
    }
}

/// The number that a string of decimal digits stands for.
pub open spec fn digits_value(s: Seq<char>) -> int
    decreases s.len(),
{
    if s.len() == 0 {
        0
    } else {
        digits_value(s.drop_last()) * 10 + (s.last() as int - '0' as int)
    }
}

/// The decimal text of a number reads back as that number.
pub proof fn lemma_decimal_reads_back(n: nat)
    ensures
        digits_value(decimal(n)) == n,
    decreases n,
{
    let k = (n % 10) as int;
    assert(hex_digit(k) as int == 48 + k);
    assert('0' as int == 48);
    if n >= 10 {
        lemma_decimal_reads_back(n / 10);
        let d = decimal(n / 10).push(hex_digit(k));
        assert(d.drop_last() =~= decimal(n / 10));
        assert(digits_value(d) == digits_value(decimal(n / 10)) * 10 + k);
        assert((n / 10) as int * 10 + k == n) by (nonlinear_arith)
            requires
                k == n % 10,
        ;
        assert(decimal(n) == d);
    } else {
        let d = seq![hex_digit(n as int)];
        assert(d.drop_last() =~= Seq::<char>::empty());
        assert(n % 10 == n);
        assert(digits_value(d) == digits_value(d.drop_last()) * 10 + (d.last() as int - '0' as int));
        assert(decimal(n) == d);
    }
}

/// What is left of `s` after the prefix `p`, if `s` starts with `p`.
pub open spec fn strip_prefix(s: Seq<char>, p: Seq<char>) -> Option<Seq<char>> {
    if p.len() <= s.len() && s.subrange(0, p.len() as int) == p {
        Some(s.subrange(p.len() as int, s.len() as int))
    } else {
        None
    }
}

fn digit_str(d: u8) -> (s: &'static str)
    requires
        d < 16,
    ensures
        s@ == seq![hex_digit(d as int)],
{
    let s = if d == 0 {
        proof { reveal_strlit("0"); }
        "0"
    } else if d == 1 {
        proof { reveal_strlit("1"); }
        "1"
    } else if d == 2 {
        proof { reveal_strlit("2"); }
        "2"
    } else if d == 3 {
        proof { reveal_strlit("3"); }
        "3"
    } else if d == 4 {
        proof { reveal_strlit("4"); }
        "4"
    } else if d == 5 {
        proof { reveal_strlit("5"); }
        "5"
    } else if d == 6 {
        proof { reveal_strlit("6"); }
        "6"
    } else if d == 7 {
        proof { reveal_strlit("7"); }
        "7"
    } else if d == 8 {
        proof { reveal_strlit("8"); }
        "8"
    } else if d == 9 {
        proof { reveal_strlit("9"); }
        "9"
    } else if d == 10 {
        proof { reveal_strlit("a"); }
        "a"
    } else if d == 11 {
        proof { reveal_strlit("b"); }
        "b"
    } else if d == 12 {
        proof { reveal_strlit("c"); }
        "c"
    } else if d == 13 {
        proof { reveal_strlit("d"); }
        "d"
    } else if d == 14 {
        proof { reveal_strlit("e"); }
        "e"
    } else {
        proof { reveal_strlit("f"); }
        "f"
    };
    assert(s@ =~= seq![hex_digit(d as int)]);
    s
}

/// The decimal text of `n`, as `to_string` writes it.
pub fn u64_to_decimal(n: u64) -> (s: String)
    ensures
        s@ == decimal(n as nat),
{
    let mut s = String::from_str(digit_str((n % 10) as u8));
    let mut rest: u64 = n / 10;
    while rest > 0
        invariant
            rest > 0 ==> decimal(n as nat) == decimal(rest as nat) + s@,
            rest == 0 ==> decimal(n as nat) == s@,
        decreases rest,
    {
        let d = (rest % 10) as u8;
        let head = String::from_str(digit_str(d));
        let ghost old_s = s@;
        s = head.concat(s.as_str());
        proof {
            let r = rest as nat;
            if r >= 10 {
                assert(decimal(r) == decimal(r / 10).push(hex_digit((r % 10) as int)));
                assert(decimal(r / 10).push(hex_digit((r % 10) as int)) + old_s =~= decimal(r / 10)
                    + s@);
            } else {
                assert(decimal(r) == seq![hex_digit(r as int)]);
                assert(seq![hex_digit(r as int)] + old_s =~= s@);
            }
        }
        rest = rest / 10;
    }
    s
}

/// Lowercase hexadecimal of `bytes`, two digits per byte.
pub fn to_hex_lower(bytes: &[u8]) -> (s: String)
    ensures
        s@ == hex_lower(bytes@),
{
    let mut s = String::new();
    let mut i: usize = 0;
    while i < bytes.len()
        invariant
            i <= bytes@.len(),
            s@ == hex_lower(bytes@.subrange(0, i as int)),
        decreases bytes@.len() - i,
    {
        let b = bytes[i];
        s.append(digit_str(b / 16));
        s.append(digit_str(b % 16));
        proof {
            let pre = bytes@.subrange(0, i as int + 1);
            assert(pre.drop_last() =~= bytes@.subrange(0, i as int));
            assert(pre.last() == b);
        }
        i += 1;
    }
    assert(bytes@.subrange(0, bytes@.len() as int) =~= bytes@);
    s
}

/// `s` without its trailing `/` characters.
pub fn trim_end_slashes_of(s: &str) -> (r: String)
    ensures
        r@ == trim_end_slashes(s@),
{
    let n = s.unicode_len();
    let mut end: usize = n;
    assert(s@.subrange(0, n as int) =~= s@);
    while end > 0 && s.get_char(end - 1) == '/'
        invariant
            end <= n,
            n == s@.len(),
            trim_end_slashes(s@) == trim_end_slashes(s@.subrange(0, end as int)),
        decreases end,
    {
        assert(s@.subrange(0, end as int).drop_last() =~= s@.subrange(0, end as int - 1));
        end -= 1;
    }
    let head = s.substring_char(0, end);
    String::from_str(head)
}

/// What follows `p` in `s`, if `s` begins with `p`.
pub fn strip_prefix_of(s: &str, p: &str) -> (r: Option<String>)
    ensures
        match r {
            Some(rest) => strip_prefix(s@, p@) == Some(rest@),
            None => strip_prefix(s@, p@) is None,
        },
{
    let n = s.unicode_len();
    let m = p.unicode_len();
    if m > n {
        return None;
    }
    let head = String::from_str(s.substring_char(0, m));
    let want = String::from_str(p);
    if head == want {
        Some(String::from_str(s.substring_char(m, n)))
    } else {
        None
    }
}

} // verus!
