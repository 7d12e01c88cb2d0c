//! Text helpers shared by the library: decimal numerals, prefixes, blanks.

use vstd::prelude::*;

verus! {

/// The character of a decimal digit `d < 10`.
pub open spec fn digit_char(d: nat) -> char {
    (('0' as nat) + d) as char
}

/// The decimal numeral of `n`, without leading zeros.
pub open spec fn decimal(n: nat) -> Seq<char>
    decreases n,
{
    if n < 10 {
        seq![digit_char(n)]
    } else {
        decimal(n / 10).push(digit_char(n % 10))
    }
}

pub(crate) fn digit_str(d: u64) -> (r: &'static str)
    requires
        d < 10,
    ensures
        r@ == seq![digit_char(d as nat)],
{
    proof {
        reveal_strlit("0");
        reveal_strlit("1");
        reveal_strlit("2");
        reveal_strlit("3");
        reveal_strlit("4");
        reveal_strlit("5");
        reveal_strlit("6");
        reveal_strlit("7");
        reveal_strlit("8");
        reveal_strlit("9");
    }
    let r = if d == 0 {
        "0"
    } else if d == 1 {
        "1"
    } else if d == 2 {
        "2"
    } else if d == 3 {
        "3"
    } else if d == 4 {
        "4"
    } else if d == 5 {
        "5"
    } else if d == 6 {
        "6"
    } else if d == 7 {
        "7"
    } else if d == 8 {
        "8"
    } else {
        "9"
    };
    assert(r@ =~= seq![digit_char(d as nat)]);
    r
}

/// Writes `n` in decimal, as `Display` does for unsigned integers.
pub fn decimal_string(n: u64) -> (s: String)
    ensures
        s@ == decimal(n as nat),
    decreases n,
{
    if n < 10 {
        String::from_str(digit_str(n))
    } else {
        let mut s = decimal_string(n / 10);
        s.append(digit_str(n % 10));
        s
    }
}

} // verus!

verus! {

/// Whether two texts are the same.
pub fn str_eq(a: &str, b: &str) -> (r: bool)
    ensures
        r == (a@ == b@),
{
    let x = String::from_str(a);
    let y = String::from_str(b);
    x == y
}

} // verus!

verus! {

/// `p` is a prefix of `s`.
pub open spec fn is_prefix(p: Seq<char>, s: Seq<char>) -> bool {
    p.len() <= s.len() && s.subrange(0, p.len() as int) == p
}

/// Whether `s` starts with `prefix`, as `str::starts_with` with a string pattern.
pub fn starts_with(s: &str, prefix: &str) -> (r: bool)
    ensures
        r == is_prefix(prefix@, s@),
{
    let n = s.unicode_len();
    let m = prefix.unicode_len();
    if m > n {
        return false;
    }
    let mut i: usize = 0;
    while i < m
        invariant
            m == prefix@.len(),
            n == s@.len(),
            m <= n,
            i <= m,
            forall|j: int| 0 <= j < i ==> s@[j] == prefix@[j],
        decreases m - i,
    {
        if s.get_char(i) != prefix.get_char(i) {
            assert(s@.subrange(0, m as int)[i as int] != prefix@[i as int]);
            return false;
        }
        i = i + 1;
    }
    assert(s@.subrange(0, m as int) =~= prefix@);
    true
}

} // verus!

verus! {

/// The text of `s` before the first `c` (all of `s` when there is none).
pub open spec fn prefix_until(s: Seq<char>, c: char) -> Seq<char>
    decreases s.len(),
{
    if s.len() == 0 {
        s
    } else if s[0] == c {
        Seq::empty()
    } else {
        seq![s[0]] + prefix_until(s.drop_first(), c)
    }
}

/// The text of `s` after the first `c`; `None` when there is none.
pub open spec fn after_first(s: Seq<char>, c: char) -> Option<Seq<char>>
    decreases s.len(),
{
    if s.len() == 0 {
        None
    } else if s[0] == c {
        Some(s.drop_first())
    } else {
        after_first(s.drop_first(), c)
    }
}

/// Splitting at the first `c`, found at `k`.
pub proof fn lemma_split_at_first(s: Seq<char>, c: char, k: int)
    requires
        0 <= k <= s.len(),
        forall|j: int| 0 <= j < k ==> s[j] != c,
        k < s.len() ==> s[k] == c,
    ensures
        prefix_until(s, c) == s.subrange(0, k),
        k < s.len() ==> after_first(s, c) == Some(s.subrange(k + 1, s.len() as int)),
        k == s.len() ==> after_first(s, c) is None,
    decreases k,
{
    if k == 0 {
        if s.len() == 0 {
            assert(s.subrange(0, 0) =~= s);
        } else {
            assert(s.subrange(0, 0) =~= Seq::<char>::empty());
            assert(s.drop_first() =~= s.subrange(1, s.len() as int));
        }
    } else {
        let t = s.drop_first();
        lemma_split_at_first(t, c, k - 1);
        assert(seq![s[0]] + t.subrange(0, k - 1) =~= s.subrange(0, k));
        if k < s.len() {
            assert(t.subrange(k, t.len() as int) =~= s.subrange(k + 1, s.len() as int));
        }
    }
}

/// The position of the first `c` in `s`, or its length when there is none.
pub fn find_char(s: &str, c: char) -> (k: usize)
    ensures
        k <= s@.len(),
        forall|j: int| 0 <= j < k ==> s@[j] != c,
        k < s@.len() ==> s@[k as int] == c,
{
    let n = s.unicode_len();
    let mut i: usize = 0;
    while i < n
        invariant
            n == s@.len(),
            i <= n,
            forall|j: int| 0 <= j < i ==> s@[j] != c,
        decreases n - i,
    {
        if s.get_char(i) == c {
            return i;
        }
        i = i + 1;
    }
    i
}

/// The text of `s` before the first `c` (all of it when there is none), as
/// the first piece of `str::split(c)`.
pub fn text_before(s: &str, c: char) -> (r: String)
    ensures
        r@ == prefix_until(s@, c),
{
    let k = find_char(s, c);
    proof {
        lemma_split_at_first(s@, c, k as int);
    }
    String::from_str(s.substring_char(0, k))
}

/// The second piece of `str::split(c)`: the text between the first and the
/// second `c` (or the end); `None` when `s` has no `c`.
pub fn second_piece(s: &str, c: char) -> (r: Option<String>)
    ensures
        match after_first(s@, c) {
            Some(rest) => r matches Some(x) && x@ == prefix_until(rest, c),
            None => r is None,
        },
{
    let k = find_char(s, c);
    proof {
        lemma_split_at_first(s@, c, k as int);
    }
    let n = s.unicode_len();
    if k >= n {
        return None;
    }
    let rest = s.substring_char(k + 1, n);
    Some(text_before(rest, c))
}

/// Whether `c` is white space in the sense of Unicode's `White_Space`
/// property, as `char::is_whitespace` has it.
pub open spec fn is_white(c: char) -> bool {
    let n = c as u32;
    (0x9 <= n <= 0xD) || n == 0x20 || n == 0x85 || n == 0xA0 || n == 0x1680 || (0x2000 <= n <= 0x200A) || n == 0x2028
        || n == 0x2029 || n == 0x202F || n == 0x205F || n == 0x3000
}

/// The text is empty once trimmed: it holds only white space.
pub open spec fn is_blank_text(s: Seq<char>) -> bool {
    forall|i: int| 0 <= i < s.len() ==> is_white(#[trigger] s[i])
}

fn white(c: char) -> (r: bool)
    ensures
        r == is_white(c),
{
    let n = c as u32;
    (0x9 <= n && n <= 0xD) || n == 0x20 || n == 0x85 || n == 0xA0 || n == 0x1680 || (0x2000 <= n && n <= 0x200A) || n
        == 0x2028 || n == 0x2029 || n == 0x202F || n == 0x205F || n == 0x3000
}

/// Whether `s.trim().is_empty()`: the text holds only white space.
pub fn is_blank(s: &str) -> (r: bool)
    ensures
        r == is_blank_text(s@),
{
    let n = s.unicode_len();
    let mut i: usize = 0;
    while i < n
        invariant
            n == s@.len(),
            i <= n,
            forall|j: int| 0 <= j < i ==> is_white(#[trigger] s@[j]),
        decreases n - i,
    {
        if !white(s.get_char(i)) {
            return false;
        }
        i = i + 1;
    }
    true
}

/// Whether `c` is an ASCII decimal digit.
pub open spec fn is_digit(c: char) -> bool {
    '0' <= c && c <= '9'
}

/// The value of the decimal digits `s` (0 for no digit).
pub open spec fn digits_value(s: Seq<char>) -> nat
    decreases s.len(),
{
    if s.len() == 0 {
        0
    } else {
        digits_value(s.drop_last()) * 10 + ((s.last() as nat) - ('0' as nat)) as nat
    }
}

/// Whether `s` is one or more decimal digits.
pub open spec fn all_digits(s: Seq<char>) -> bool {
    s.len() > 0 && forall|i: int| 0 <= i < s.len() ==> is_digit(#[trigger] s[i])
}

/// The integer that `s` writes, as `str::parse` reads one: an optional `+`
/// or `-`, then one or more decimal digits, and nothing else.
pub open spec fn integer_of(s: Seq<char>) -> Option<int> {
    if s.len() > 0 && s[0] == '-' && all_digits(s.drop_first()) {
        Some(-(digits_value(s.drop_first()) as int))
    } else if s.len() > 0 && s[0] == '+' && all_digits(s.drop_first()) {
        Some(digits_value(s.drop_first()) as int)
    } else if all_digits(s) {
        Some(digits_value(s) as int)
    } else {
        None
    }
}

/// What `s.parse::<i64>()` gives: the integer `s` writes, when it is one
/// and fits in an `i64`.
pub open spec fn i64_of(s: Seq<char>) -> Option<i64> {
    match integer_of(s) {
        Some(v) => if i64::MIN <= v <= i64::MAX {
            Some(v as i64)
        } else {
            None
        },
        None => None,
    }
}

/// A bound past every `i64` magnitude, at which the parser stops counting.
const DIGITS_CAP: u128 = 0x1_0000_0000_0000_0000;

proof fn lemma_digits_push(s: Seq<char>, c: char)
    ensures
        digits_value(s.push(c)) == digits_value(s) * 10 + ((c as nat) - ('0' as nat)) as nat,
{
    assert(s.push(c).drop_last() =~= s);
}

/// Reads the decimal digits of `s` from position `start` on: their value,
/// or `DIGITS_CAP` when it is larger; `None` unless they are one or more
/// digits and nothing else.
fn read_digits(s: &str, start: usize) -> (r: Option<u128>)
    requires
        start <= s@.len(),
    ensures
        all_digits(s@.subrange(start as int, s@.len() as int)) <==> r is Some,
        r matches Some(v) ==> v == (if digits_value(s@.subrange(start as int, s@.len() as int)) <= DIGITS_CAP {
            digits_value(s@.subrange(start as int, s@.len() as int))
        } else {
            DIGITS_CAP as nat
        }),
{
    let n = s.unicode_len();
    if start >= n {
        return None;
    }
    let mut acc: u128 = 0;
    let mut i: usize = start;
    while i < n
        invariant
            n == s@.len(),
            start < n,
            start <= i <= n,
            forall|j: int| start <= j < i ==> is_digit(#[trigger] s@[j]),
            acc == (if digits_value(s@.subrange(start as int, i as int)) <= DIGITS_CAP {
                digits_value(s@.subrange(start as int, i as int))
            } else {
                DIGITS_CAP as nat
            }),
        decreases n - i,
    {
        let c = s.get_char(i);
        if !('0' <= c && c <= '9') {
            proof {
                assert(s@.subrange(start as int, n as int)[i - start] == c);
            }
            return None;
        }
        let d = (c as u32 - '0' as u32) as u128;
        proof {
            let p = s@.subrange(start as int, i as int);
            assert(s@.subrange(start as int, i as int + 1) =~= p.push(c));
            lemma_digits_push(p, c);
        }
        if acc >= DIGITS_CAP {
            acc = DIGITS_CAP;
        } else {
            let next = acc * 10 + d;
            acc = if next > DIGITS_CAP { DIGITS_CAP } else { next };
        }
        i = i + 1;
    }
    proof {
        let t = s@.subrange(start as int, n as int);
        assert forall|j: int| 0 <= j < t.len() implies is_digit(#[trigger] t[j]) by {
            assert(t[j] == s@[start + j]);
        }
    }
    Some(acc)
}

/// Reads `s` as `s.parse::<i64>()` does (see `i64_of`).
pub fn parse_i64(s: &str) -> (r: Option<i64>)
    ensures
        r == i64_of(s@),
{
    let n = s.unicode_len();
    if n == 0 {
        return None;
    }
    let first = s.get_char(0);
    if first == '-' || first == '+' {
        proof {
            assert(s@.subrange(1, n as int) =~= s@.drop_first());
            assert(!all_digits(s@)) by {
                assert(!is_digit(s@[0]));
            }
        }
        match read_digits(s, 1) {
            None => None,
            Some(v) => {
                if first == '-' {
                    if v <= 0x8000_0000_0000_0000 {
                        if v == 0x8000_0000_0000_0000 {
                            Some(i64::MIN)
                        } else {
                            Some(-(v as i64))
                        }
                    } else {
                        None
                    }
                } else {
                    if v <= 0x7FFF_FFFF_FFFF_FFFF {
                        Some(v as i64)
                    } else {
                        None
                    }
                }
            },
        }
    } else {
        proof {
            assert(s@.subrange(0, n as int) =~= s@);
        }
        match read_digits(s, 0) {
            None => None,
            Some(v) => {
                if v <= 0x7FFF_FFFF_FFFF_FFFF {
                    Some(v as i64)
                } else {
                    None
                }
            },
        }
    }
}

} // verus!
