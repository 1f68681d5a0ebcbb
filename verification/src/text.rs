//! Small text routines: digits, equality and substring search on character
//! sequences, stated over the strings' character views.

use vstd::prelude::*;

verus! {

/// The upper-case hexadecimal digit for `d < 16` (decimal digits for `d < 10`).
pub open spec fn digit_char(d: nat) -> char {
    if d < 10 {
        (48 + d) as char
    } else {
        (55 + d) as char
    }
}

/// Decimal notation of `n`, without leading zeros.
pub open spec fn spec_decimal(n: nat) -> Seq<char>
    decreases n,
{
    if n < 10 {
        seq![digit_char(n)]
    } else {
        spec_decimal(n / 10).push(digit_char(n % 10))
    }
}

/// The value of a hexadecimal digit, either case.
pub open spec fn hex_digit_value(c: char) -> Option<nat> {
    let n = c as int;
    if 48 <= n <= 57 {
        Some((n - 48) as nat)
    } else if 65 <= n <= 70 {
        Some((n - 55) as nat)
    } else if 97 <= n <= 102 {
        Some((n - 87) as nat)
    } else {
        None
    }
}

/// The value of a string of hexadecimal digits; `None` if a character is not
/// a hexadecimal digit. The empty string has the value zero.
pub open spec fn hex_number(s: Seq<char>) -> Option<nat>
    decreases s.len(),
{
    if s.len() == 0 {
        Some(0)
    } else {
        match (hex_number(s.drop_last()), hex_digit_value(s.last())) {
            (Some(a), Some(d)) => Some(a * 16 + d),
            _ => None,
        }
    }
}

/// The `k` lowest hexadecimal digits of `n`, most significant first, upper
/// case, zero-padded.
pub open spec fn spec_hex_digits(n: nat, k: nat) -> Seq<char>
    decreases k,
{
    if k == 0 {
        Seq::empty()
    } else {
        spec_hex_digits(n / 16, (k - 1) as nat).push(digit_char(n % 16))
    }
}

/// `16^k`.
pub open spec fn pow16(k: nat) -> nat
    decreases k,
{
    if k == 0 {
        1
    } else {
        16 * pow16((k - 1) as nat)
    }
}

/// `m` occurs in `s` starting at position `i`.
pub open spec fn occurs_at(s: Seq<char>, m: Seq<char>, i: int) -> bool {
    0 <= i && i + m.len() <= s.len() && s.subrange(i, i + m.len()) == m
}

/// `i` is the first position at which `m` occurs in `s`.
pub open spec fn is_first_occurrence(s: Seq<char>, m: Seq<char>, i: int) -> bool {
    occurs_at(s, m, i) && forall|j: int| 0 <= j < i ==> !occurs_at(s, m, j)
}

/// The first position at which `m` occurs in `s`, if it occurs.
pub open spec fn first_occurrence(s: Seq<char>, m: Seq<char>) -> Option<int> {
    if exists|i: int| is_first_occurrence(s, m, i) {
        Some(choose|i: int| is_first_occurrence(s, m, i))
    } else {
        None
    }
}

/// `p` is a prefix of `s`.
pub open spec fn is_prefix(p: Seq<char>, s: Seq<char>) -> bool {
    p.len() <= s.len() && s.take(p.len() as int) == p
}

/// The one-character string of digit `d`.
fn digit_str(d: u32) -> (s: &'static str)
    requires
        d < 16,
    ensures
        s@ == seq![digit_char(d as nat)],
{
    let digits: &'static str = "0123456789ABCDEF";
    proof {
        reveal_strlit("0123456789ABCDEF");
    }
    let s = digits.substring_char(d as usize, d as usize + 1);
    assert(s@ =~= seq![digit_char(d as nat)]);
    s
}

/// Decimal notation of `n`, as `format!("{n}")` writes it.
pub fn decimal_string(n: u32) -> (s: String)
    ensures
        s@ == spec_decimal(n as nat),
    decreases n,
{
    if n < 10 {
        String::from_str(digit_str(n))
    } else {
        let mut s = decimal_string(n / 10);
        s.append(digit_str(n % 10));
        s
    }
}

proof fn lemma_pow16_bound(k: nat)
    requires
        k <= 8,
    ensures
        pow16(k) <= 4294967296,
    decreases 8 - k,
{
    if k == 8 {
        reveal_with_fuel(pow16, 9);
    } else {
        lemma_pow16_bound(k + 1);
    }
}

/// The value of one hexadecimal digit, either case.
fn hex_digit(c: char) -> (r: Option<u32>)
    ensures
        match r {
            Some(d) => hex_digit_value(c) == Some(d as nat) && d < 16,
            None => hex_digit_value(c) is None,
        },
{
    let n: u32 = c as u32;
    if 48 <= n && n <= 57 {
        Some(n - 48)
    } else if 65 <= n && n <= 70 {
        Some(n - 55)
    } else if 97 <= n && n <= 102 {
        Some(n - 87)
    } else {
        None
    }
}

/// The value of at most eight hexadecimal digits, either case.
pub fn parse_hex(s: &str) -> (r: Option<u32>)
    requires
        s@.len() <= 8,
    ensures
        match r {
            Some(v) => hex_number(s@) == Some(v as nat),
            None => hex_number(s@) is None,
        },
{
    let n: usize = s.unicode_len();
    let mut acc: u64 = 0;
    let mut i: usize = 0;
    assert(s@.take(0) =~= Seq::<char>::empty());
    while i < n
        invariant
            n == s@.len(),
            n <= 8,
            i <= n,
            hex_number(s@.take(i as int)) == Some(acc as nat),
            acc < pow16(i as nat),
        decreases n - i,
    {
        let c: char = s.get_char(i);
        assert(s@.take(i + 1).drop_last() =~= s@.take(i as int));
        assert(s@.take(i + 1).last() == c);
        match hex_digit(c) {
            Some(d) => {
                proof {
                    lemma_pow16_bound((i + 1) as nat);
                    let p = pow16(i as nat);
                    assert(acc * 16 + d < 16 * p) by (nonlinear_arith)
                        requires acc < p, d < 16;
                }
                acc = acc * 16 + d as u64;
                i = i + 1;
            },
            None => {
                proof {
                    let t = s@.take(i + 1);
                    assert(hex_number(t) is None);
                    lemma_hex_none_extends(s@, i as int + 1);
                }
                return None;
            },
        }
    }
    proof {
        lemma_pow16_bound(n as nat);
        assert(s@.take(n as int) =~= s@);
    }
    Some(acc as u32)
}

/// Once a prefix holds a non-digit, so does every longer prefix.
proof fn lemma_hex_none_extends(s: Seq<char>, k: int)
    requires
        0 <= k <= s.len(),
        hex_number(s.take(k)) is None,
    ensures
        hex_number(s) is None,
    decreases s.len() - k,
{
    if k < s.len() {
        assert(s.take(k + 1).drop_last() =~= s.take(k));
        lemma_hex_none_extends(s, k + 1);
    } else {
        assert(s.take(k) =~= s);
    }
}

/// Character-wise equality of two strings.
pub fn str_equal(a: &str, b: &str) -> (r: bool)
    ensures
        r == (a@ == b@),
{
    let n: usize = a.unicode_len();
    if n != b.unicode_len() {
        return false;
    }
    let mut i: usize = 0;
    while i < n
        invariant
            n == a@.len(),
            n == b@.len(),
            i <= n,
            forall|j: int| 0 <= j < i ==> a@[j] == b@[j],
        decreases n - i,
    {
        if a.get_char(i) != b.get_char(i) {
            return false;
        }
        i = i + 1;
    }
    assert(a@ =~= b@);
    true
}

/// Whether `m` occurs in `s` at character position `i`.
fn matches_at(s: &str, m: &str, i: usize) -> (r: bool)
    requires
        i + m@.len() <= s@.len(),
        s@.len() <= usize::MAX,
    ensures
        r == occurs_at(s@, m@, i as int),
{
    let k: usize = m.unicode_len();
    let mut j: usize = 0;
    while j < k
        invariant
            k == m@.len(),
            i + k <= s@.len(),
            s@.len() <= usize::MAX,
            j <= k,
            forall|t: int| 0 <= t < j ==> s@[i + t] == m@[t],
        decreases k - j,
    {
        if s.get_char(i + j) != m.get_char(j) {
            assert(s@.subrange(i as int, i + k)[j as int] != m@[j as int]);
            return false;
        }
        j = j + 1;
    }
    assert(s@.subrange(i as int, i + k) =~= m@);
    true
}

/// Position of the first occurrence of `m` in `s`, counted in characters.
pub fn find_first(s: &str, m: &str) -> (r: Option<usize>)
    ensures
        match r {
            Some(i) => first_occurrence(s@, m@) == Some(i as int),
            None => first_occurrence(s@, m@) is None,
        },
{
    let n: usize = s.unicode_len();
    let k: usize = m.unicode_len();
    if k > n {
        assert(forall|j: int| !occurs_at(s@, m@, j));
        return None;
    }
    let mut i: usize = 0;
    loop
        invariant
            n == s@.len(),
            k == m@.len(),
            k <= n,
            i <= n - k,
            forall|j: int| 0 <= j < i ==> !occurs_at(s@, m@, j),
        decreases n - k - i,
    {
        if matches_at(s, m, i) {
            proof {
                assert(is_first_occurrence(s@, m@, i as int));
                let c = choose|c: int| is_first_occurrence(s@, m@, c);
                assert(c == i) by {
                    if c < i {
                        assert(!occurs_at(s@, m@, c));
                    } else if c > i {
                        assert(!occurs_at(s@, m@, i as int));
                    }
                }
            }
            return Some(i);
        }
        if i == n - k {
            assert(forall|j: int| !occurs_at(s@, m@, j));
            return None;
        }
        i = i + 1;
    }
}

/// Whether `p` is a prefix of `s`.
pub fn starts_with(s: &str, p: &str) -> (r: bool)
    ensures
        r == is_prefix(p@, s@),
{
    let n: usize = s.unicode_len();
    let k: usize = p.unicode_len();
    if k > n {
        return false;
    }
    let mut j: usize = 0;
    while j < k
        invariant
            n == s@.len(),
            k == p@.len(),
            k <= n,
            j <= k,
            forall|t: int| 0 <= t < j ==> s@[t] == p@[t],
        decreases k - j,
    {
        if s.get_char(j) != p.get_char(j) {
            assert(s@.take(k as int)[j as int] != p@[j as int]);
            return false;
        }
        j = j + 1;
    }
    assert(s@.take(k as int) =~= p@);
    true
}

/// Every digit value below sixteen is read back from its upper-case digit,
/// and the letter digits also from their lower-case forms.
pub proof fn lemma_hex_digit_values(d: nat)
    requires
        d < 16,
    ensures
        hex_digit_value(digit_char(d)) == Some(d),
        d < 10 ==> hex_digit_value(((48 + d) as char)) == Some(d),
        10 <= d ==> hex_digit_value(((87 + d) as char)) == Some(d),
        10 <= d ==> hex_digit_value(((55 + d) as char)) == Some(d),
{
}

/// Written with `k` hexadecimal digits, any number below `16^k` reads back as
/// itself; the digits are `k` characters, none of them `_`.
pub proof fn lemma_hex_roundtrip(n: nat, k: nat)
    requires
        n < pow16(k),
    ensures
        spec_hex_digits(n, k).len() == k,
        hex_number(spec_hex_digits(n, k)) == Some(n),
        forall|i: int| 0 <= i < k ==> spec_hex_digits(n, k)[i] != '_',
    decreases k,
{
    if k == 0 {
    } else {
        let q = n / 16;
        let r = n % 16;
        let p = pow16((k - 1) as nat);
        assert(q < p && n == q * 16 + r && r < 16) by (nonlinear_arith)
            requires n < 16 * p, q == n / 16, r == n % 16;
        lemma_hex_roundtrip(q, (k - 1) as nat);
        lemma_hex_digit_values(r);
        let s = spec_hex_digits(n, k);
        assert(s.drop_last() =~= spec_hex_digits(q, (k - 1) as nat));
        assert forall|i: int| 0 <= i < k implies s[i] != '_' by {
            if i < k - 1 {
                assert(s[i] == spec_hex_digits(q, (k - 1) as nat)[i]);
            }
        }
    }
}

/// A position at which `m` occurs, with no earlier occurrence, is the first
/// occurrence.
pub proof fn lemma_first_occurrence_at(s: Seq<char>, m: Seq<char>, i: int)
    requires
        is_first_occurrence(s, m, i),
    ensures
        first_occurrence(s, m) == Some(i),
{
    let c = choose|c: int| is_first_occurrence(s, m, c);
    assert(c == i) by {
        if c < i {
            assert(!occurs_at(s, m, c));
        } else if c > i {
            assert(!occurs_at(s, m, i));
        }
    }
}

} // verus!
