//! Decimal text of numbers, for messages and addresses.

use vstd::prelude::*;

verus! {

/// The character of decimal digit `d`.
pub open spec fn digit_char(d: nat) -> char {
    if d == 0 {
        '0'
    } else if d == 1 {
        '1'
    } else if d == 2 {
        '2'
    } else if d == 3 {
        '3'
    } else if d == 4 {
        '4'
    } else if d == 5 {
        '5'
    } else if d == 6 {
        '6'
    } else if d == 7 {
        '7'
    } else if d == 8 {
        '8'
    } else {
        '9'
    }
}

/// The decimal text of `n`, without leading zeros.
pub open spec fn decimal(n: nat) -> Seq<char>
    decreases n,
{
    if n < 10 {
        seq![digit_char(n)]
    } else {
        decimal(n / 10).push(digit_char(n % 10))
    }
}

fn digit_text(d: u64) -> (s: &'static str)
    requires
        d < 10,
    ensures
        s@ == seq![digit_char(d as nat)],
{
    let s = match d {
        0 => "0",
        1 => "1",
        2 => "2",
        3 => "3",
        4 => "4",
        5 => "5",
        6 => "6",
        7 => "7",
        8 => "8",
        _ => "9",
    };
    proof {
        reveal_strlit("0");
        reveal_strlit("1");
        reveal_strlit("2");
        reveal_strlit("3");
        reveal_strlit("4");
        reveal_strlit("5");
        reveal_strlit("6");
        reveal_strlit("7");
        reveal_strlit("8");
        reveal_strlit("9");
        assert(s@ =~= seq![digit_char(d as nat)]);
    }
    s
}

/// The decimal text of `n`.
pub fn decimal_string(n: u64) -> (s: String)
    ensures
        s@ == decimal(n as nat),
    decreases n,
{
    if n < 10 {
        String::from_str(digit_text(n))
    } else {
        let mut s = decimal_string(n / 10);
        s.append(digit_text(n % 10));
        s
    }
}

/// `prefix` followed by the decimal text of `n`.
pub fn text_with_number(prefix: &str, n: u64) -> (s: String)
    ensures
        s@ == prefix@ + decimal(n as nat),
{
    let mut s = String::from_str(prefix);
    let d = decimal_string(n);
    s.append(d.as_str());
    s
}

/// `c` with an ASCII capital letter made small.
pub open spec fn ascii_lower(c: char) -> char {
    if 'A' <= c && c <= 'Z' {
        ((c as u32) + 32) as char
    } else {
        c
    }
}

/// `s` with its ASCII capital letters made small.
pub open spec fn lowercase(s: Seq<char>) -> Seq<char> {
    s.map_values(|c: char| ascii_lower(c))
}

/// Whether `w` occurs in `s`.
pub open spec fn contains_text(s: Seq<char>, w: Seq<char>) -> bool {
    exists|i: int| 0 <= i && i + w.len() <= s.len() && #[trigger] s.subrange(i, i + w.len()) == w
}

/// Whether the text `s` of `n` characters holds `lo` from position `i`,
/// capitals counted as small letters; `up` spells `lo` in capitals.
fn matches_at(s: &str, n: usize, i: usize, lo: &str, up: &str, m: usize) -> (b: bool)
    requires
        n == s@.len(),
        m == lo@.len(),
        up@.len() == lo@.len(),
        i + m <= n,
        forall|k: int| 0 <= k < lo@.len() ==> 'a' <= #[trigger] lo@[k] && lo@[k] <= 'z' && (up@[k] as u32) == (lo@[k] as u32) - 32,
    ensures
        b == (lowercase(s@).subrange(i as int, i + m) == lo@),
{
    let mut k: usize = 0;
    while k < m
        invariant
            k <= m,
            n == s@.len(),
            m == lo@.len(),
            up@.len() == lo@.len(),
            i + m <= n,
            forall|j: int| 0 <= j < lo@.len() ==> 'a' <= #[trigger] lo@[j] && lo@[j] <= 'z' && (up@[j] as u32) == (lo@[j] as u32) - 32,
            forall|j: int| 0 <= j < k ==> ascii_lower(#[trigger] s@[i + j]) == lo@[j],
        decreases m - k,
    {
        let c = s.get_char(i + k);
        let l = lo.get_char(k);
        let u = up.get_char(k);
        if c != l && c != u {
            proof {
                let lc = lowercase(s@).subrange(i as int, i + m);
                assert(lc[k as int] == ascii_lower(c));
                if 'A' <= c && c <= 'Z' {
                    assert((c as u32) + 32 != l as u32);
                }
                assert(lc[k as int] != lo@[k as int]);
            }
            return false;
        }
        proof {
            if c == u {
                assert('A' <= c && c <= 'Z');
                assert(((c as u32) + 32) as char == l);
            }
            assert(ascii_lower(s@[i + k as int]) == lo@[k as int]);
        }
        k = k + 1;
    }
    proof {
        assert forall|j: int| 0 <= j < m implies lowercase(s@).subrange(i as int, i + m)[j] == lo@[j] by {
            assert(lowercase(s@)[i + j] == ascii_lower(s@[i + j]));
        }
        assert(lowercase(s@).subrange(i as int, i + m) =~= lo@);
    }
    true
}

/// Whether `s` holds `lo`, capitals counted as small letters; `lo` is
/// given in small letters and `up` spells it in capitals.
pub fn contains_ignoring_case(s: &str, lo: &str, up: &str) -> (b: bool)
    requires
        lo@.len() > 0,
        up@.len() == lo@.len(),
        forall|k: int| 0 <= k < lo@.len() ==> 'a' <= #[trigger] lo@[k] && lo@[k] <= 'z' && (up@[k] as u32) == (lo@[k] as u32) - 32,
    ensures
        b == contains_text(lowercase(s@), lo@),
{
    let n = s.unicode_len();
    let m = lo.unicode_len();
    if m > n {
        return false;
    }
    let mut i: usize = 0;
    let last = n - m;
    while i <= last
        invariant
            last == n - m,
            n == s@.len(),
            m == lo@.len(),
            0 < m <= n,
            i <= n - m + 1,
            up@.len() == lo@.len(),
            forall|k: int| 0 <= k < lo@.len() ==> 'a' <= #[trigger] lo@[k] && lo@[k] <= 'z' && (up@[k] as u32) == (lo@[k] as u32) - 32,
            forall|j: int| 0 <= j < i ==> #[trigger] lowercase(s@).subrange(j, j + m) != lo@,
        decreases last + 1 - i,
    {
        if matches_at(s, n, i, lo, up, m) {
            return true;
        }
        i = i + 1;
    }
    false
}

/// Whether `s` is `lo`, capitals counted as small letters; `lo` is given in
/// small letters and `up` spells it in capitals.
pub fn equals_ignoring_case(s: &str, lo: &str, up: &str) -> (b: bool)
    requires
        up@.len() == lo@.len(),
        forall|k: int| 0 <= k < lo@.len() ==> 'a' <= #[trigger] lo@[k] && lo@[k] <= 'z' && (up@[k] as u32) == (lo@[k] as u32) - 32,
    ensures
        b == (lowercase(s@) == lo@),
{
    let n = s.unicode_len();
    let m = lo.unicode_len();
    if n != m {
        proof {
            assert(lowercase(s@).len() != lo@.len());
        }
        return false;
    }
    let b = matches_at(s, n, 0, lo, up, m);
    proof {
        assert(lowercase(s@).subrange(0, m as int) =~= lowercase(s@));
    }
    b
}

/// Whether the text `s` is exactly `t`.
pub fn text_is(s: &str, t: &str) -> (b: bool)
    ensures
        b == (s@ == t@),
{
    let a = String::from_str(s);
    let c = String::from_str(t);
    a == c
}

/// Whether `w` occurs in `s`, character for character.
pub fn text_contains(s: &str, w: &str) -> (b: bool)
    ensures
        b == contains_text(s@, w@),
{
    let n = s.unicode_len();
    let m = w.unicode_len();
    if m > n {
        proof {
            assert forall|i: int| 0 <= i && i + w@.len() <= s@.len() implies #[trigger] s@.subrange(i, i + w@.len()) != w@ by {}
        }
        return false;
    }
    if m == 0 {
        proof {
            assert(s@.subrange(0int, 0int + w@.len()) =~= w@);
        }
        return true;
    }
    let mut i: usize = 0;
    while i <= n - m
        invariant
            n == s@.len(),
            m == w@.len(),
            1 <= m <= n,
            i <= n - m + 1,
            forall|j: int| 0 <= j < i ==> #[trigger] s@.subrange(j, j + m) != w@,
        decreases n - m + 1 - i,
    {
        let mut k: usize = 0;
        let mut same = true;
        while k < m && same
            invariant
                n == s@.len(),
                m == w@.len(),
                i + m <= n,
                k <= m,
                same ==> forall|t: int| 0 <= t < k ==> #[trigger] s@[i + t] == w@[t],
                !same ==> s@.subrange(i as int, i + m) != w@,
            decreases m - k + if same { 1int } else { 0int },
        {
            if s.get_char(i + k) != w.get_char(k) {
                proof {
                    assert(s@.subrange(i as int, i + m)[k as int] == s@[i + k]);
                }
                same = false;
            } else {
                k = k + 1;
            }
        }
        if same {
            proof {
                assert forall|t: int| 0 <= t < m implies #[trigger] s@.subrange(i as int, i + m)[t] == w@[t] by {
                    assert(s@[i + t] == w@[t]);
                }
                assert(s@.subrange(i as int, i + m) =~= w@);
            }
            return true;
        }
        i = i + 1;
    }
    false
}

} // verus!
