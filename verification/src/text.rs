//! Small verified text helpers: decimal rendering of integers and substring
//! search over the character view of a string.
use vstd::prelude::*;

verus! {

/// The decimal digit character for `d`, which must lie in 0..10.
pub open spec fn digit_char(d: int) -> char {
    if d == 0 {
        '0'
    } else if d == 1 {
        '1'
    } else if d == 2 {
        '2'
    } else if d == 3 {
        '3'
    } else if d == 4 {
        '4'
    } else if d == 5 {
        '5'
    } else if d == 6 {
        '6'
    } else if d == 7 {
        '7'
    } else if d == 8 {
        '8'
    } else {
        '9'
    }
}

/// The usual decimal rendering of `n`, most significant digit first, with no
/// leading zeros (except for `n == 0`, rendered as "0").
pub open spec fn dec_digits(n: nat) -> Seq<char>
    decreases n,
{
    if n < 10 {
        seq![digit_char(n as int)]
    } else {
        dec_digits(n / 10) + seq![digit_char((n % 10) as int)]
    }
}

fn digit_str(d: u32) -> (s: &'static str)
    requires
        d < 10,
    ensures
        s@ == seq![digit_char(d as int)],
{
    proof {
        reveal_strlit("0");
        reveal_strlit("1");
        reveal_strlit("2");
        reveal_strlit("3");
        reveal_strlit("4");
        reveal_strlit("5");
        reveal_strlit("6");
        reveal_strlit("7");
        reveal_strlit("8");
        reveal_strlit("9");
    }
    if d == 0 {
        "0"
    } else if d == 1 {
        "1"
    } else if d == 2 {
        "2"
    } else if d == 3 {
        "3"
    } else if d == 4 {
        "4"
    } else if d == 5 {
        "5"
    } else if d == 6 {
        "6"
    } else if d == 7 {
        "7"
    } else if d == 8 {
        "8"
    } else {
        "9"
    }
}

/// Renders `n` in decimal.
pub fn u32_to_string(n: u32) -> (s: String)
    ensures
        s@ == dec_digits(n as nat),
    decreases n,
{
    if n < 10 {
        digit_str(n).to_owned()
    } else {
        let mut s = u32_to_string(n / 10);
        s.append(digit_str(n % 10));
        s
    }
}

/// The least index `j >= i` at which `pat` occurs in `text`, if any.
pub open spec fn find_from(text: Seq<char>, pat: Seq<char>, i: nat) -> Option<int>
    decreases text.len() + 1 - i,
{
    if i + pat.len() > text.len() {
        None
    } else if text.subrange(i as int, i + pat.len() as int) == pat {
        Some(i as int)
    } else {
        find_from(text, pat, (i + 1) as nat)
    }
}

/// Whether `pat` occurs in `text` starting at index `i`.
pub open spec fn matches_at(text: Seq<char>, pat: Seq<char>, i: int) -> bool {
    0 <= i && i + pat.len() <= text.len() && text.subrange(i, i + pat.len()) == pat
}

/// Compares `text[i..i+pat.len()]` with `pat`.
fn matches_here(text: &str, text_len: usize, pat: &str, pat_len: usize, i: usize) -> (b: bool)
    requires
        text_len == text@.len(),
        pat_len == pat@.len(),
        i + pat_len <= text_len,
    ensures
        b == matches_at(text@, pat@, i as int),
{
    let mut j: usize = 0;
    while j < pat_len
        invariant
            text_len == text@.len(),
            pat_len == pat@.len(),
            i + pat_len <= text_len,
            j <= pat_len,
            forall|k: int| 0 <= k < j ==> text@[i + k] == pat@[k],
        decreases pat_len - j,
    {
        if text.get_char(i + j) != pat.get_char(j) {
            assert(text@.subrange(i as int, i + pat_len)[j as int] != pat@[j as int]);
            return false;
        }
        j += 1;
    }
    assert(text@.subrange(i as int, i + pat_len) =~= pat@);
    true
}

/// The least index at which `pat` occurs in `text`, if any.
pub fn find_str(text: &str, pat: &str) -> (r: Option<usize>)
    ensures
        match r {
            Some(i) => find_from(text@, pat@, 0) == Some(i as int) && i + pat@.len()
                <= text@.len(),
            None => find_from(text@, pat@, 0) is None,
        },
{
    let n = text.unicode_len();
    let m = pat.unicode_len();
    if m > n {
        return None;
    }
    if m == 0 {
        assert(text@.subrange(0, 0) =~= pat@);
        return Some(0);
    }
    let mut i: usize = 0;
    while i <= n - m
        invariant
            n == text@.len(),
            m == pat@.len(),
            0 < m <= n,
            i <= n - m + 1,
            find_from(text@, pat@, 0) == find_from(text@, pat@, i as nat),
        decreases n - i,
    {
        if matches_here(text, n, pat, m, i) {
            return Some(i);
        }
        assert(find_from(text@, pat@, i as nat) == find_from(text@, pat@, (i + 1) as nat));
        i += 1;
    }
    None
}

} // verus!
