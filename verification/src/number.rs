//! Finding the last number in a reply: the token grammar of `FinalNumberEquals`.
//!
//! A number token starts with an optional `-` or `+`, then a run of digits with at most one
//! decimal point, where a comma counts as a thousands separator only inside the integer part,
//! after a digit and before another digit. A token needs at least one digit. The text is scanned
//! from the left; after a token the scan resumes at its end, and where no token starts the scan
//! moves on by one character. The last token found is the answer, with its commas removed.
use vstd::prelude::*;

use crate::text::{chars_of, push_char};

verus! {

pub open spec fn is_digit(c: char) -> bool {
    '0' <= c && c <= '9'
}

/// 1 when `s[i]` is a sign, else 0.
pub open spec fn sign_len(s: Seq<char>, i: int) -> int {
    if 0 <= i < s.len() && (s[i] == '-' || s[i] == '+') {
        1
    } else {
        0
    }
}

/// The body of a token from position `j` on: where it ends, and whether it held a digit.
pub open spec fn scan_body(s: Seq<char>, j: int, saw_digit: bool, saw_dot: bool) -> (int, bool)
    decreases s.len() - j,
{
    if j < 0 || j >= s.len() {
        (j, saw_digit)
    } else if is_digit(s[j]) {
        scan_body(s, j + 1, true, saw_dot)
    } else if s[j] == ',' && !saw_dot && saw_digit && j + 1 < s.len() && is_digit(s[j + 1]) {
        scan_body(s, j + 1, saw_digit, saw_dot)
    } else if s[j] == '.' && !saw_dot {
        scan_body(s, j + 1, saw_digit, true)
    } else {
        (j, saw_digit)
    }
}

/// Where the token starting at `i` ends, if a token starts there.
pub open spec fn token_end(s: Seq<char>, i: int) -> Option<int> {
    let (e, d) = scan_body(s, i + sign_len(s, i), false, false);
    if d {
        Some(e)
    } else {
        None
    }
}

/// `t` without its commas.
pub open spec fn strip_commas(t: Seq<char>) -> Seq<char>
    decreases t.len(),
{
    if t.len() == 0 {
        t
    } else if t.last() == ',' {
        strip_commas(t.drop_last())
    } else {
        strip_commas(t.drop_last()).push(t.last())
    }
}

/// The last token of `s` found by a scan that starts at `i`, or `last` if the scan finds none.
pub open spec fn last_token_from(s: Seq<char>, i: int, last: Option<Seq<char>>) -> Option<
    Seq<char>,
>
    decreases s.len() - i,
{
    if i < 0 || i >= s.len() {
        last
    } else {
        match token_end(s, i) {
            Some(e) => if i < e <= s.len() {
                last_token_from(s, e, Some(strip_commas(s.subrange(i, e))))
            } else {
                last_token_from(s, i + 1, last)
            },
            None => last_token_from(s, i + 1, last),
        }
    }
}

/// The last number token in `s`, commas removed, or `None` when `s` holds no number.
pub open spec fn last_number_token(s: Seq<char>) -> Option<Seq<char>> {
    last_token_from(s, 0, None)
}

/// The view of an optional owned string.
pub open spec fn opt_text(o: Option<String>) -> Option<Seq<char>> {
    match o {
        Some(t) => Some(t@),
        None => None,
    }
}

/// The last number in `text`, as its token with thousands-separator commas removed (e.g.
/// `"-1024.50"` for `"the balance is -1,024.50"`), or `None` when there is none.
pub fn last_number(text: &str) -> (r: Option<String>)
    ensures
        opt_text(r) == last_number_token(text@),
{
    let cs = chars_of(text);
    let n = cs.len();
    let mut last: Option<String> = None;
    let mut i: usize = 0;
    while i < n
        invariant
            n == cs.len(),
            cs@ == text@,
            i <= n,
            last_token_from(cs@, i as int, opt_text(last)) == last_number_token(text@),
        decreases n - i,
    {
        let mut j: usize = i;
        if j < n && (cs[j] == '-' || cs[j] == '+') {
            j = j + 1;
        }
        let digits_start = j;
        assert(digits_start == i + sign_len(cs@, i as int));
        let mut saw_digit = false;
        let mut saw_dot = false;
        while j < n
            invariant_except_break
                n == cs.len(),
                digits_start <= j <= n,
                scan_body(cs@, j as int, saw_digit, saw_dot) == scan_body(
                    cs@,
                    digits_start as int,
                    false,
                    false,
                ),
            ensures
                digits_start <= j <= n,
                (j as int, saw_digit) == scan_body(cs@, digits_start as int, false, false),
            decreases n - j,
        {
            let c = cs[j];
            if '0' <= c && c <= '9' {
                saw_digit = true;
                j = j + 1;
            } else if c == ',' && !saw_dot && saw_digit && j + 1 < n && '0' <= cs[j + 1] && cs[j
                + 1] <= '9' {
                j = j + 1;
            } else if c == '.' && !saw_dot {
                saw_dot = true;
                j = j + 1;
            } else {
                break;
            }
        }
        if saw_digit && j > i {
            let mut token = String::new();
            let mut k: usize = i;
            while k < j
                invariant
                    i <= k <= j <= n,
                    n == cs.len(),
                    token@ == strip_commas(cs@.subrange(i as int, k as int)),
                decreases j - k,
            {
                assert(cs@.subrange(i as int, k + 1).drop_last() =~= cs@.subrange(
                    i as int,
                    k as int,
                ));
                if cs[k] != ',' {
                    push_char(&mut token, cs[k]);
                }
                k = k + 1;
            }
            last = Some(token);
            i = j;
        } else {
            i = i + 1;
        }
    }
    last
}

proof fn lemma_scan_bounds(s: Seq<char>, j: int, d: bool, dot: bool)
    requires
        0 <= j <= s.len(),
    ensures
        j <= scan_body(s, j, d, dot).0 <= s.len(),
        d ==> scan_body(s, j, d, dot).1,
    decreases s.len() - j,
{
    if j < s.len() {
        if is_digit(s[j]) {
            lemma_scan_bounds(s, j + 1, true, dot);
        } else if s[j] == ',' && !dot && d && j + 1 < s.len() && is_digit(s[j + 1]) {
            lemma_scan_bounds(s, j + 1, d, dot);
        } else if s[j] == '.' && !dot {
            lemma_scan_bounds(s, j + 1, d, true);
        }
    }
}

proof fn lemma_scan_no_digit(s: Seq<char>, j: int, dot: bool)
    requires
        forall|k: int| 0 <= k < s.len() ==> !is_digit(#[trigger] s[k]),
    ensures
        !scan_body(s, j, false, dot).1,
    decreases s.len() - j,
{
    if 0 <= j < s.len() {
        if s[j] == '.' && !dot {
            lemma_scan_no_digit(s, j + 1, true);
        }
    }
}

proof fn lemma_found_stays(s: Seq<char>, i: int, last: Option<Seq<char>>)
    requires
        last is Some,
    ensures
        last_token_from(s, i, last) is Some,
    decreases s.len() - i,
{
    if 0 <= i < s.len() {
        match token_end(s, i) {
            Some(e) => if i < e <= s.len() {
                lemma_found_stays(s, e, Some(strip_commas(s.subrange(i, e))));
            } else {
                lemma_found_stays(s, i + 1, last);
            },
            None => lemma_found_stays(s, i + 1, last),
        }
    }
}

proof fn lemma_none_without_digit(s: Seq<char>, i: int)
    requires
        forall|k: int| 0 <= k < s.len() ==> !is_digit(#[trigger] s[k]),
    ensures
        last_token_from(s, i, None) is None,
    decreases s.len() - i,
{
    if 0 <= i < s.len() {
        lemma_scan_no_digit(s, i + sign_len(s, i), false);
        assert(token_end(s, i) is None);
        lemma_none_without_digit(s, i + 1);
    }
}

proof fn lemma_found_before_digit(s: Seq<char>, i: int, p: int, last: Option<Seq<char>>)
    requires
        0 <= i <= p < s.len(),
        is_digit(s[p]),
    ensures
        last_token_from(s, i, last) is Some,
    decreases p - i,
{
    if i == p {
        assert(sign_len(s, p) == 0);
        lemma_scan_bounds(s, p + 1, true, false);
        assert(scan_body(s, p, false, false) == scan_body(s, p + 1, true, false));
        let e = scan_body(s, p + 1, true, false).0;
        assert(token_end(s, p) == Some(e));
        lemma_found_stays(s, e, Some(strip_commas(s.subrange(p, e))));
    } else {
        match token_end(s, i) {
            Some(e) => if i < e <= s.len() {
                lemma_found_stays(s, e, Some(strip_commas(s.subrange(i, e))));
            } else {
                lemma_found_before_digit(s, i + 1, p, last);
            },
            None => lemma_found_before_digit(s, i + 1, p, last),
        }
    }
}

/// A text holds a number exactly when it holds an ASCII digit: a lone sign, point or comma is
/// no number, and any digit starts or ends up inside one.
pub proof fn lemma_number_iff_digit(s: Seq<char>)
    ensures
        last_number_token(s) is None <==> forall|k: int| 0 <= k < s.len() ==> !is_digit(#[trigger] s[k]),
{
    if forall|k: int| 0 <= k < s.len() ==> !is_digit(#[trigger] s[k]) {
        lemma_none_without_digit(s, 0);
    } else {
        let p = choose|k: int| 0 <= k < s.len() && is_digit(#[trigger] s[k]);
        lemma_found_before_digit(s, 0, p, None);
    }
}

} // verus!
