//! Ordering by text keys: the code-point lexicographic order of `str`, a stable insertion sort
//! over anything with a text key ([`SortKey`]), and file-name extension tests.
use vstd::prelude::*;

use crate::text::chars_of;

verus! {

broadcast use vstd::seq_lib::group_seq_properties;

/// `a` sorts strictly before `b`: at the first position where they differ `a` holds the smaller
/// character, or `a` is a proper prefix of `b`. Comparing UTF-8 bytes (as `str::cmp` does)
/// orders strings the same way.
pub open spec fn lex_lt(a: Seq<char>, b: Seq<char>) -> bool
    decreases a.len(),
{
    if a.len() == 0 {
        b.len() > 0
    } else if b.len() == 0 {
        false
    } else if a[0] != b[0] {
        a[0] < b[0]
    } else {
        lex_lt(a.drop_first(), b.drop_first())
    }
}

/// No text sorts before itself.
pub proof fn lemma_lex_lt_irreflexive(a: Seq<char>)
    ensures
        !lex_lt(a, a),
    decreases a.len(),
{
    if a.len() > 0 {
        lemma_lex_lt_irreflexive(a.drop_first());
    }
}

/// The order is transitive.
pub proof fn lemma_lex_lt_transitive(a: Seq<char>, b: Seq<char>, c: Seq<char>)
    requires
        lex_lt(a, b),
        lex_lt(b, c),
    ensures
        lex_lt(a, c),
    decreases a.len(),
{
    if a.len() > 0 && a[0] == b[0] && b[0] == c[0] {
        lemma_lex_lt_transitive(a.drop_first(), b.drop_first(), c.drop_first());
    }
}

/// Any two different texts are ordered one way or the other.
pub proof fn lemma_lex_lt_total(a: Seq<char>, b: Seq<char>)
    ensures
        lex_lt(a, b) || lex_lt(b, a) || a == b,
    decreases a.len(),
{
    if a.len() > 0 && b.len() > 0 && a[0] == b[0] {
        lemma_lex_lt_total(a.drop_first(), b.drop_first());
        if a.drop_first() == b.drop_first() {
            assert(a =~= seq![a[0]] + a.drop_first());
            assert(b =~= seq![b[0]] + b.drop_first());
        }
    } else if a.len() == 0 && b.len() == 0 {
        assert(a =~= b);
    }
}

/// Whether `a` sorts strictly before `b`.
pub fn text_lt(a: &str, b: &str) -> (r: bool)
    ensures
        r == lex_lt(a@, b@),
{
    let x = chars_of(a);
    let y = chars_of(b);
    let mut i: usize = 0;
    while i < x.len() && i < y.len() && x[i] == y[i]
        invariant
            x@ == a@,
            y@ == b@,
            i <= x.len(),
            i <= y.len(),
            lex_lt(a@, b@) == lex_lt(a@.skip(i as int), b@.skip(i as int)),
        decreases x.len() - i,
    {
        proof {
            let s = a@.skip(i as int);
            let t = b@.skip(i as int);
            assert(s.drop_first() =~= a@.skip(i + 1));
            assert(t.drop_first() =~= b@.skip(i + 1));
        }
        i = i + 1;
    }
    if i == x.len() {
        i < y.len()
    } else if i == y.len() {
        false
    } else {
        x[i] < y[i]
    }
}

/// Something sorted by a text key.
pub trait SortKey {
    /// The key, as characters.
    spec fn key(&self) -> Seq<char>;

    /// The key.
    fn key_text(&self) -> (r: &str)
        ensures
            r@ == self.key(),
    ;
}

impl SortKey for String {
    open spec fn key(&self) -> Seq<char> {
        self@
    }

    fn key_text(&self) -> (r: &str) {
        self.as_str()
    }
}

impl SortKey for (String, String) {
    open spec fn key(&self) -> Seq<char> {
        self.0@
    }

    fn key_text(&self) -> (r: &str) {
        self.0.as_str()
    }
}

/// `x` must come before `y`: its key is smaller (ascending) or larger (descending).
pub open spec fn goes_before<T: SortKey>(x: T, y: T, descending: bool) -> bool {
    if descending {
        lex_lt(y.key(), x.key())
    } else {
        lex_lt(x.key(), y.key())
    }
}

/// Where `x` goes in the sorted `s`: after every leading element it need not precede, so that
/// it follows the elements with an equal key.
pub open spec fn insert_pos<T: SortKey>(s: Seq<T>, x: T, descending: bool) -> nat
    decreases s.len(),
{
    if s.len() == 0 || goes_before(x, s[0], descending) {
        0
    } else {
        1 + insert_pos(s.drop_first(), x, descending)
    }
}

/// `v` sorted by key, stably: elements with equal keys keep their order.
pub open spec fn sorted_by_key<T: SortKey>(v: Seq<T>, descending: bool) -> Seq<T>
    decreases v.len(),
{
    if v.len() == 0 {
        v
    } else {
        let s = sorted_by_key(v.drop_last(), descending);
        s.insert(insert_pos(s, v.last(), descending) as int, v.last())
    }
}

/// No element of `s` must come before an earlier one.
pub open spec fn is_sorted<T: SortKey>(s: Seq<T>, descending: bool) -> bool {
    forall|i: int, j: int| 0 <= i < j < s.len() ==> !goes_before(#[trigger] s[j], #[trigger] s[i], descending)
}

proof fn lemma_goes_before_irreflexive<T: SortKey>(x: T, d: bool)
    ensures
        !goes_before(x, x, d),
{
    lemma_lex_lt_irreflexive(x.key());
}

proof fn lemma_goes_before_transitive<T: SortKey>(x: T, y: T, z: T, d: bool)
    requires
        goes_before(x, y, d),
        goes_before(y, z, d),
    ensures
        goes_before(x, z, d),
{
    if d {
        lemma_lex_lt_transitive(z.key(), y.key(), x.key());
    } else {
        lemma_lex_lt_transitive(x.key(), y.key(), z.key());
    }
}

proof fn lemma_insert_pos<T: SortKey>(s: Seq<T>, x: T, d: bool, k: int)
    requires
        0 <= k <= s.len(),
        forall|j: int| 0 <= j < k ==> !goes_before(x, #[trigger] s[j], d),
        k == s.len() || goes_before(x, s[k], d),
    ensures
        insert_pos(s, x, d) == k,
    decreases k,
{
    if k > 0 {
        let u = s.drop_first();
        assert forall|j: int| 0 <= j < k - 1 implies !goes_before(x, #[trigger] u[j], d) by {
            assert(u[j] == s[j + 1]);
        }
        lemma_insert_pos(u, x, d, k - 1);
    }
}

proof fn lemma_insert_pos_facts<T: SortKey>(s: Seq<T>, x: T, d: bool)
    ensures
        insert_pos(s, x, d) <= s.len(),
        forall|j: int| 0 <= j < insert_pos(s, x, d) ==> !goes_before(x, #[trigger] s[j], d),
        insert_pos(s, x, d) < s.len() ==> goes_before(x, s[insert_pos(s, x, d) as int], d),
    decreases s.len(),
{
    if s.len() > 0 && !goes_before(x, s[0], d) {
        let u = s.drop_first();
        lemma_insert_pos_facts(u, x, d);
        assert forall|j: int| 0 <= j < insert_pos(s, x, d) implies !goes_before(
            x,
            #[trigger] s[j],
            d,
        ) by {
            if j > 0 {
                assert(s[j] == u[j - 1]);
            }
        }
    }
}

/// Inserting where [`insert_pos`] says keeps a sorted sequence sorted and adds `x` to its
/// elements.
proof fn lemma_insert_sorted<T: SortKey>(s: Seq<T>, x: T, d: bool)
    requires
        is_sorted(s, d),
    ensures
        is_sorted(s.insert(insert_pos(s, x, d) as int, x), d),
        s.insert(insert_pos(s, x, d) as int, x).to_multiset() =~= s.to_multiset().insert(x),
{
    let p = insert_pos(s, x, d) as int;
    lemma_insert_pos_facts(s, x, d);
    let t = s.insert(p, x);
    s.insert_ensures(p, x);
    assert forall|i: int, j: int| 0 <= i < j < t.len() implies !goes_before(
        #[trigger] t[j],
        #[trigger] t[i],
        d,
    ) by {
        if j < p {
            assert(t[i] == s[i] && t[j] == s[j]);
        } else if j == p {
            assert(t[i] == s[i]);
        } else if i == p {
            let f = s[j - 1];
            assert(t[j] == f);
            if goes_before(f, x, d) {
                if j - 1 == p {
                    lemma_goes_before_transitive(f, x, s[p], d);
                    lemma_goes_before_irreflexive(f, d);
                } else {
                    lemma_goes_before_transitive(f, x, s[p], d);
                }
            }
        } else if i < p {
            assert(t[i] == s[i] && t[j] == s[j - 1]);
        } else {
            assert(t[i] == s[i - 1] && t[j] == s[j - 1]);
        }
    }
    assert(t.remove(p) =~= s);
    t.to_multiset_ensures();
    assert(t[p] == x);
    assert(t.to_multiset().count(x) > 0) by {
        assert(t.contains(x));
    }
}

/// The stable sort is sorted and holds the same elements as its input.
pub proof fn lemma_sorted_by_key<T: SortKey>(v: Seq<T>, d: bool)
    ensures
        is_sorted(sorted_by_key(v, d), d),
        sorted_by_key(v, d).to_multiset() =~= v.to_multiset(),
    decreases v.len(),
{
    if v.len() > 0 {
        let u = v.drop_last();
        lemma_sorted_by_key(u, d);
        lemma_insert_sorted(sorted_by_key(u, d), v.last(), d);
        u.to_multiset_ensures();
        assert(u.push(v.last()) =~= v);
    }
}

/// `v` stably sorted by key, ascending or descending.
pub fn stable_sort<T: SortKey>(v: Vec<T>, descending: bool) -> (r: Vec<T>)
    ensures
        r@ == sorted_by_key(v@, descending),
        is_sorted(r@, descending),
        r@.to_multiset() == v@.to_multiset(),
{
    let ghost orig = v@;
    let mut rest = v;
    let mut out: Vec<T> = Vec::new();
    let mut i: usize = 0;
    let n = rest.len();
    while 0 < rest.len()
        invariant
            n == orig.len(),
            i + rest@.len() == n,
            rest@ == orig.skip(i as int),
            out@ == sorted_by_key(orig.take(i as int), descending),
        decreases rest@.len(),
    {
        let x = rest.remove(0);
        let mut j: usize = 0;
        while j < out.len() && !before(&x, &out[j], descending)
            invariant
                j <= out.len(),
                forall|k: int| 0 <= k < j ==> !goes_before(x, #[trigger] out@[k], descending),
            decreases out.len() - j,
        {
            j = j + 1;
        }
        proof {
            lemma_insert_pos(out@, x, descending, j as int);
            assert(orig.take(i + 1).drop_last() =~= orig.take(i as int));
            assert(x == orig[i as int]);
            assert(rest@ =~= orig.skip(i + 1));
        }
        out.insert(j, x);
        i = i + 1;
    }
    assert(orig.take(n as int) =~= orig);
    proof {
        lemma_sorted_by_key(orig, descending);
    }
    out
}

/// Whether `x` must come before `y`.
fn before<T: SortKey>(x: &T, y: &T, descending: bool) -> (r: bool)
    ensures
        r == goes_before(*x, *y, descending),
{
    if descending {
        text_lt(y.key_text(), x.key_text())
    } else {
        text_lt(x.key_text(), y.key_text())
    }
}

/// The ASCII lowercase of the character code `c` (other codes unchanged).
pub open spec fn ascii_lower(c: char) -> int {
    if 'A' <= c && c <= 'Z' {
        c as u32 + 32
    } else {
        c as u32 as int
    }
}

/// `a` and `b` are equal once ASCII letters are lowercased (`str::eq_ignore_ascii_case`).
pub open spec fn ascii_eq_ignore_case(a: Seq<char>, b: Seq<char>) -> bool {
    a.len() == b.len() && forall|i: int|
        0 <= i < a.len() ==> ascii_lower(#[trigger] a[i]) == ascii_lower(b[i])
}

/// The extension of a file name, as `Path::extension` takes it: the text after the last `.`,
/// provided that `.` is not the name's first character.
pub open spec fn has_extension(name: Seq<char>, ext: Seq<char>) -> bool {
    exists|k: int|
        #![trigger name[k]]
        0 < k < name.len() && name[k] == '.' && (forall|j: int|
            k < j < name.len() ==> #[trigger] name[j] != '.') && ascii_eq_ignore_case(
            name.skip(k + 1),
            ext,
        )
}

fn lower_code(c: char) -> (r: u32)
    ensures
        r == ascii_lower(c),
{
    if 'A' <= c && c <= 'Z' {
        c as u32 + 32
    } else {
        c as u32
    }
}

/// Whether the file `name` has the extension `ext`, ignoring ASCII case.
pub fn extension_is(name: &str, ext: &str) -> (r: bool)
    ensures
        r == has_extension(name@, ext@),
{
    let cs = chars_of(name);
    let es = chars_of(ext);
    // Find the last `.`.
    let mut k: usize = cs.len();
    while k > 0 && cs[k - 1] != '.'
        invariant
            cs@ == name@,
            k <= cs.len(),
            forall|j: int| k <= j < cs.len() ==> #[trigger] cs@[j] != '.',
        decreases k,
    {
        k = k - 1;
    }
    if k <= 1 {
        // No `.`, or only a leading one.
        proof {
            assert forall|d: int|
                0 < d < name@.len() && #[trigger] name@[d] == '.' implies !(forall|j: int|
                d < j < name@.len() ==> #[trigger] name@[j] != '.') by {
                if k == 1 {
                    assert(d >= 1);
                    if d > 0 {
                        assert(cs@[d] == '.');
                    }
                }
            }
        }
        return false;
    }
    let dot = k - 1;
    let tail_len = cs.len() - k;
    if tail_len != es.len() {
        proof {
            assert forall|d: int|
                0 < d < name@.len() && #[trigger] name@[d] == '.' && (forall|j: int|
                    d < j < name@.len() ==> #[trigger] name@[j] != '.') implies d == dot by {
                if d < dot {
                    assert(name@[dot as int] == '.');
                }
            }
        }
        return false;
    }
    let mut i: usize = 0;
    while i < tail_len
        invariant
            cs@ == name@,
            es@ == ext@,
            k + tail_len == cs.len(),
            tail_len == es.len(),
            i <= tail_len,
            1 < k,
            dot == k - 1,
            cs@[dot as int] == '.',
            forall|j: int| k <= j < cs.len() ==> #[trigger] cs@[j] != '.',
            forall|j: int| 0 <= j < i ==> ascii_lower(#[trigger] cs@[k + j]) == ascii_lower(es@[j]),
        decreases tail_len - i,
    {
        if lower_code(cs[k + i]) != lower_code(es[i]) {
            proof {
                assert forall|d: int|
                    0 < d < name@.len() && #[trigger] name@[d] == '.' && (forall|j: int|
                        d < j < name@.len() ==> #[trigger] name@[j] != '.') implies !ascii_eq_ignore_case(
                    name@.skip(d + 1),
                    ext@,
                ) by {
                    if d < dot {
                        assert(name@[dot as int] == '.');
                    } else if d > dot {
                    } else {
                        assert(name@.skip(d + 1)[i as int] == cs@[k + i]);
                    }
                }
            }
            return false;
        }
        i = i + 1;
    }
    proof {
        assert(name@[dot as int] == '.');
        assert forall|j: int| 0 <= j < name@.skip(k as int).len() implies ascii_lower(
            #[trigger] name@.skip(k as int)[j],
        ) == ascii_lower(ext@[j]) by {
            assert(name@.skip(k as int)[j] == cs@[k + j]);
        }
        assert(ascii_eq_ignore_case(name@.skip(dot + 1), ext@));
    }
    true
}

/// The elements of `v` whose key has the extension `ext`, in order.
pub open spec fn with_extension<T: SortKey>(v: Seq<T>, ext: Seq<char>) -> Seq<T> {
    v.filter(|x: T| has_extension(x.key(), ext))
}

/// The elements of `v` whose key has the extension `ext` (ignoring ASCII case), in order.
pub fn keep_extension<T: SortKey>(v: Vec<T>, ext: &str) -> (r: Vec<T>)
    ensures
        r@ == with_extension(v@, ext@),
{
    let ghost orig = v@;
    let ghost pred = |x: T| has_extension(x.key(), ext@);
    let mut rest = v;
    let mut out: Vec<T> = Vec::new();
    let ghost mut i: int = 0;
    while 0 < rest.len()
        invariant
            0 <= i <= orig.len(),
            rest@ == orig.skip(i),
            out@ == orig.take(i).filter(pred),
            pred == (|x: T| has_extension(x.key(), ext@)),
        decreases rest@.len(),
    {
        let x = rest.remove(0);
        proof {
            assert(x == orig[i]);
            assert(orig.take(i + 1) =~= orig.take(i).push(x));
            orig.take(i).lemma_filter_push(x, pred);
            assert(rest@ =~= orig.skip(i + 1));
            i = i + 1;
        }
        if extension_is(x.key_text(), ext) {
            out.push(x);
        }
    }
    assert(orig.take(i) =~= orig);
    out
}

} // verus!
