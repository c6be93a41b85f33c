//! Persistence of a run: where it goes ([`Persist`]), the [`RunRecord`] built for it, and the
//! filesystem-safe file name it is written under.
use vstd::prelude::*;

use crate::report::{EvalReport, RunRecord};
use crate::text::{chars_of, digit_char, push_char};

verus! {

/// std `PathBuf::clone`: a copy of the path, equal to it.
pub assume_specification[ <std::path::PathBuf as Clone>::clone ](p: &std::path::PathBuf) -> (r:
    std::path::PathBuf)
    ensures
        r == *p,
;

/// Where and how to persist a run. Built through the `RunMeta` builder.
#[derive(Debug, Clone)]
pub struct Persist {
    /// The directory the per-run JSON and `report.html` are written to.
    pub results_dir: std::path::PathBuf,
    /// The model / grouping key recorded on the run, also used (slugged) in the file name.
    pub model: String,
    /// The backend kind shown in the report; empty means "use the report's backend label".
    pub backend: String,
    /// The case directory recorded on the run; may be empty.
    pub cases_dir: String,
}

impl Persist {
    /// A target writing into `results_dir` and recording `model`; backend kind and cases dir
    /// start empty.
    pub fn new(results_dir: std::path::PathBuf, model: String) -> (r: Self)
        ensures
            r.results_dir == results_dir,
            r.model == model,
            r.backend@.len() == 0,
            r.cases_dir@.len() == 0,
    {
        Persist { results_dir, model, backend: String::new(), cases_dir: String::new() }
    }
}

/// A character kept as is in a slug: ASCII letters and digits, `.`, `_` and `-`.
pub open spec fn slug_safe(c: char) -> bool {
    ('a' <= c && c <= 'z') || ('A' <= c && c <= 'Z') || ('0' <= c && c <= '9') || c == '.' || c
        == '_' || c == '-'
}

/// Every character of `s` replaced by `-` unless it is slug-safe.
pub open spec fn replace_unsafe(s: Seq<char>) -> Seq<char> {
    s.map_values(|c: char| if slug_safe(c) { c } else { '-' })
}

/// `t` with every run of `-` collapsed to one `-`.
pub open spec fn collapse_dashes(t: Seq<char>) -> Seq<char>
    decreases t.len(),
{
    if t.len() == 0 {
        t
    } else {
        let p = collapse_dashes(t.drop_last());
        if t.last() == '-' && p.len() > 0 && p.last() == '-' {
            p
        } else {
            p.push(t.last())
        }
    }
}

/// The number of leading `-` of `t`.
pub open spec fn leading_dashes(t: Seq<char>) -> nat
    decreases t.len(),
{
    if t.len() > 0 && t[0] == '-' {
        1 + leading_dashes(t.drop_first())
    } else {
        0
    }
}

/// `t` without leading and trailing `-`.
pub open spec fn trim_dashes(t: Seq<char>) -> Seq<char> {
    let u = t.skip(leading_dashes(t) as int);
    u.take(u.len() - leading_dashes(u.reverse()))
}

/// The slug of a model label: unsafe characters replaced by `-`, runs of `-` collapsed,
/// leading and trailing `-` trimmed, and `model` when nothing is left.
pub open spec fn slug_of(s: Seq<char>) -> Seq<char> {
    let t = trim_dashes(collapse_dashes(replace_unsafe(s)));
    if t.len() == 0 {
        seq!['m', 'o', 'd', 'e', 'l']
    } else {
        t
    }
}

/// A file name that is safe to use as is: non-empty, only slug-safe characters, no `-` at
/// either end and never two `-` in a row.
pub open spec fn is_safe_name(t: Seq<char>) -> bool {
    &&& t.len() > 0
    &&& forall|i: int| 0 <= i < t.len() ==> slug_safe(#[trigger] t[i])
    &&& t[0] != '-'
    &&& t.last() != '-'
    &&& forall|i: int| 0 <= i < t.len() - 1 ==> !(#[trigger] t[i] == '-' && t[i + 1] == '-')
}

fn is_slug_safe(c: char) -> (r: bool)
    ensures
        r == slug_safe(c),
{
    ('a' <= c && c <= 'z') || ('A' <= c && c <= 'Z') || ('0' <= c && c <= '9') || c == '.' || c
        == '_' || c == '-'
}

proof fn lemma_leading_dashes(t: Seq<char>, k: int)
    requires
        0 <= k <= t.len(),
        forall|j: int| 0 <= j < k ==> #[trigger] t[j] == '-',
        k == t.len() || t[k] != '-',
    ensures
        leading_dashes(t) == k,
    decreases k,
{
    if k > 0 {
        let u = t.drop_first();
        assert forall|j: int| 0 <= j < k - 1 implies #[trigger] u[j] == '-' by {
            assert(u[j] == t[j + 1]);
        }
        lemma_leading_dashes(u, k - 1);
    }
}

/// Facts about `collapse_dashes` of a replaced text: its characters are slug-safe and it never
/// holds two `-` in a row.
proof fn lemma_collapse_props(t: Seq<char>)
    requires
        forall|i: int| 0 <= i < t.len() ==> slug_safe(#[trigger] t[i]),
    ensures
        forall|i: int| 0 <= i < collapse_dashes(t).len() ==> slug_safe(#[trigger] collapse_dashes(t)[i]),
        forall|i: int|
            0 <= i < collapse_dashes(t).len() - 1 ==> !(#[trigger] collapse_dashes(t)[i] == '-'
                && collapse_dashes(t)[i + 1] == '-'),
        t.len() > 0 ==> collapse_dashes(t).len() > 0 && collapse_dashes(t).last() == t.last(),
    decreases t.len(),
{
    if t.len() > 0 {
        let u = t.drop_last();
        assert forall|i: int| 0 <= i < u.len() implies slug_safe(#[trigger] u[i]) by {
            assert(u[i] == t[i]);
        }
        lemma_collapse_props(u);
        let p = collapse_dashes(u);
        let r = collapse_dashes(t);
        assert(slug_safe(t[t.len() - 1]));
        if !(t.last() == '-' && p.len() > 0 && p.last() == '-') {
            assert(r == p.push(t.last()));
            assert forall|i: int| 0 <= i < r.len() implies slug_safe(#[trigger] r[i]) by {
                if i < p.len() {
                    assert(r[i] == p[i]);
                }
            }
            assert forall|i: int| 0 <= i < r.len() - 1 implies !(#[trigger] r[i] == '-' && r[i
                + 1] == '-') by {
                assert(r[i] == p[i]);
                if i + 1 < p.len() {
                    assert(r[i + 1] == p[i + 1]);
                }
            }
        }
    }
}

/// The slug of `model`: a filesystem-safe name for the results file.
pub fn slug(model: &str) -> (r: String)
    ensures
        r@ == slug_of(model@),
        is_safe_name(r@),
{
    let cs = chars_of(model);
    // Replace and collapse in one pass.
    let mut out: Vec<char> = Vec::new();
    let mut last_dash = false;
    let mut i: usize = 0;
    while i < cs.len()
        invariant
            cs@ == model@,
            i <= cs.len(),
            out@ == collapse_dashes(replace_unsafe(model@.take(i as int))),
            last_dash == (out@.len() > 0 && out@.last() == '-'),
        decreases cs.len() - i,
    {
        let c = cs[i];
        let d = if is_slug_safe(c) {
            c
        } else {
            '-'
        };
        proof {
            let t = replace_unsafe(model@.take(i + 1));
            assert(t.drop_last() =~= replace_unsafe(model@.take(i as int)));
            assert(t.last() == d);
        }
        if !(d == '-' && last_dash) {
            out.push(d);
            last_dash = d == '-';
        }
        i = i + 1;
    }
    assert(model@.take(cs.len() as int) =~= model@);
    let ghost col = out@;
    proof {
        let rep = replace_unsafe(model@);
        assert forall|k: int| 0 <= k < rep.len() implies slug_safe(#[trigger] rep[k]) by {}
        lemma_collapse_props(rep);
    }
    // Trim dashes at both ends.
    let mut lo: usize = 0;
    while lo < out.len() && out[lo] == '-'
        invariant
            lo <= out.len(),
            forall|j: int| 0 <= j < lo ==> #[trigger] out@[j] == '-',
        decreases out.len() - lo,
    {
        lo = lo + 1;
    }
    proof {
        lemma_leading_dashes(col, lo as int);
    }
    let ghost u = col.skip(lo as int);
    let mut hi: usize = out.len();
    while hi > lo && out[hi - 1] == '-'
        invariant
            lo <= hi <= out.len(),
            forall|j: int| hi <= j < out.len() ==> #[trigger] out@[j] == '-',
        decreases hi,
    {
        hi = hi - 1;
    }
    proof {
        let ur = u.reverse();
        let k = (out.len() - hi) as int;
        assert forall|j: int| 0 <= j < k implies #[trigger] ur[j] == '-' by {
            assert(ur[j] == u[u.len() - 1 - j]);
            assert(u[u.len() - 1 - j] == col[out.len() - 1 - j]);
        }
        if k < ur.len() {
            assert(ur[k] == u[u.len() - 1 - k]);
            assert(u[u.len() - 1 - k] == col[hi - 1]);
        }
        lemma_leading_dashes(ur, k);
    }
    let mut r = String::new();
    if hi == lo {
        proof {
            reveal_strlit("model");
        }
        r = String::from_str("model");
        assert(r@ =~= seq!['m', 'o', 'd', 'e', 'l']);
        assert(is_safe_name(r@)) by {
            assert(r@[0] == 'm' && r@[1] == 'o' && r@[2] == 'd' && r@[3] == 'e' && r@[4] == 'l');
        }
    } else {
        let mut k: usize = lo;
        while k < hi
            invariant
                lo <= k <= hi <= out.len(),
                r@ == out@.subrange(lo as int, k as int),
            decreases hi - k,
        {
            push_char(&mut r, out[k]);
            k = k + 1;
            assert(r@ =~= out@.subrange(lo as int, k as int));
        }
        assert(trim_dashes(col) =~= col.subrange(lo as int, hi as int));
        assert forall|j: int| 0 <= j < r@.len() - 1 implies !(#[trigger] r@[j] == '-' && r@[j + 1]
            == '-') by {
            assert(r@[j] == col[lo + j] && r@[j + 1] == col[lo + j + 1]);
        }
    }
    r
}

/// The results file name of a record: `{slug(model)}_{timestamp_file}.json`.
pub open spec fn record_file_name_text(r: RunRecord) -> Seq<char> {
    slug_of(r.model@) + seq!['_'] + r.timestamp_file@ + seq!['.', 'j', 's', 'o', 'n']
}

/// The file name a record is saved under: `{slug(model)}_{timestamp_file}.json`.
pub fn record_file_name(record: &RunRecord) -> (r: String)
    ensures
        r@ == record_file_name_text(*record),
{
    let mut r = slug(record.model.as_str());
    r.append("_");
    r.append(record.timestamp_file.as_str());
    r.append(".json");
    proof {
        reveal_strlit("_");
        reveal_strlit(".json");
    }
    r
}

/// The record of a finished run: `model`, the two timestamps and `cases_dir` as given, the
/// backend kind (or the report's backend label when the kind is empty), and the report's
/// system prompt copied to the top level next to the report itself.
pub fn record_from_parts(
    model: String,
    backend_kind: String,
    cases_dir: String,
    report: EvalReport,
    timestamp_display: String,
    timestamp_file: String,
) -> (r: RunRecord)
    ensures
        r.model == model,
        r.timestamp_display == timestamp_display,
        r.timestamp_file == timestamp_file,
        r.cases_dir == cases_dir,
        r.backend@ == (if backend_kind@.len() == 0 {
            report.backend@
        } else {
            backend_kind@
        }),
        r.system_prompt@ == report.system_prompt@,
        r.report == report,
{
    let backend = if backend_kind.as_str().is_empty() {
        report.backend.clone()
    } else {
        backend_kind
    };
    let system_prompt = report.system_prompt.clone();
    RunRecord {
        model,
        timestamp_display,
        timestamp_file,
        backend,
        cases_dir,
        system_prompt,
        report,
    }
}

/// The sortable, filesystem-safe form of a display stamp: `YYYY-MM-DD HH:MM:SS` becomes
/// `YYYYMMDD-HHMMSS` (every `-` and `:` dropped, the space turned into `-`).
pub open spec fn file_stamp_of(display: Seq<char>) -> Seq<char>
    decreases display.len(),
{
    if display.len() == 0 {
        Seq::empty()
    } else {
        let c = display.last();
        file_stamp_of(display.drop_last()) + if c == '-' || c == ':' {
            Seq::<char>::empty()
        } else if c == ' ' {
            seq!['-']
        } else {
            seq![c]
        }
    }
}

/// The lowercase hexadecimal digit for `n` (`n < 16`).
pub open spec fn hex_digit(n: nat) -> char {
    if n < 10 {
        digit_char(n)
    } else if n == 10 {
        'a'
    } else if n == 11 {
        'b'
    } else if n == 12 {
        'c'
    } else if n == 13 {
        'd'
    } else if n == 14 {
        'e'
    } else {
        'f'
    }
}

/// Byte `i` of the version-4 UUID made from the random bytes `b`: byte 6 carries the version
/// (`4` in its high nibble) and byte 8 the variant (`10` in its two high bits); the others are
/// the random bytes themselves.
pub open spec fn uuid_byte(b: Seq<u8>, i: int) -> nat {
    if i == 6 {
        (b[6] % 16 + 64) as nat
    } else if i == 8 {
        (b[8] % 64 + 128) as nat
    } else {
        b[i] as nat
    }
}

/// The version-4 UUID made from the 16 random bytes `b`, as 32 lowercase hex digits with no
/// dashes (the "simple" form), two digits per byte, high nibble first.
pub open spec fn uuid_v4_hex(b: Seq<u8>) -> Seq<char> {
    Seq::new(
        32,
        |k: int|
            if k % 2 == 0 {
                hex_digit(uuid_byte(b, k / 2) / 16)
            } else {
                hex_digit(uuid_byte(b, k / 2) % 16)
            },
    )
}

/// The file stamp of a run shown as `display` and told apart by the random bytes `b`:
/// `YYYYMMDD-HHMMSS-{uuid}`.
pub open spec fn run_file_stamp(display: Seq<char>, b: Seq<u8>) -> Seq<char> {
    file_stamp_of(display) + seq!['-'] + uuid_v4_hex(b)
}

/// The suffix of every file stamp is a version-4 UUID: 32 lowercase hex digits, a `4` at
/// position 12 and one of `8`, `9`, `a`, `b` at position 16.
pub proof fn lemma_uuid_v4_shape(b: Seq<u8>)
    requires
        b.len() == 16,
    ensures
        uuid_v4_hex(b).len() == 32,
        forall|k: int|
            0 <= k < 32 ==> {
                let c = #[trigger] uuid_v4_hex(b)[k];
                ('0' <= c && c <= '9') || ('a' <= c && c <= 'f')
            },
        uuid_v4_hex(b)[12] == '4',
        uuid_v4_hex(b)[16] == '8' || uuid_v4_hex(b)[16] == '9' || uuid_v4_hex(b)[16] == 'a'
            || uuid_v4_hex(b)[16] == 'b',
{
    assert forall|k: int| 0 <= k < 32 implies {
        let c = #[trigger] uuid_v4_hex(b)[k];
        ('0' <= c && c <= '9') || ('a' <= c && c <= 'f')
    } by {
        let v = uuid_byte(b, k / 2);
        assert(v < 256);
        assert(v / 16 < 16);
    }
    assert(uuid_byte(b, 6) / 16 == 4);
    let v8 = uuid_byte(b, 8);
    assert(128 <= v8 < 192);
    assert(8 <= v8 / 16 < 12);
}

fn hex_digit_of(n: u8) -> (c: char)
    requires
        n < 16,
    ensures
        c == hex_digit(n as nat),
{
    if n == 0 { '0' } else if n == 1 { '1' } else if n == 2 { '2' } else if n == 3 { '3' }
    else if n == 4 { '4' } else if n == 5 { '5' } else if n == 6 { '6' } else if n == 7 { '7' }
    else if n == 8 { '8' } else if n == 9 { '9' } else if n == 10 { 'a' } else if n == 11 { 'b' }
    else if n == 12 { 'c' } else if n == 13 { 'd' } else if n == 14 { 'e' } else { 'f' }
}

/// The file stamp of a run: `display` (`YYYY-MM-DD HH:MM:SS`) as `YYYYMMDD-HHMMSS`, then `-` and
/// the version-4 UUID made from `random`, so two runs stamped in the same second get different
/// file names.
pub fn file_stamp(display: &str, random: &[u8; 16]) -> (r: String)
    ensures
        r@ == run_file_stamp(display@, random@),
{
    let cs = chars_of(display);
    let mut r = String::new();
    let mut i: usize = 0;
    while i < cs.len()
        invariant
            cs@ == display@,
            i <= cs.len(),
            r@ == file_stamp_of(display@.take(i as int)),
        decreases cs.len() - i,
    {
        let c = cs[i];
        assert(display@.take(i + 1).drop_last() =~= display@.take(i as int));
        if c == ' ' {
            push_char(&mut r, '-');
        } else if c != '-' && c != ':' {
            push_char(&mut r, c);
        }
        i = i + 1;
        assert(r@ =~= file_stamp_of(display@.take(i as int)));
    }
    assert(display@.take(cs.len() as int) =~= display@);
    push_char(&mut r, '-');
    let ghost head = r@;
    let mut k: usize = 0;
    while k < 16
        invariant
            k <= 16,
            random@.len() == 16,
            r@ == head + uuid_v4_hex(random@).take(2 * k as int),
        decreases 16 - k,
    {
        let b = random[k];
        let v: u8 = if k == 6 {
            b % 16 + 64
        } else if k == 8 {
            b % 64 + 128
        } else {
            b
        };
        assert(v as nat == uuid_byte(random@, k as int));
        push_char(&mut r, hex_digit_of(v / 16));
        push_char(&mut r, hex_digit_of(v % 16));
        assert((2 * k) / 2 == k && (2 * k + 1) / 2 == k && (2 * k) % 2 == 0 && (2 * k + 1) % 2
            == 1);
        assert(r@ =~= head + uuid_v4_hex(random@).take(2 * (k + 1) as int));
        k = k + 1;
    }
    assert(uuid_v4_hex(random@).take(32) =~= uuid_v4_hex(random@));
    r
}

/// The record of a run finished at local time `timestamp_display` (`YYYY-MM-DD HH:MM:SS`) and
/// told apart by the 16 `random` bytes: as [`record_from_parts`], with the file stamp
/// `YYYYMMDD-HHMMSS-{uuid v4}` derived from both. The stamp is the results file name and the
/// upload dedup key, so runs in the same second stay apart.
pub fn build_record(
    model: String,
    backend_kind: String,
    cases_dir: String,
    report: EvalReport,
    timestamp_display: String,
    random: [u8; 16],
) -> (r: RunRecord)
    ensures
        r.model == model,
        r.cases_dir == cases_dir,
        r.backend@ == (if backend_kind@.len() == 0 {
            report.backend@
        } else {
            backend_kind@
        }),
        r.system_prompt@ == report.system_prompt@,
        r.report == report,
        r.timestamp_display == timestamp_display,
        r.timestamp_file@ == run_file_stamp(timestamp_display@, random@),
{
    let file = file_stamp(timestamp_display.as_str(), &random);
    record_from_parts(model, backend_kind, cases_dir, report, timestamp_display, file)
}

/// A text with no two `-` in a row is its own dash-collapse.
proof fn lemma_collapse_identity(t: Seq<char>)
    requires
        forall|i: int| 0 <= i < t.len() - 1 ==> !(#[trigger] t[i] == '-' && t[i + 1] == '-'),
    ensures
        collapse_dashes(t) == t,
    decreases t.len(),
{
    if t.len() > 0 {
        let u = t.drop_last();
        assert forall|i: int| 0 <= i < u.len() - 1 implies !(#[trigger] u[i] == '-' && u[i + 1]
            == '-') by {
            assert(u[i] == t[i] && u[i + 1] == t[i + 1]);
        }
        lemma_collapse_identity(u);
        if u.len() > 0 {
            assert(!(t[u.len() - 1] == '-' && t[u.len() as int] == '-'));
        }
        assert(u.push(t.last()) =~= t);
    }
}

/// A slug is its own slug: slugging a file name twice changes nothing.
pub proof fn lemma_slug_idempotent(s: Seq<char>)
    ensures
        slug_of(slug_of(s)) == slug_of(s),
{
    let t = slug_of(s);
    lemma_slug_is_safe(s);
    assert(replace_unsafe(t) =~= t);
    lemma_collapse_identity(t);
    lemma_leading_dashes(t, 0);
    let u = t.skip(0);
    assert(u =~= t);
    lemma_leading_dashes(u.reverse(), 0);
    assert(trim_dashes(t) =~= t);
}

/// Every slug is a safe file name.
pub proof fn lemma_slug_is_safe(s: Seq<char>)
    ensures
        is_safe_name(slug_of(s)),
{
    let rep = replace_unsafe(s);
    assert forall|k: int| 0 <= k < rep.len() implies slug_safe(#[trigger] rep[k]) by {}
    lemma_collapse_props(rep);
    let col = collapse_dashes(rep);
    let lo = leading_dashes(col);
    lemma_leading_dashes_facts(col);
    let u = col.skip(lo as int);
    let k = leading_dashes(u.reverse());
    lemma_leading_dashes_facts(u.reverse());
    let t = trim_dashes(col);
    assert(t =~= col.subrange(lo as int, col.len() - k));
    if t.len() == 0 {
        let m = seq!['m', 'o', 'd', 'e', 'l'];
        assert(slug_of(s) == m);
        assert(m[0] == 'm' && m[1] == 'o' && m[2] == 'd' && m[3] == 'e' && m[4] == 'l');
    } else {
        assert(t[0] == col[lo as int]);
        assert(t.last() == u.reverse()[k as int]);
        assert forall|j: int| 0 <= j < t.len() - 1 implies !(#[trigger] t[j] == '-' && t[j + 1]
            == '-') by {
            assert(t[j] == col[lo + j] && t[j + 1] == col[lo + j + 1]);
        }
        assert forall|j: int| 0 <= j < t.len() implies slug_safe(#[trigger] t[j]) by {
            assert(t[j] == col[lo + j]);
        }
    }
}

proof fn lemma_leading_dashes_facts(t: Seq<char>)
    ensures
        leading_dashes(t) <= t.len(),
        forall|j: int| 0 <= j < leading_dashes(t) ==> #[trigger] t[j] == '-',
        leading_dashes(t) < t.len() ==> t[leading_dashes(t) as int] != '-',
    decreases t.len(),
{
    if t.len() > 0 && t[0] == '-' {
        let u = t.drop_first();
        lemma_leading_dashes_facts(u);
        assert forall|j: int| 0 <= j < leading_dashes(t) implies #[trigger] t[j] == '-' by {
            if j > 0 {
                assert(t[j] == u[j - 1]);
            }
        }
    }
}

proof fn lemma_collapse_all_dashes(t: Seq<char>)
    requires
        forall|i: int| 0 <= i < t.len() ==> #[trigger] t[i] == '-',
    ensures
        collapse_dashes(t).len() <= 1,
        forall|i: int| 0 <= i < collapse_dashes(t).len() ==> #[trigger] collapse_dashes(t)[i] == '-',
    decreases t.len(),
{
    if t.len() > 0 {
        let u = t.drop_last();
        assert forall|i: int| 0 <= i < u.len() implies #[trigger] u[i] == '-' by {
            assert(u[i] == t[i]);
        }
        lemma_collapse_all_dashes(u);
    }
}

/// A label with no letter, digit, `.` or `_` has the slug `model`.
pub proof fn lemma_slug_falls_back_to_model(s: Seq<char>)
    requires
        forall|i: int| 0 <= i < s.len() ==> !slug_safe(#[trigger] s[i]) || s[i] == '-',
    ensures
        slug_of(s) == seq!['m', 'o', 'd', 'e', 'l'],
{
    let rep = replace_unsafe(s);
    assert forall|i: int| 0 <= i < rep.len() implies #[trigger] rep[i] == '-' by {}
    lemma_collapse_all_dashes(rep);
    let col = collapse_dashes(rep);
    lemma_leading_dashes(col, col.len() as int);
    let u = col.skip(col.len() as int);
    assert(u.len() == 0);
    assert(trim_dashes(col).len() == 0);
}

} // verus!
