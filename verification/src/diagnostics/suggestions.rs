//! The suggestion engine: string-similarity scoring over fixed or
//! caller-supplied candidate lists, powering "did you mean" diagnostics.
//!
//! Similarity is the Jaro-Winkler metric - tolerant of transpositions and
//! favoring common prefixes - computed here in exact integer arithmetic and
//! reported in millionths (`1_000_000` means identical). Candidates scoring
//! at most `0.6` are never suggested; the single-best "confident
//! autocorrect" requires more than `0.75`.

use vstd::prelude::*;
use vstd::string::*;
use crate::lexer::chars_of;

verus! {

/// Inputs longer than this many characters score zero. The cap keeps the
/// integer scoring comfortably inside machine range, and no real identifier
/// or keyword comes anywhere near it.
pub open spec fn length_cap() -> int {
    1000000
}

/// The first candidate position in `[j, hi)` whose character equals `c`
/// and is not yet matched, or -1.
pub open spec fn find_match(c: char, b: Seq<char>, bf: Seq<bool>, j: int, hi: int) -> int
    decreases hi - j when j <= hi
{
    if j >= hi || j < 0 || j >= b.len() || j >= bf.len() {
        -1
    } else if b[j] == c && !bf[j] {
        j
    } else {
        find_match(c, b, bf, j + 1, hi)
    }
}

/// The matching pass of the Jaro metric: each character of `a`, in order,
/// grabs the first unmatched equal character of `b` within the search
/// window. Returns the two match-flag runs and the match count.
pub open spec fn jaro_scan(
    a: Seq<char>,
    b: Seq<char>,
    sr: int,
    i: int,
    af: Seq<bool>,
    bf: Seq<bool>,
    m: int,
) -> (Seq<bool>, Seq<bool>, int)
    decreases a.len() - i when 0 <= i <= a.len()
{
    if i >= a.len() {
        (af, bf, m)
    } else {
        let lo = if i > sr { i - sr } else { 0 };
        let hi = if b.len() < i + sr + 1 { b.len() as int } else { i + sr + 1 };
        let j = if lo <= hi { find_match(a[i], b, bf, lo, hi) } else { -1 };
        if j >= 0 {
            jaro_scan(a, b, sr, i + 1, af.update(i, true), bf.update(j, true), m + 1)
        } else {
            jaro_scan(a, b, sr, i + 1, af, bf, m)
        }
    }
}

/// The characters of `s` whose flag is set, in order.
pub open spec fn flagged_chars(s: Seq<char>, f: Seq<bool>, i: int) -> Seq<char>
    decreases s.len() - i when 0 <= i <= s.len()
{
    if i >= s.len() {
        Seq::empty()
    } else if 0 <= i < f.len() && f[i] {
        seq![s[i]] + flagged_chars(s, f, i + 1)
    } else {
        flagged_chars(s, f, i + 1)
    }
}

/// How many aligned positions of two runs disagree.
pub open spec fn mismatch_count(x: Seq<char>, y: Seq<char>, i: int) -> int
    decreases x.len() - i when 0 <= i
{
    if i >= x.len() || i >= y.len() {
        0
    } else {
        (if x[i] != y[i] { 1int } else { 0int }) + mismatch_count(x, y, i + 1)
    }
}

/// The length of the common prefix, capped at four characters.
pub open spec fn prefix4(a: Seq<char>, b: Seq<char>, i: int) -> int
    decreases 4 - i when 0 <= i <= 4
{
    if i >= 4 || i >= a.len() || i >= b.len() || a[i] != b[i] {
        i
    } else {
        prefix4(a, b, i + 1)
    }
}

/// The search window radius: half the longer length, less one.
pub open spec fn search_range(al: int, bl: int) -> int {
    let mx = if al > bl { al } else { bl };
    if mx / 2 > 0 { mx / 2 - 1 } else { 0 }
}

/// The Jaro-Winkler similarity of two character runs, in millionths.
///
/// Two empty runs are identical (one million); if exactly one is empty, or
/// no character matches within the window, the score is zero. Otherwise
/// the Jaro score averages the match ratios of both runs and the share of
/// matches in order; when it exceeds 0.7, a common prefix of up to four
/// characters pulls the score a tenth of the way toward one per prefix
/// character. Runs longer than `length_cap` score zero.
pub open spec fn similarity_ppm(a: Seq<char>, b: Seq<char>) -> int {
    if a.len() > length_cap() || b.len() > length_cap() {
        0
    } else if a.len() == 0 && b.len() == 0 {
        1000000
    } else if a.len() == 0 || b.len() == 0 {
        0
    } else {
        let sr = search_range(a.len() as int, b.len() as int);
        let scan = jaro_scan(a, b, sr, 0, Seq::new(a.len(), |i: int| false),
            Seq::new(b.len(), |i: int| false), 0);
        let m = scan.2;
        if m == 0 {
            0
        } else {
            let t = mismatch_count(flagged_chars(a, scan.0, 0), flagged_chars(b, scan.1, 0), 0) / 2;
            let num = m * m * b.len() + m * m * a.len() + (m - t) * a.len() * b.len();
            let den = 3 * a.len() * b.len() * m;
            if 10 * num > 7 * den {
                let p = prefix4(a, b, 0);
                ((10 - p) * num + p * den) * 1000000 / (10 * den)
            } else {
                num * 1000000 / den
            }
        }
    }
}

// ---------------------------------------------------------------------------
// Bounds of the matching pass, needed to rule out arithmetic overflow.
// ---------------------------------------------------------------------------

/// How many flags of a run are set.
pub open spec fn count_true(f: Seq<bool>, i: int) -> int
    decreases f.len() - i when 0 <= i <= f.len()
{
    if i >= f.len() {
        0
    } else {
        (if f[i] { 1int } else { 0int }) + count_true(f, i + 1)
    }
}

proof fn lemma_count_true_update(f: Seq<bool>, i: int, j: int)
    requires
        0 <= i <= f.len(),
        0 <= j < f.len(),
        !f[j],
    ensures
        count_true(f.update(j, true), i) == count_true(f, i) + if j >= i { 1int } else { 0int },
    decreases f.len() - i,
{
    if i < f.len() {
        lemma_count_true_update(f, i + 1, j);
    }
}

proof fn lemma_count_true_le_len(f: Seq<bool>, i: int)
    requires
        0 <= i <= f.len(),
    ensures
        0 <= count_true(f, i) <= f.len() - i,
    decreases f.len() - i,
{
    if i < f.len() {
        lemma_count_true_le_len(f, i + 1);
    }
}

proof fn lemma_count_true_all_false(f: Seq<bool>, i: int)
    requires
        0 <= i <= f.len(),
        forall|q: int| i <= q < f.len() ==> !f[q],
    ensures
        count_true(f, i) == 0,
    decreases f.len() - i,
{
    if i < f.len() {
        lemma_count_true_all_false(f, i + 1);
    }
}

proof fn lemma_find_match_props(c: char, b: Seq<char>, bf: Seq<bool>, j: int, hi: int)
    requires
        j <= hi,
    ensures
        find_match(c, b, bf, j, hi) == -1 || (j <= find_match(c, b, bf, j, hi) < hi
            && find_match(c, b, bf, j, hi) < b.len()
            && find_match(c, b, bf, j, hi) < bf.len()
            && 0 <= find_match(c, b, bf, j, hi)
            && !bf[find_match(c, b, bf, j, hi)]),
    decreases hi - j,
{
    if !(j >= hi || j < 0 || j >= b.len() || j >= bf.len()) && !(b[j] == c && !bf[j]) {
        lemma_find_match_props(c, b, bf, j + 1, hi);
    }
}

/// The matching pass counts exactly the flags it sets, and never more
/// matches than characters on either side.
proof fn lemma_jaro_scan_props(a: Seq<char>, b: Seq<char>, sr: int, i: int, af: Seq<bool>, bf: Seq<bool>, m: int)
    requires
        0 <= i <= a.len(),
        af.len() == a.len(),
        bf.len() == b.len(),
        count_true(af, i) == 0,
        m == count_true(af, 0),
        m == count_true(bf, 0),
        m <= i,
    ensures
        ({
            let r = jaro_scan(a, b, sr, i, af, bf, m);
            &&& r.0.len() == a.len()
            &&& r.1.len() == b.len()
            &&& r.2 == count_true(r.0, 0)
            &&& r.2 == count_true(r.1, 0)
            &&& r.2 <= a.len()
            &&& r.2 <= b.len()
            &&& m <= r.2
        }),
    decreases a.len() - i,
{
    lemma_count_true_le_len(af, 0);
    lemma_count_true_le_len(bf, 0);
    if i < a.len() {
        let lo = if i > sr { i - sr } else { 0 };
        let hi = if b.len() < i + sr + 1 { b.len() as int } else { i + sr + 1 };
        let j = if lo <= hi { find_match(a[i], b, bf, lo, hi) } else { -1 };
        if lo <= hi {
            lemma_find_match_props(a[i], b, bf, lo, hi);
        }
        lemma_count_true_le_len(af, i + 1);
        assert(count_true(af, i) == (if af[i] { 1int } else { 0int }) + count_true(af, i + 1));
        if j >= 0 {
            let af2 = af.update(i, true);
            let bf2 = bf.update(j, true);
            lemma_count_true_update(af, 0, i);
            lemma_count_true_update(af, i + 1, i);
            lemma_count_true_update(bf, 0, j);
            lemma_jaro_scan_props(a, b, sr, i + 1, af2, bf2, m + 1);
        } else {
            lemma_jaro_scan_props(a, b, sr, i + 1, af, bf, m);
        }
    }
}

/// A flagged-characters run is as long as the number of set flags.
proof fn lemma_flagged_len(s: Seq<char>, f: Seq<bool>, i: int)
    requires
        0 <= i <= s.len(),
        f.len() == s.len(),
    ensures
        flagged_chars(s, f, i).len() == count_true(f, i),
    decreases s.len() - i,
{
    if i < s.len() {
        lemma_flagged_len(s, f, i + 1);
    }
}

/// Mismatches never outnumber either run.
proof fn lemma_mismatch_bounds(x: Seq<char>, y: Seq<char>, i: int)
    requires
        0 <= i,
    ensures
        0 <= mismatch_count(x, y, i),
        mismatch_count(x, y, i) <= if x.len() - i >= 0 { x.len() - i } else { 0 },
    decreases x.len() - i,
{
    if i < x.len() && i < y.len() {
        lemma_mismatch_bounds(x, y, i + 1);
    }
}

proof fn lemma_prefix4_bounds(a: Seq<char>, b: Seq<char>, i: int)
    requires
        0 <= i <= 4,
    ensures
        i <= prefix4(a, b, i) <= 4,
    decreases 4 - i,
{
    if !(i >= 4 || i >= a.len() || i >= b.len() || a[i] != b[i]) {
        lemma_prefix4_bounds(a, b, i + 1);
    }
}

// ---------------------------------------------------------------------------
// Executable scoring.
// ---------------------------------------------------------------------------

/// The Jaro-Winkler similarity of two strings, in millionths.
#[verifier::loop_isolation(false)]
pub fn similarity_ppm_ex(a: &str, b: &str) -> (r: u64)
    ensures
        r as int == similarity_ppm(a@, b@),
        0 <= r <= 1000000,
{
    let av = chars_of(a);
    let bv = chars_of(b);
    let al = av.len();
    let bl = bv.len();
    if al > 1000000 || bl > 1000000 {
        return 0;
    }
    if al == 0 && bl == 0 {
        return 1000000;
    }
    if al == 0 || bl == 0 {
        return 0;
    }

    let mx = if al > bl { al } else { bl };
    let sr = if mx / 2 > 0 { mx / 2 - 1 } else { 0 };

    let mut af: Vec<bool> = Vec::new();
    let mut k: usize = 0;
    while k < al
        invariant
            k <= al,
            af@.len() == k,
            forall|q: int| 0 <= q < k ==> !af@[q],
        decreases al - k,
    {
        af.push(false);
        k = k + 1;
    }
    let mut bf: Vec<bool> = Vec::new();
    k = 0;
    while k < bl
        invariant
            k <= bl,
            bf@.len() == k,
            forall|q: int| 0 <= q < k ==> !bf@[q],
        decreases bl - k,
    {
        bf.push(false);
        k = k + 1;
    }
    proof {
        assert(af@ =~= Seq::new(av@.len(), |i: int| false));
        assert(bf@ =~= Seq::new(bv@.len(), |i: int| false));
        lemma_count_true_all_false(af@, 0);
        lemma_count_true_all_false(bf@, 0);
    }

    let ghost af0 = af@;
    let ghost bf0 = bf@;
    let mut m: usize = 0;
    let mut i: usize = 0;
    while i < al
        invariant
            i <= al,
            al == av@.len(),
            bl == bv@.len(),
            al <= 1000000,
            bl <= 1000000,
            sr as int == search_range(al as int, bl as int),
            af@.len() == al,
            bf@.len() == bl,
            m <= i,
            m <= bl,
            m as int == count_true(af@, 0),
            m as int == count_true(bf@, 0),
            count_true(af@, i as int) == 0,
            jaro_scan(av@, bv@, sr as int, 0, af0, bf0, 0)
                == jaro_scan(av@, bv@, sr as int, i as int, af@, bf@, m as int),
        decreases al - i,
    {
        let lo = if i > sr { i - sr } else { 0 };
        let hi = if bl < i + sr + 1 { bl } else { i + sr + 1 };
        let c = av[i];

        let ghost jm: int = if lo <= hi {
            find_match(c, bv@, bf@, lo as int, hi as int)
        } else {
            -1
        };
        let mut found = false;
        let mut fj: usize = 0;
        if lo <= hi {
            let mut j = lo;
            while j < hi && !found
                invariant
                    lo <= j <= hi,
                    !found ==> find_match(c, bv@, bf@, lo as int, hi as int)
                        == find_match(c, bv@, bf@, j as int, hi as int),
                    found ==> fj == j && j < hi
                        && find_match(c, bv@, bf@, lo as int, hi as int) == j as int,
                decreases hi - j, (if found { 0int } else { 1int }),
            {
                if bv[j] == c && !bf[j] {
                    found = true;
                    fj = j;
                } else {
                    j = j + 1;
                }
            }
            proof {
                assert(found ==> fj < hi && jm == fj as int);
                assert(!found ==> jm == -1);
            }
        }

        let ghost af_pre = af@;
        let ghost bf_pre = bf@;
        proof {
            lemma_count_true_le_len(af_pre, i as int + 1);
            assert(count_true(af_pre, i as int)
                == (if af_pre[i as int] { 1int } else { 0int })
                    + count_true(af_pre, i as int + 1));
        }
        if found {
            proof {
                lemma_find_match_props(c, bv@, bf@, lo as int, hi as int);
            }
            af[i] = true;
            bf[fj] = true;
            proof {
                lemma_count_true_update(af_pre, 0, i as int);
                lemma_count_true_update(af_pre, i as int + 1, i as int);
                lemma_count_true_update(bf_pre, 0, fj as int);
                lemma_count_true_le_len(bf@, 0);
            }
            m = m + 1;
        }
        i = i + 1;
    }

    if m == 0 {
        proof {
            lemma_jaro_scan_props(av@, bv@, sr as int, 0, af0, bf0, 0);
        }
        return 0;
    }

    let ghost scan = jaro_scan(av@, bv@, sr as int, 0, af0, bf0, 0);
    proof {
        lemma_jaro_scan_props(av@, bv@, sr as int, 0, af0, bf0, 0);
        assert(scan.0 == af@ && scan.1 == bf@ && scan.2 == m as int);
    }

    let xa = flagged_chars_ex(&av, &af);
    let xb = flagged_chars_ex(&bv, &bf);
    proof {
        lemma_flagged_len(av@, af@, 0);
        lemma_flagged_len(bv@, bf@, 0);
        assert(xa@.len() == m as int);
        assert(xb@.len() == m as int);
    }

    let mismatches = mismatch_count_ex(&xa, &xb);
    let t = mismatches / 2;
    proof {
        lemma_mismatch_bounds(xa@, xb@, 0);
        assert(t as int <= m as int);
    }

    let am = m as u128;
    let aa = al as u128;
    let bb = bl as u128;
    let tt = t as u128;
    proof {
        assert(am * am <= 1000000000000u128
            && am * am * bb <= 1000000000000000000u128
            && am * am * aa <= 1000000000000000000u128
            && (am - tt) * aa <= 1000000000000u128
            && (am - tt) * aa * bb <= 1000000000000000000u128
            && 3 * aa <= 3000000u128
            && 3 * aa * bb <= 3000000000000u128
            && 3 * aa * bb * am <= 3000000000000000000u128
            && 1 <= 3 * aa * bb * am) by (nonlinear_arith)
            requires
                1 <= am <= 1000000,
                1 <= aa <= 1000000,
                1 <= bb <= 1000000,
                tt <= am,
        ;
    }
    let num: u128 = am * am * bb + am * am * aa + (am - tt) * aa * bb;
    let den: u128 = 3 * aa * bb * am;
    proof {
        assert(num <= den) by (nonlinear_arith)
            requires
                1 <= am,
                1 <= aa,
                1 <= bb,
                am <= aa,
                am <= bb,
                tt <= am,
                num == am * am * bb + am * am * aa + (am - tt) * aa * bb,
                den == 3 * aa * bb * am,
        ;
        assert(num <= 3000000000000000000u128);
        assert(den <= 3000000000000000000u128);
    }

    let r: u128 = if 10 * num > 7 * den {
        let p = prefix4_ex(&av, &bv) as u128;
        proof {
            assert((10 - p) * num <= 30000000000000000000u128
                && p * den <= 12000000000000000000u128) by (nonlinear_arith)
                requires
                    p <= 4,
                    num <= 3000000000000000000u128,
                    den <= 3000000000000000000u128,
            ;
        }
        let num2: u128 = (10 - p) * num + p * den;
        let den2: u128 = 10 * den;
        proof {
            assert((num2 as int) <= (den2 as int)
                && (num2 as int) * 1000000 / (den2 as int) <= 1000000) by (nonlinear_arith)
                requires
                    p <= 4,
                    num <= den,
                    1 <= den,
                    den <= 3000000000000000000u128,
                    num2 == (10 - p) * num + p * den,
                    den2 == 10 * den,
            ;
        }
        num2 * 1000000 / den2
    } else {
        proof {
            assert((num as int) * 1000000 / (den as int) <= 1000000)
                by (nonlinear_arith)
                requires
                    num <= den,
                    1 <= den,
                    den <= 3000000000000000000u128,
            ;
        }
        num * 1000000 / den
    };
    r as u64
}

/// The flagged characters of a run, in order.
fn flagged_chars_ex(s: &Vec<char>, f: &Vec<bool>) -> (r: Vec<char>)
    requires
        f@.len() == s@.len(),
    ensures
        r@ == flagged_chars(s@, f@, 0),
{
    let mut r: Vec<char> = Vec::new();
    let mut i: usize = 0;
    proof {
        assert(r@ + flagged_chars(s@, f@, 0) =~= flagged_chars(s@, f@, 0));
    }
    while i < s.len()
        invariant
            i <= s@.len(),
            f@.len() == s@.len(),
            flagged_chars(s@, f@, 0) == r@ + flagged_chars(s@, f@, i as int),
        decreases s@.len() - i,
    {
        let ghost pre = r@;
        if f[i] {
            r.push(s[i]);
            proof {
                assert(pre + (seq![s@[i as int]] + flagged_chars(s@, f@, i as int + 1))
                    =~= r@ + flagged_chars(s@, f@, i as int + 1));
            }
        }
        i = i + 1;
    }
    proof {
        assert(flagged_chars(s@, f@, s@.len() as int) =~= Seq::<char>::empty());
        assert(r@ + flagged_chars(s@, f@, s@.len() as int) =~= r@);
    }
    r
}

/// How many aligned positions of two runs disagree.
fn mismatch_count_ex(x: &Vec<char>, y: &Vec<char>) -> (r: usize)
    requires
        x@.len() == y@.len(),
    ensures
        r as int == mismatch_count(x@, y@, 0),
        r <= x@.len(),
{
    let mut r: usize = 0;
    let mut i: usize = 0;
    proof {
        lemma_mismatch_bounds(x@, y@, 0);
    }
    while i < x.len()
        invariant
            i <= x@.len(),
            x@.len() == y@.len(),
            r <= i,
            r as int + mismatch_count(x@, y@, i as int) == mismatch_count(x@, y@, 0),
        decreases x@.len() - i,
    {
        if x[i] != y[i] {
            r = r + 1;
        }
        i = i + 1;
    }
    r
}

// ---------------------------------------------------------------------------
// Suggestion lists.
// ---------------------------------------------------------------------------

/// The language's keywords, as candidate texts.
pub open spec fn keyword_views() -> Seq<Seq<char>> {
    seq![
        "process"@, "start"@, "end"@, "task"@, "user"@, "service"@, "script"@,
        "call"@, "xor"@, "and"@, "event"@, "pool"@, "lane"@, "group"@, "note"@,
        "subprocess"@, "import"@, "from"@, "as"@,
    ]
}

/// The event-type names, as candidate texts.
pub open spec fn event_type_views() -> Seq<Seq<char>> {
    seq![
        "message"@, "timer"@, "error"@, "signal"@, "terminate"@, "escalation"@,
        "compensation"@, "conditional"@,
    ]
}

/// The flow-operator lexemes, as candidate texts.
pub open spec fn flow_type_views() -> Seq<Seq<char>> {
    seq!["->"@, "-->"@, "=>"@, "..>"@]
}

/// The well-known attribute names, as candidate texts.
pub open spec fn attribute_name_views() -> Seq<Seq<char>> {
    seq![
        "timeout"@, "assignee"@, "priority"@, "endpoint"@, "method"@, "script"@,
        "params"@, "version"@, "author"@, "description"@, "collapsed"@, "parallel"@,
        "required"@, "secure"@, "instant"@, "form"@,
    ]
}

/// The views of a candidate list.
pub open spec fn candidate_views(c: Seq<&str>) -> Seq<Seq<char>> {
    c.map_values(|s: &str| s@)
}

/// The views of an owned string list.
pub open spec fn owned_views(c: Seq<String>) -> Seq<Seq<char>> {
    c.map_values(|s: String| s@)
}

/// The language's keywords.
pub fn bpmn_keywords() -> (r: Vec<&'static str>)
    ensures
        candidate_views(r@) == keyword_views(),
{
    let mut r: Vec<&'static str> = Vec::new();
    r.push("process");
    r.push("start");
    r.push("end");
    r.push("task");
    r.push("user");
    r.push("service");
    r.push("script");
    r.push("call");
    r.push("xor");
    r.push("and");
    r.push("event");
    r.push("pool");
    r.push("lane");
    r.push("group");
    r.push("note");
    r.push("subprocess");
    r.push("import");
    r.push("from");
    r.push("as");
    proof {
        assert(candidate_views(r@) =~= keyword_views());
    }
    r
}

/// The event-type names.
pub fn event_types() -> (r: Vec<&'static str>)
    ensures
        candidate_views(r@) == event_type_views(),
{
    let mut r: Vec<&'static str> = Vec::new();
    r.push("message");
    r.push("timer");
    r.push("error");
    r.push("signal");
    r.push("terminate");
    r.push("escalation");
    r.push("compensation");
    r.push("conditional");
    proof {
        assert(candidate_views(r@) =~= event_type_views());
    }
    r
}

/// The flow-operator lexemes.
pub fn flow_types() -> (r: Vec<&'static str>)
    ensures
        candidate_views(r@) == flow_type_views(),
{
    let mut r: Vec<&'static str> = Vec::new();
    r.push("->");
    r.push("-->");
    r.push("=>");
    r.push("..>");
    proof {
        assert(candidate_views(r@) =~= flow_type_views());
    }
    r
}

/// The well-known attribute names.
pub fn attribute_names() -> (r: Vec<&'static str>)
    ensures
        candidate_views(r@) == attribute_name_views(),
{
    let mut r: Vec<&'static str> = Vec::new();
    r.push("timeout");
    r.push("assignee");
    r.push("priority");
    r.push("endpoint");
    r.push("method");
    r.push("script");
    r.push("params");
    r.push("version");
    r.push("author");
    r.push("description");
    r.push("collapsed");
    r.push("parallel");
    r.push("required");
    r.push("secure");
    r.push("instant");
    r.push("form");
    proof {
        assert(candidate_views(r@) =~= attribute_name_views());
    }
    r
}

/// The views of a scored working list.
pub open spec fn pair_views(sc: Seq<(u64, String)>) -> Seq<Seq<char>> {
    sc.map_values(|p: (u64, String)| p.1@)
}

/// The stable insertion point of a candidate scoring `s`: after every kept
/// candidate scoring at least `s`, so that ties keep their first-come
/// order under the falling-score ordering.
pub open spec fn insert_pos(target: Seq<char>, acc: Seq<Seq<char>>, s: int) -> int
    decreases acc.len(),
{
    if acc.len() == 0 {
        0
    } else if similarity_ppm(target, acc.last()) >= s {
        acc.len() as int
    } else {
        insert_pos(target, acc.drop_last(), s)
    }
}

proof fn lemma_insert_pos_bounds(target: Seq<char>, acc: Seq<Seq<char>>, s: int)
    ensures
        0 <= insert_pos(target, acc, s) <= acc.len(),
    decreases acc.len(),
{
    if acc.len() > 0 && !(similarity_ppm(target, acc.last()) >= s) {
        lemma_insert_pos_bounds(target, acc.drop_last(), s);
    }
}

/// The kept candidates among the first `i`, in falling-score order with
/// ties in first-come order: a stable descending sort of every candidate
/// scoring strictly above 0.6.
pub open spec fn scored_list(target: Seq<char>, cands: Seq<Seq<char>>, i: int) -> Seq<Seq<char>>
    decreases i when 0 <= i <= cands.len() via scored_list_decreases
{
    if i <= 0 {
        Seq::empty()
    } else {
        let acc = scored_list(target, cands, i - 1);
        let s = similarity_ppm(target, cands[i - 1]);
        if s > 600000 {
            acc.insert(insert_pos(target, acc, s), cands[i - 1])
        } else {
            acc
        }
    }
}

#[via_fn]
proof fn scored_list_decreases(target: Seq<char>, cands: Seq<Seq<char>>, i: int) {
}

/// The whole suggestion result: the kept candidates, stably sorted by
/// falling score, cut down to the limit.
pub open spec fn spec_suggest(target: Seq<char>, cands: Seq<Seq<char>>, limit: int) -> Seq<Seq<char>> {
    let scored = scored_list(target, cands, cands.len() as int);
    scored.take(if scored.len() <= limit { scored.len() as int } else { limit })
}

proof fn lemma_pair_views_insert(sc: Seq<(u64, String)>, k: int, p: (u64, String))
    requires
        0 <= k <= sc.len(),
    ensures
        pair_views(sc.insert(k, p)) == pair_views(sc).insert(k, p.1@),
{
    sc.insert_ensures(k, p);
    pair_views(sc).insert_ensures(k, p.1@);
    assert(pair_views(sc.insert(k, p)) =~= pair_views(sc).insert(k, p.1@));
}

/// Scores every candidate against the target and returns up to
/// `max_suggestions` of them: only candidates scoring strictly above 0.6,
/// in order of falling score (first-come order among ties).
#[verifier::loop_isolation(false)]
pub fn suggest_similar(target: &str, candidates: &[&str], max_suggestions: usize) -> (r: Vec<String>)
    ensures
        r@.len() <= max_suggestions,
        forall|i: int| 0 <= i < r@.len()
            ==> similarity_ppm(target@, (#[trigger] r@[i])@) > 600000,
        forall|i: int| 0 <= i < r@.len()
            ==> candidate_views(candidates@).contains((#[trigger] r@[i])@),
        forall|i: int, j: int| 0 <= i < j < r@.len()
            ==> similarity_ppm(target@, r@[i]@) >= similarity_ppm(target@, r@[j]@),
        owned_views(r@) == spec_suggest(
            target@,
            candidate_views(candidates@),
            max_suggestions as int,
        ),
{
    let ghost cv = candidate_views(candidates@);
    if candidates.len() == 0 {
        proof {
            assert(scored_list(target@, cv, 0) =~= Seq::empty());
            assert(owned_views(Seq::<String>::empty()) =~= Seq::<Seq<char>>::empty());
        }
        return Vec::new();
    }

    let mut scored: Vec<(u64, String)> = Vec::new();
    let mut ci: usize = 0;
    while ci < candidates.len()
        invariant
            ci <= candidates@.len(),
            forall|q: int| 0 <= q < scored@.len()
                ==> (#[trigger] scored@[q]).0 as int == similarity_ppm(target@, scored@[q].1@)
                    && scored@[q].0 > 600000,
            forall|q: int| 0 <= q < scored@.len()
                ==> candidate_views(candidates@).contains((#[trigger] scored@[q]).1@),
            forall|x: int, y: int| 0 <= x < y < scored@.len()
                ==> scored@[x].0 >= scored@[y].0,
            pair_views(scored@) == scored_list(target@, cv, ci as int),
        decreases candidates@.len() - ci,
    {
        let cand = candidates[ci];
        let score = similarity_ppm_ex(target, cand);
        if score > 600000 {
            let mut k = scored.len();
            proof {
                assert(pair_views(scored@).take(scored@.len() as int) =~= pair_views(scored@));
            }
            while k > 0 && scored[k - 1].0 < score
                invariant
                    k <= scored@.len(),
                    forall|q: int| k <= q < scored@.len()
                        ==> (#[trigger] scored@[q]).0 < score,
                    insert_pos(target@, pair_views(scored@), score as int)
                        == insert_pos(target@, pair_views(scored@).take(k as int), score as int),
                decreases k,
            {
                proof {
                    assert(pair_views(scored@).take(k as int).last()
                        == pair_views(scored@)[k as int - 1]);
                    assert(pair_views(scored@)[k as int - 1] == scored@[k as int - 1].1@);
                    assert(pair_views(scored@).take(k as int).drop_last()
                        =~= pair_views(scored@).take(k as int - 1));
                }
                k = k - 1;
            }
            proof {
                if k > 0 {
                    assert(pair_views(scored@).take(k as int).last()
                        == scored@[k as int - 1].1@);
                }
                assert(insert_pos(target@, pair_views(scored@), score as int) == k as int);
            }
            let ghost pre = scored@;
            let pair = (score, cand.to_owned());
            let ghost gp = pair;
            scored.insert(k, pair);
            proof {
                pre.insert_ensures(k as int, gp);
                lemma_pair_views_insert(pre, k as int, gp);
                assert(cv[ci as int] == candidates@[ci as int]@);
                assert(gp.1@ == cv[ci as int]);
                assert(pair_views(scored@)
                    == scored_list(target@, cv, ci as int).insert(
                        insert_pos(target@, scored_list(target@, cv, ci as int), score as int),
                        cv[ci as int],
                    ));
                assert(pair_views(scored@) == scored_list(target@, cv, ci as int + 1));
                assert(candidate_views(candidates@)[ci as int] == candidates@[ci as int]@);
                assert(candidate_views(candidates@).contains(candidates@[ci as int]@));
                assert(scored@[k as int].1@ == candidates@[ci as int]@);
                assert forall|x: int, y: int| 0 <= x < y < scored@.len()
                    implies scored@[x].0 >= scored@[y].0 by {
                    if y < k {
                    } else if x > k {
                        assert(scored@[x] == pre[x - 1]);
                        assert(scored@[y] == pre[y - 1]);
                    } else if x == k {
                        assert(scored@[y] == pre[y - 1]);
                    } else if y == k {
                        assert(scored@[x] == pre[x]);
                        assert(pre[x].0 >= score);
                    } else {
                        assert(scored@[x] == pre[x]);
                        assert(scored@[y] == pre[y - 1]);
                    }
                }
            }
        } else {
            proof {
                assert(pair_views(scored@) == scored_list(target@, cv, ci as int + 1));
            }
        }
        ci = ci + 1;
    }

    let mut r: Vec<String> = Vec::new();
    let mut ti: usize = 0;
    while ti < scored.len() && ti < max_suggestions
        invariant
            ti <= scored@.len(),
            ti <= max_suggestions,
            r@.len() == ti,
            forall|q: int| 0 <= q < ti ==> (#[trigger] r@[q])@ == scored@[q].1@,
            owned_views(r@) == pair_views(scored@).take(ti as int),
        decreases scored@.len() - ti,
    {
        let ghost rv = r@;
        r.push(scored[ti].1.clone());
        proof {
            assert(owned_views(r@) =~= owned_views(rv).push(scored@[ti as int].1@));
            assert(pair_views(scored@).take(ti as int + 1)
                =~= pair_views(scored@).take(ti as int).push(pair_views(scored@)[ti as int]));
        }
        ti = ti + 1;
    }
    proof {
        assert(pair_views(scored@) == scored_list(target@, cv, candidates@.len() as int));
        if scored@.len() <= max_suggestions {
            assert(ti == scored@.len());
            assert(pair_views(scored@).take(ti as int) =~= pair_views(scored@));
        } else {
            assert(ti == max_suggestions);
        }
        assert(owned_views(r@) == spec_suggest(target@, cv, max_suggestions as int));
        assert forall|i: int| 0 <= i < r@.len()
            implies similarity_ppm(target@, (#[trigger] r@[i])@) > 600000 by {
            assert(r@[i]@ == scored@[i].1@);
            assert(scored@[i].0 as int == similarity_ppm(target@, scored@[i].1@));
        }
        assert forall|i: int, j: int| 0 <= i < j < r@.len()
            implies similarity_ppm(target@, r@[i]@) >= similarity_ppm(target@, r@[j]@) by {
            assert(scored@[i].0 as int == similarity_ppm(target@, scored@[i].1@));
            assert(scored@[j].0 as int == similarity_ppm(target@, scored@[j].1@));
            assert(scored@[i].0 >= scored@[j].0);
        }
        assert forall|i: int| 0 <= i < r@.len()
            implies candidate_views(candidates@).contains((#[trigger] r@[i])@) by {
            assert(candidate_views(candidates@).contains(scored@[i].1@));
            assert(r@[i]@ == scored@[i].1@);
        }
    }
    r
}

/// Suggests up to three keywords resembling the target.
pub fn suggest_keywords(target: &str) -> (r: Vec<String>)
    ensures
        r@.len() <= 3,
        forall|i: int| 0 <= i < r@.len()
            ==> similarity_ppm(target@, (#[trigger] r@[i])@) > 600000,
        forall|i: int| 0 <= i < r@.len()
            ==> keyword_views().contains((#[trigger] r@[i])@),
        forall|i: int, j: int| 0 <= i < j < r@.len()
            ==> similarity_ppm(target@, r@[i]@) >= similarity_ppm(target@, r@[j]@),
        owned_views(r@) == spec_suggest(target@, keyword_views(), 3),
{
    let kws = bpmn_keywords();
    let r = suggest_similar(target, kws.as_slice(), 3);
    r
}

/// Suggests up to three event-type names resembling the target.
pub fn suggest_event_types(target: &str) -> (r: Vec<String>)
    ensures
        r@.len() <= 3,
        forall|i: int| 0 <= i < r@.len()
            ==> similarity_ppm(target@, (#[trigger] r@[i])@) > 600000,
        forall|i: int| 0 <= i < r@.len()
            ==> event_type_views().contains((#[trigger] r@[i])@),
        forall|i: int, j: int| 0 <= i < j < r@.len()
            ==> similarity_ppm(target@, r@[i]@) >= similarity_ppm(target@, r@[j]@),
        owned_views(r@) == spec_suggest(target@, event_type_views(), 3),
{
    let list = event_types();
    suggest_similar(target, list.as_slice(), 3)
}

/// Suggests up to two flow operators resembling the target.
pub fn suggest_flow_types(target: &str) -> (r: Vec<String>)
    ensures
        r@.len() <= 2,
        forall|i: int| 0 <= i < r@.len()
            ==> similarity_ppm(target@, (#[trigger] r@[i])@) > 600000,
        forall|i: int| 0 <= i < r@.len()
            ==> flow_type_views().contains((#[trigger] r@[i])@),
        owned_views(r@) == spec_suggest(target@, flow_type_views(), 2),
{
    let list = flow_types();
    suggest_similar(target, list.as_slice(), 2)
}

/// Suggests up to three attribute names resembling the target.
pub fn suggest_attributes(target: &str) -> (r: Vec<String>)
    ensures
        r@.len() <= 3,
        forall|i: int| 0 <= i < r@.len()
            ==> similarity_ppm(target@, (#[trigger] r@[i])@) > 600000,
        forall|i: int| 0 <= i < r@.len()
            ==> attribute_name_views().contains((#[trigger] r@[i])@),
        owned_views(r@) == spec_suggest(target@, attribute_name_views(), 3),
{
    let list = attribute_names();
    suggest_similar(target, list.as_slice(), 3)
}

/// Suggests up to three of the caller's identifiers resembling the target.
pub fn suggest_identifiers(target: &str, identifiers: &[String]) -> (r: Vec<String>)
    ensures
        r@.len() <= 3,
        forall|i: int| 0 <= i < r@.len()
            ==> similarity_ppm(target@, (#[trigger] r@[i])@) > 600000,
        forall|i: int| 0 <= i < r@.len()
            ==> owned_views(identifiers@).contains((#[trigger] r@[i])@),
        owned_views(r@) == spec_suggest(target@, owned_views(identifiers@), 3),
{
    let mut candidates: Vec<&str> = Vec::new();
    let mut k: usize = 0;
    while k < identifiers.len()
        invariant
            k <= identifiers@.len(),
            candidates@.len() == k,
            forall|q: int| 0 <= q < k ==> (#[trigger] candidates@[q])@ == identifiers@[q]@,
        decreases identifiers@.len() - k,
    {
        candidates.push(identifiers[k].as_str());
        k = k + 1;
    }
    let r = suggest_similar(target, candidates.as_slice(), 3);
    proof {
        assert(candidate_views(candidates@) =~= owned_views(identifiers@));
    }
    r
}

/// The single best keyword correction, returned only with high confidence:
/// the best match must score strictly above 0.75.
pub fn detect_keyword_typo(target: &str) -> (r: Option<String>)
    ensures
        match r {
            Option::Some(s) => {
                &&& spec_suggest(target@, keyword_views(), 3).len() > 0
                &&& s@ == spec_suggest(target@, keyword_views(), 3)[0]
                &&& similarity_ppm(target@, s@) > 750000
                &&& keyword_views().contains(s@)
            },
            Option::None => spec_suggest(target@, keyword_views(), 3).len() == 0
                || similarity_ppm(target@, spec_suggest(target@, keyword_views(), 3)[0])
                    <= 750000,
        },
{
    let suggestions = suggest_keywords(target);
    if suggestions.len() > 0 && similarity_ppm_ex(target, suggestions[0].as_str()) > 750000 {
        Some(suggestions[0].clone())
    } else {
        None
    }
}

/// The single best event-type correction, returned only with high
/// confidence: the best match must score strictly above 0.75.
pub fn detect_event_type_typo(target: &str) -> (r: Option<String>)
    ensures
        match r {
            Option::Some(s) => {
                &&& spec_suggest(target@, event_type_views(), 3).len() > 0
                &&& s@ == spec_suggest(target@, event_type_views(), 3)[0]
                &&& similarity_ppm(target@, s@) > 750000
                &&& event_type_views().contains(s@)
            },
            Option::None => spec_suggest(target@, event_type_views(), 3).len() == 0
                || similarity_ppm(target@, spec_suggest(target@, event_type_views(), 3)[0])
                    <= 750000,
        },
{
    let suggestions = suggest_event_types(target);
    if suggestions.len() > 0 && similarity_ppm_ex(target, suggestions[0].as_str()) > 750000 {
        Some(suggestions[0].clone())
    } else {
        None
    }
}

/// Whether the target weakly resembles some keyword without spelling it
/// exactly: some keyword scores strictly between 0.6 and 1.
pub fn is_likely_keyword_typo(target: &str) -> (r: bool)
    ensures
        r == exists|j: int| 0 <= j < keyword_views().len()
            && 600000 < similarity_ppm(target@, #[trigger] keyword_views()[j]) < 1000000,
{
    let kws = bpmn_keywords();
    let mut k: usize = 0;
    while k < kws.len()
        invariant
            k <= kws@.len(),
            candidate_views(kws@) == keyword_views(),
            forall|j: int| 0 <= j < k
                ==> !(600000 < similarity_ppm(target@, #[trigger] keyword_views()[j]) < 1000000),
        decreases kws@.len() - k,
    {
        let s = similarity_ppm_ex(target, kws[k]);
        if s > 600000 && s < 1000000 {
            proof {
                assert(keyword_views()[k as int] == kws@[k as int]@);
                assert(600000 < similarity_ppm(target@, keyword_views()[k as int]) < 1000000);
            }
            return true;
        }
        proof {
            assert(keyword_views()[k as int] == kws@[k as int]@);
        }
        k = k + 1;
    }
    false
}

/// The length of the common prefix, capped at four characters.
fn prefix4_ex(a: &Vec<char>, b: &Vec<char>) -> (r: usize)
    ensures
        r as int == prefix4(a@, b@, 0),
        r <= 4,
{
    proof {
        lemma_prefix4_bounds(a@, b@, 0);
    }
    let mut i: usize = 0;
    loop
        invariant
            0 <= i <= 4,
            prefix4(a@, b@, 0) == prefix4(a@, b@, i as int),
        ensures
            i as int == prefix4(a@, b@, 0),
            i <= 4,
        decreases 4 - i,
    {
        if i >= 4 || i >= a.len() || i >= b.len() {
            break;
        }
        if a[i] != b[i] {
            break;
        }
        i = i + 1;
    }
    i
}

} // verus!
