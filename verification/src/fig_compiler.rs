//! What the figure compiler concludes from a LaTeX run: the errors in the
//! log, and whether the figure counts as built.
use vstd::prelude::*;

use crate::fig_writer::texts;

verus! {

/// The size of a figure in centimetres; each dimension is the bit pattern of
/// an `f64`.
#[derive(Debug, Clone, Copy, PartialEq, Eq, Structural)]
pub struct Size {
    pub width: u64,
    pub height: u64,
}

/// A figure whose LaTeX run is over.
#[derive(Debug)]
pub struct FinishedFigure {
    pub name: String,
    pub caption: String,
    pub size: Size,
    pub lualatex_error: bool,
}

// ---------------------------------------------------------------------------
// The order of texts

/// `a` comes before `b` when, at the first place where they differ, the
/// character of `a` has the smaller code point, or when `a` is a proper
/// prefix of `b`.  This is the order of `String`: comparing the UTF-8 bytes
/// orders texts as comparing their code points does.
pub open spec fn text_lt(a: Seq<char>, b: Seq<char>) -> bool
    decreases a.len(),
{
    if a.len() == 0 {
        b.len() > 0
    } else if b.len() == 0 {
        false
    } else if a[0] != b[0] {
        (a[0] as int) < (b[0] as int)
    } else {
        text_lt(a.drop_first(), b.drop_first())
    }
}

pub proof fn lemma_text_lt_irreflexive(a: Seq<char>)
    ensures
        !text_lt(a, a),
    decreases a.len(),
{
    if a.len() > 0 {
        lemma_text_lt_irreflexive(a.drop_first());
    }
}

pub proof fn lemma_text_lt_transitive(a: Seq<char>, b: Seq<char>, c: Seq<char>)
    requires
        text_lt(a, b),
        text_lt(b, c),
    ensures
        text_lt(a, c),
    decreases a.len(),
{
    if a.len() > 0 && b.len() > 0 && c.len() > 0 {
        if a[0] == b[0] && b[0] == c[0] {
            lemma_text_lt_transitive(a.drop_first(), b.drop_first(), c.drop_first());
        }
    }
}

pub proof fn lemma_text_lt_total(a: Seq<char>, b: Seq<char>)
    requires
        a != b,
    ensures
        text_lt(a, b) || text_lt(b, a),
    decreases a.len(),
{
    if a.len() > 0 && b.len() > 0 {
        if a[0] == b[0] {
            if a.drop_first() == b.drop_first() {
                assert(a == seq![a[0]] + a.drop_first());
                assert(b == seq![b[0]] + b.drop_first());
            } else {
                lemma_text_lt_total(a.drop_first(), b.drop_first());
            }
        } else {
            assert((a[0] as int) != (b[0] as int));
        }
    } else if a.len() == 0 && b.len() == 0 {
        assert(a == b);
    }
}

/// Whether the text of `a` comes before the text of `b`.
pub fn text_less(a: &String, b: &String) -> (r: bool)
    ensures
        r == text_lt(a@, b@),
{
    let sa = a.as_str();
    let sb = b.as_str();
    let la = sa.unicode_len();
    let lb = sb.unicode_len();
    let mut i: usize = 0;
    assert(a@.skip(0) == a@);
    assert(b@.skip(0) == b@);
    while i < la && i < lb
        invariant
            la == a@.len(),
            lb == b@.len(),
            sa@ == a@,
            sb@ == b@,
            i <= la,
            i <= lb,
            text_lt(a@, b@) == text_lt(a@.skip(i as int), b@.skip(i as int)),
        decreases la - i,
    {
        let ca = sa.get_char(i);
        let cb = sb.get_char(i);
        let ghost ta = a@.skip(i as int);
        let ghost tb = b@.skip(i as int);
        assert(ta[0] == ca && tb[0] == cb);
        if ca != cb {
            return (ca as u32) < (cb as u32);
        }
        assert(ta.drop_first() == a@.skip(i + 1));
        assert(tb.drop_first() == b@.skip(i + 1));
        i = i + 1;
    }
    la < lb
}

// ---------------------------------------------------------------------------
// Errors in a LaTeX log

/// A line of a LaTeX log that reports an error starts with `"! "`.
pub open spec fn is_error_line(line: Seq<char>) -> bool {
    line.len() >= 2 && line[0] == '!' && line[1] == ' '
}

proof fn lemma_contains_push<A>(s: Seq<A>, x: A, t: A)
    ensures
        s.push(x).contains(t) <==> (s.contains(t) || t == x),
{
    let u = s.push(x);
    if u.contains(t) {
        let k = choose|k: int| 0 <= k < u.len() && u[k] == t;
        if k < s.len() {
            assert(s[k] == t);
        }
    }
    if s.contains(t) {
        let k = choose|k: int| 0 <= k < s.len() && s[k] == t;
        assert(u[k] == t);
    }
    if t == x {
        assert(u[s.len() as int] == t);
    }
}

proof fn lemma_contains_insert<A>(s: Seq<A>, p: int, x: A, t: A)
    requires
        0 <= p <= s.len(),
    ensures
        s.insert(p, x).contains(t) <==> (s.contains(t) || t == x),
{
    let u = s.insert(p, x);
    if u.contains(t) {
        let k = choose|k: int| 0 <= k < u.len() && u[k] == t;
        if k < p {
            assert(s[k] == t);
        } else if k > p {
            assert(s[k - 1] == t);
        }
    }
    if s.contains(t) {
        let k = choose|k: int| 0 <= k < s.len() && s[k] == t;
        if k < p {
            assert(u[k] == t);
        } else {
            assert(u[k + 1] == t);
        }
    }
    if t == x {
        assert(u[p] == t);
    }
}

/// Each text of `s` comes before every later one: sorted, with no text
/// twice.
pub open spec fn strictly_sorted(s: Seq<Seq<char>>) -> bool {
    forall|i: int, j: int| 0 <= i < j < s.len() ==> text_lt(#[trigger] s[i], #[trigger] s[j])
}

fn starts_with_error_mark(line: &String) -> (r: bool)
    ensures
        r == is_error_line(line@),
{
    let s = line.as_str();
    s.unicode_len() >= 2 && s.get_char(0) == '!' && s.get_char(1) == ' '
}

proof fn lemma_insert_keeps_sorted(s: Seq<Seq<char>>, p: int, x: Seq<char>)
    requires
        strictly_sorted(s),
        0 <= p <= s.len(),
        forall|j: int| 0 <= j < p ==> text_lt(#[trigger] s[j], x),
        forall|j: int| p <= j < s.len() ==> text_lt(x, #[trigger] s[j]),
    ensures
        strictly_sorted(s.insert(p, x)),
{
    let t = s.insert(p, x);
    assert forall|i: int, j: int| 0 <= i < j < t.len() implies text_lt(
        #[trigger] t[i],
        #[trigger] t[j],
    ) by {
        if i < p {
            if j < p {
                assert(text_lt(s[i], s[j]));
            } else if j == p {
                assert(text_lt(s[i], x));
            } else {
                assert(text_lt(s[i], s[j - 1]));
            }
        } else if i == p {
            assert(text_lt(x, s[j - 1]));
        } else {
            assert(text_lt(s[i - 1], s[j - 1]));
        }
    }
}

/// The error lines of a LaTeX log, sorted and each once, as the compiler
/// lists them.
pub fn latex_errors(lines: &Vec<String>) -> (r: Vec<String>)
    ensures
        strictly_sorted(texts(r@)),
        forall|t: Seq<char>|
            texts(r@).contains(t) <==> (texts(lines@).contains(t) && is_error_line(t)),
{
    let mut r: Vec<String> = Vec::new();
    let mut i: usize = 0;
    while i < lines.len()
        invariant
            i <= lines.len(),
            strictly_sorted(texts(r@)),
            forall|t: Seq<char>|
                #![trigger texts(r@).contains(t)]
                #![trigger texts(lines@).take(i as int).contains(t)]
                texts(r@).contains(t) <==> (texts(lines@).take(i as int).contains(t)
                    && is_error_line(t)),
        decreases lines.len() - i,
    {
        let ghost seen = texts(lines@).take(i as int);
        let ghost seen_next = texts(lines@).take(i + 1);
        assert(seen_next == seen.push(lines@[i as int]@));
        let line = &lines[i];
        if starts_with_error_mark(line) {
            let mut p: usize = 0;
            while p < r.len() && text_less(&r[p], line)
                invariant
                    p <= r.len(),
                    forall|j: int| 0 <= j < p ==> text_lt(#[trigger] texts(r@)[j], line@),
                decreases r.len() - p,
            {
                p = p + 1;
            }
            let ghost old_r = texts(r@);
            if p < r.len() && r[p] == *line {
                assert(old_r[p as int] == line@);
                assert forall|t: Seq<char>|
                    #![trigger texts(r@).contains(t)]
                #![trigger seen_next.contains(t)]
                texts(r@).contains(t) <==> (seen_next.contains(t) && is_error_line(t)) by {
                    lemma_contains_push(seen, line@, t);
                    if t == line@ {
                        assert(old_r[p as int] == t);
                    }
                }
            } else {
                if p < r.len() {
                    assert(!text_lt(old_r[p as int], line@));
                    assert(old_r[p as int] != line@);
                    proof {
                        lemma_text_lt_total(old_r[p as int], line@);
                    }
                    assert forall|j: int| p <= j < old_r.len() implies text_lt(
                        line@,
                        #[trigger] old_r[j],
                    ) by {
                        if j > p {
                            assert(text_lt(old_r[p as int], old_r[j]));
                            lemma_text_lt_transitive(line@, old_r[p as int], old_r[j]);
                        }
                    }
                }
                proof {
                    lemma_insert_keeps_sorted(old_r, p as int, line@);
                }
                r.insert(p, line.clone());
                assert(texts(r@) == old_r.insert(p as int, line@));
                assert forall|t: Seq<char>|
                    #![trigger texts(r@).contains(t)]
                #![trigger seen_next.contains(t)]
                texts(r@).contains(t) <==> (seen_next.contains(t) && is_error_line(t)) by {
                    lemma_contains_push(seen, line@, t);
                    lemma_contains_insert(old_r, p as int, line@, t);
                }
            }
        } else {
            assert(!is_error_line(line@));
            assert(line@ == lines@[i as int]@);
            assert forall|t: Seq<char>|
                #![trigger texts(r@).contains(t)]
                #![trigger seen_next.contains(t)]
                texts(r@).contains(t) <==> (seen_next.contains(t) && is_error_line(t)) by {
                lemma_contains_push(seen, line@, t);
            }
        }
        i = i + 1;
    }
    assert(texts(lines@).take(lines.len() as int) == texts(lines@));
    r
}

/// Two strictly sorted lists with the same texts are the same list: the
/// errors reported do not depend on the order of the lines of the log.
pub proof fn lemma_sorted_lists_with_same_texts_are_equal(a: Seq<Seq<char>>, b: Seq<Seq<char>>)
    requires
        strictly_sorted(a),
        strictly_sorted(b),
        forall|t: Seq<char>| a.contains(t) <==> b.contains(t),
    ensures
        a == b,
    decreases a.len(),
{
    if a.len() == 0 {
        if b.len() > 0 {
            assert(b.contains(b[0]));
        }
    } else if b.len() == 0 {
        assert(a.contains(a[0]));
    } else {
        assert(a.contains(a[0]));
        assert(b.contains(b[0]));
        let ka = choose|k: int| 0 <= k < b.len() && b[k] == a[0];
        let kb = choose|k: int| 0 <= k < a.len() && a[k] == b[0];
        if ka > 0 {
            assert(text_lt(b[0], b[ka]));
            if kb > 0 {
                assert(text_lt(a[0], a[kb]));
                lemma_text_lt_transitive(a[0], b[0], a[0]);
                lemma_text_lt_irreflexive(a[0]);
            } else {
                lemma_text_lt_irreflexive(a[0]);
            }
        } else if kb > 0 {
            assert(text_lt(a[0], a[kb]));
            lemma_text_lt_irreflexive(a[0]);
        }
        assert(a[0] == b[0]);
        let ta = a.drop_first();
        let tb = b.drop_first();
        assert forall|i: int, j: int| 0 <= i < j < ta.len() implies text_lt(
            #[trigger] ta[i],
            #[trigger] ta[j],
        ) by {
            assert(text_lt(a[i + 1], a[j + 1]));
        }
        assert forall|i: int, j: int| 0 <= i < j < tb.len() implies text_lt(
            #[trigger] tb[i],
            #[trigger] tb[j],
        ) by {
            assert(text_lt(b[i + 1], b[j + 1]));
        }
        assert forall|t: Seq<char>| ta.contains(t) <==> tb.contains(t) by {
            if ta.contains(t) {
                let k = choose|k: int| 0 <= k < ta.len() && ta[k] == t;
                assert(a[k + 1] == t);
                assert(text_lt(a[0], a[k + 1]));
                lemma_text_lt_irreflexive(t);
                assert(b.contains(t));
                let m = choose|m: int| 0 <= m < b.len() && b[m] == t;
                assert(m != 0);
                assert(tb[m - 1] == t);
            }
            if tb.contains(t) {
                let k = choose|k: int| 0 <= k < tb.len() && tb[k] == t;
                assert(b[k + 1] == t);
                assert(text_lt(b[0], b[k + 1]));
                lemma_text_lt_irreflexive(t);
                assert(a.contains(t));
                let m = choose|m: int| 0 <= m < a.len() && a[m] == t;
                assert(m != 0);
                assert(ta[m - 1] == t);
            }
        }
        lemma_sorted_lists_with_same_texts_are_equal(ta, tb);
        assert(a == seq![a[0]] + ta);
        assert(b == seq![b[0]] + tb);
    }
}

// ---------------------------------------------------------------------------
// The end of a LaTeX run

/// The one LaTeX error that does not make a figure fail.
pub open spec fn accepted_latex_error() -> Seq<char> {
    "! Dimension too large."@
}

/// Why a failed LaTeX run stops the build.
#[derive(Debug, PartialEq, Eq)]
pub enum LatexFailure {
    /// The log reports this error, which is not accepted.
    UnacceptedError(String),
    /// The log could not be read.
    MissingLog,
}

/// The outcome of the LaTeX run of a figure: `Ok(true)` when LaTeX failed
/// with accepted errors only, `Ok(false)` when it succeeded or the figure
/// was taken from the cache, and an error for the first error in the log
/// that is not accepted, or when the log could not be read.
pub fn lualatex_outcome(cached: bool, success: bool, log_errors: Option<Vec<String>>) -> (r: Result<
    bool,
    LatexFailure,
>)
    ensures
        cached || success ==> r == Ok::<bool, LatexFailure>(false),
        !cached && !success && log_errors is None ==> r == Err::<bool, LatexFailure>(
            LatexFailure::MissingLog,
        ),
        !cached && !success && log_errors is Some ==> {
            let errors = log_errors->Some_0@;
            match r {
                Ok(failed) => failed && forall|k: int|
                    0 <= k < errors.len() ==> #[trigger] errors[k]@ == accepted_latex_error(),
                Err(LatexFailure::UnacceptedError(e)) => exists|k: int|
                    0 <= k < errors.len() && errors[k] == e && e@ != accepted_latex_error() && (
                    forall|j: int| 0 <= j < k ==> #[trigger] errors[j]@ == accepted_latex_error()),
                Err(LatexFailure::MissingLog) => false,
            }
        },
{
    if cached || success {
        return Ok(false);
    }
    match log_errors {
        None => Err(LatexFailure::MissingLog),
        Some(errors) => {
            let accepted = "! Dimension too large.".to_owned();
            let mut k: usize = 0;
            #[verifier::loop_isolation(false)]
            while k < errors.len()
                invariant
                    k <= errors.len(),
                    accepted@ == accepted_latex_error(),
                    forall|j: int| 0 <= j < k ==> #[trigger] errors@[j]@ == accepted_latex_error(),
                decreases errors.len() - k,
            {
                if errors[k] != accepted {
                    let e = errors[k].clone();
                    assert(errors@[k as int] == e);
                    return Err(LatexFailure::UnacceptedError(e));
                }
                k = k + 1;
            }
            Ok(true)
        },
    }
}

} // verus!
