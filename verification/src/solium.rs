//! The solium adapter's output format: GCC-style lines
//! `filename:line:column:kind:message`, one issue per line.

use vstd::prelude::*;
use crate::json::is_digit;
use crate::strutil::string_range;
use crate::strutil::chars_of;

verus! {

/// One issue reported by the solium linter.
pub struct SoliumIssue {
    pub filename: String,
    pub line: u32,
    pub column: u32,
    pub type_: String,
    pub message: String,
}

/// Mathematical model of an issue.
pub struct SoliumIssueV {
    pub filename: Seq<char>,
    pub line: u32,
    pub column: u32,
    pub kind: Seq<char>,
    pub message: Seq<char>,
}

impl View for SoliumIssue {
    type V = SoliumIssueV;

    open spec fn view(&self) -> SoliumIssueV {
        SoliumIssueV {
            filename: self.filename@,
            line: self.line,
            column: self.column,
            kind: self.type_@,
            message: self.message@,
        }
    }
}

/// First position at or after `from` holding `c`; the length when there is
/// none.
pub open spec fn find_char(s: Seq<char>, from: int, c: char) -> int
    decreases s.len() - from,
{
    if 0 <= from < s.len() {
        if s[from] == c {
            from
        } else {
            find_char(s, from + 1, c)
        }
    } else {
        s.len() as int
    }
}

pub proof fn lemma_find_char(s: Seq<char>, from: int, c: char)
    requires
        0 <= from <= s.len(),
    ensures
        from <= find_char(s, from, c) <= s.len(),
        find_char(s, from, c) < s.len() ==> s[find_char(s, from, c)] == c,
        forall|k: int| from <= k < find_char(s, from, c) ==> s[k] != c,
    decreases s.len() - from,
{
    if from < s.len() && s[from] != c {
        lemma_find_char(s, from + 1, c);
    }
}

/// Number of `c` characters at or after `from`.
pub open spec fn count_char(s: Seq<char>, from: int, c: char) -> int
    decreases s.len() - from,
{
    if 0 <= from < s.len() {
        (if s[from] == c { 1int } else { 0int }) + count_char(s, from + 1, c)
    } else {
        0
    }
}

/// Counting and searching agree: there is no occurrence at or after `from`
/// exactly when the count is zero, and the first occurrence accounts for
/// one.
pub proof fn lemma_count_find(s: Seq<char>, from: int, c: char)
    requires
        0 <= from <= s.len(),
    ensures
        count_char(s, from, c) >= 0,
        (count_char(s, from, c) == 0) <==> (find_char(s, from, c) == s.len()),
        find_char(s, from, c) < s.len() ==> count_char(s, from, c) == 1 + count_char(
            s,
            find_char(s, from, c) + 1,
            c,
        ),
    decreases s.len() - from,
{
    if from < s.len() {
        lemma_count_find(s, from + 1, c);
    }
}

/// Integer value of a digit string.
pub open spec fn digits_val(s: Seq<char>) -> int
    decreases s.len(),
{
    if s.len() == 0 {
        0
    } else {
        digits_val(s.drop_last()) * 10 + ((s.last() as u32) as int - ('0' as u32) as int)
    }
}

pub open spec fn all_digits(s: Seq<char>) -> bool {
    forall|i: int| 0 <= i < s.len() ==> is_digit(#[trigger] s[i])
}

/// What `str::parse::<u32>()` with a fallback of zero yields: the numeric
/// value of the digits (one optional leading `+` allowed), and zero on any
/// other input or on overflow.
pub open spec fn u32_or_zero(s: Seq<char>) -> u32 {
    let t = if s.len() > 0 && s[0] == '+' {
        s.drop_first()
    } else {
        s
    };
    if t.len() > 0 && all_digits(t) && digits_val(t) <= u32::MAX {
        digits_val(t) as u32
    } else {
        0
    }
}

pub proof fn lemma_digits_val_nonneg(s: Seq<char>)
    requires
        all_digits(s),
    ensures
        digits_val(s) >= 0,
    decreases s.len(),
{
    if s.len() > 0 {
        assert(all_digits(s.drop_last())) by {
            assert(forall|i: int| 0 <= i < s.len() - 1 ==> #[trigger] s.drop_last()[i] == s[i]);
        }
        lemma_digits_val_nonneg(s.drop_last());
        assert(is_digit(s.last()));
    }
}

pub proof fn lemma_digits_val_prefix(s: Seq<char>, k: int)
    requires
        all_digits(s),
        0 <= k <= s.len(),
    ensures
        digits_val(s) >= digits_val(s.take(k)),
    decreases s.len() - k,
{
    if k < s.len() {
        lemma_digits_val_prefix(s, k + 1);
        assert(s.take(k + 1).drop_last() =~= s.take(k));
        assert(all_digits(s.take(k))) by {
            assert(forall|i: int| 0 <= i < k ==> #[trigger] s.take(k)[i] == s[i]);
        }
        assert(all_digits(s.take(k + 1))) by {
            assert(forall|i: int| 0 <= i < k + 1 ==> #[trigger] s.take(k + 1)[i] == s[i]);
        }
        lemma_digits_val_nonneg(s.take(k));
        assert(is_digit(s.take(k + 1).last()));
        assert(digits_val(s.take(k + 1)) >= digits_val(s.take(k)));
    } else {
        assert(s.take(k) =~= s);
    }
}

/// Reads `v[a..b]` the way the original read numeric fields: as a `u32`,
/// zero when the text is not a plain decimal number or does not fit.
pub fn parse_u32_or_zero(v: &Vec<char>, a: usize, b: usize) -> (r: u32)
    requires
        a <= b <= v@.len(),
    ensures
        r == u32_or_zero(v@.subrange(a as int, b as int)),
{
    let ghost whole = v@.subrange(a as int, b as int);
    let start: usize = if b > a && v[a] == '+' {
        a + 1
    } else {
        a
    };
    let ghost t = v@.subrange(start as int, b as int);
    proof {
        if b > a && v@[a as int] == '+' {
            assert(whole.drop_first() =~= t);
        } else {
            assert(whole =~= t);
        }
    }
    if start == b {
        return 0;
    }
    let mut val: u32 = 0;
    let mut i: usize = start;
    while i < b
        invariant
            a <= start <= i <= b <= v@.len(),
            whole == v@.subrange(a as int, b as int),
            t == v@.subrange(start as int, b as int),
            t == (if whole.len() > 0 && whole[0] == '+' {
                whole.drop_first()
            } else {
                whole
            }),
            all_digits(t.take(i - start)),
            val == digits_val(t.take(i - start)),
            digits_val(t.take(i - start)) <= u32::MAX,
        decreases b - i,
    {
        let c = v[i];
        if !('0' <= c && c <= '9') {
            proof {
                assert(t[i - start] == c);
                assert(!all_digits(t));
                assert(u32_or_zero(whole) == 0);
            }
            return 0;
        }
        let d: u32 = (c as u32) - ('0' as u32);
        proof {
            assert(t.take(i - start + 1).drop_last() =~= t.take(i - start));
            assert(t.take(i - start + 1).last() == c);
            assert(all_digits(t.take(i - start + 1))) by {
                assert(forall|q: int| 0 <= q < i - start ==> #[trigger] t.take(i - start + 1)[q]
                    == t.take(i - start)[q]);
            }
        }
        if val > u32::MAX / 10 || (val == u32::MAX / 10 && d > u32::MAX % 10) {
            proof {
                assert(digits_val(t.take(i - start + 1)) == val * 10 + d);
                assert(val * 10 + d > u32::MAX);
                assert(all_digits(t) ==> digits_val(t) > u32::MAX) by {
                    if all_digits(t) {
                        lemma_digits_val_prefix(t, i - start + 1);
                    }
                }
                assert(u32_or_zero(whole) == 0);
            }
            return 0;
        }
        val = val * 10 + d;
        i = i + 1;
    }
    proof {
        assert(t.take(b - start) =~= t);
    }
    val
}

/// Strips one trailing carriage return, as line splitting does.
pub open spec fn strip_cr(l: Seq<char>) -> Seq<char> {
    if l.len() > 0 && l.last() == '\r' {
        l.drop_last()
    } else {
        l
    }
}

/// The issue spelled by one output line, if it has at least four `:`.
pub open spec fn solium_issue_of_line(l: Seq<char>) -> Option<SoliumIssueV> {
    let p1 = find_char(l, 0, ':');
    let p2 = find_char(l, p1 + 1, ':');
    let p3 = find_char(l, p2 + 1, ':');
    let p4 = find_char(l, p3 + 1, ':');
    if p4 >= l.len() {
        None
    } else {
        Some(
            SoliumIssueV {
                filename: l.take(p1),
                line: u32_or_zero(l.subrange(p1 + 1, p2)),
                column: u32_or_zero(l.subrange(p2 + 1, p3)),
                kind: l.subrange(p3 + 1, p4),
                message: l.subrange(p4 + 1, l.len() as int),
            },
        )
    }
}

/// A line with fewer than four `:` yields no issue.
pub proof fn lemma_solium_line_needs_four_colons(l: Seq<char>)
    requires
        count_char(l, 0, ':') < 4,
    ensures
        solium_issue_of_line(l) is None,
{
    let p1 = find_char(l, 0, ':');
    lemma_count_find(l, 0, ':');
    lemma_find_char(l, 0, ':');
    if p1 < l.len() {
        let p2 = find_char(l, p1 + 1, ':');
        lemma_count_find(l, p1 + 1, ':');
        lemma_find_char(l, p1 + 1, ':');
        if p2 < l.len() {
            let p3 = find_char(l, p2 + 1, ':');
            lemma_count_find(l, p2 + 1, ':');
            lemma_find_char(l, p2 + 1, ':');
            if p3 < l.len() {
                let p4 = find_char(l, p3 + 1, ':');
                lemma_count_find(l, p3 + 1, ':');
                lemma_find_char(l, p3 + 1, ':');
                if p4 < l.len() {
                    lemma_count_find(l, p4 + 1, ':');
                }
            }
        }
    }
}

/// A line with at least four `:` yields an issue whose message is exactly
/// the text after the fourth `:`, and whose other fields are the first four
/// `:`-separated fields.
pub proof fn lemma_solium_line_message(l: Seq<char>)
    requires
        count_char(l, 0, ':') >= 4,
    ensures
        solium_issue_of_line(l) is Some,
        solium_issue_of_line(l).unwrap().message == l.subrange(
            find_char(l, find_char(l, find_char(l, find_char(l, 0, ':') + 1, ':') + 1, ':') + 1, ':')
                + 1,
            l.len() as int,
        ),
{
    let p1 = find_char(l, 0, ':');
    lemma_count_find(l, 0, ':');
    lemma_find_char(l, 0, ':');
    if p1 < l.len() {
        let p2 = find_char(l, p1 + 1, ':');
        lemma_count_find(l, p1 + 1, ':');
        lemma_find_char(l, p1 + 1, ':');
        if p2 < l.len() {
            let p3 = find_char(l, p2 + 1, ':');
            lemma_count_find(l, p2 + 1, ':');
            lemma_find_char(l, p2 + 1, ':');
            if p3 < l.len() {
                let p4 = find_char(l, p3 + 1, ':');
                lemma_count_find(l, p3 + 1, ':');
                lemma_find_char(l, p3 + 1, ':');
                if p4 < l.len() {
                    lemma_count_find(l, p4 + 1, ':');
                }
            }
        }
    }
}

/// All issues spelled by the text from `pos` on, one line at a time.
pub open spec fn solium_issues_of(s: Seq<char>, pos: int) -> Seq<SoliumIssueV>
    decreases s.len() - pos,
{
    if pos < 0 || pos >= s.len() {
        Seq::empty()
    } else {
        let e0 = find_char(s, pos, '\n');
        let e = if e0 < pos || e0 > s.len() {
            s.len() as int
        } else {
            e0
        };
        let line = strip_cr(s.subrange(pos, e));
        let rest = if e + 1 <= s.len() {
            solium_issues_of(s, e + 1)
        } else {
            Seq::empty()
        };
        match solium_issue_of_line(line) {
            Some(it) => seq![it] + rest,
            None => rest,
        }
    }
}

/// Views of a sequence of issues.
pub open spec fn issue_views(es: Seq<SoliumIssue>) -> Seq<SoliumIssueV> {
    Seq::new(
        es.len(),
        |i: int| if 0 <= i < es.len() { es[i]@ } else { SoliumIssueV {
            filename: Seq::empty(),
            line: 0,
            column: 0,
            kind: Seq::empty(),
            message: Seq::empty(),
        } },
    )
}

pub proof fn lemma_issue_views_push(es: Seq<SoliumIssue>, it: SoliumIssue)
    ensures
        issue_views(es.push(it)) == issue_views(es) + seq![it@],
{
    assert(issue_views(es.push(it)) =~= issue_views(es) + seq![it@]);
}

pub(crate) fn find_char_x(s: &Vec<char>, from: usize, c: char) -> (r: usize)
    requires
        from <= s@.len(),
    ensures
        r as int == find_char(s@, from as int, c),
        from <= r <= s@.len(),
{
    let mut cur: usize = from;
    while cur < s.len() && s[cur] != c
        invariant
            from <= cur <= s@.len(),
            find_char(s@, from as int, c) == find_char(s@, cur as int, c),
        decreases s@.len() - cur,
    {
        cur = cur + 1;
    }
    cur
}

/// Reads one line (already split out, carriage return stripped) into an
/// issue, if it has at least four `:`.
fn issue_from_line(v: &Vec<char>, a: usize, b: usize) -> (r: Option<SoliumIssue>)
    requires
        a <= b <= v@.len(),
    ensures
        r matches Some(it) ==> solium_issue_of_line(v@.subrange(a as int, b as int)) == Some(it@),
        r is None ==> solium_issue_of_line(v@.subrange(a as int, b as int)) is None,
{
    let ghost l = v@.subrange(a as int, b as int);
    let q1 = find_char_x(v, a, ':');
    let q1c = if q1 > b {
        b
    } else {
        q1
    };
    proof {
        lemma_find_char(v@, a as int, ':');
        lemma_find_char(l, 0, ':');
        lemma_subrange_find(v@, a as int, b as int, a as int, ':');
    }
    let p1: usize = q1c;
    if p1 >= b {
        proof {
            assert(find_char(l, 0, ':') == l.len());
            lemma_find_char(l, 0, ':');
        }
        return None;
    }
    let q2 = find_char_x(v, p1 + 1, ':');
    let p2: usize = if q2 > b {
        b
    } else {
        q2
    };
    proof {
        lemma_subrange_find(v@, a as int, b as int, p1 as int + 1, ':');
    }
    if p2 >= b {
        return None;
    }
    let q3 = find_char_x(v, p2 + 1, ':');
    let p3: usize = if q3 > b {
        b
    } else {
        q3
    };
    proof {
        lemma_subrange_find(v@, a as int, b as int, p2 as int + 1, ':');
    }
    if p3 >= b {
        return None;
    }
    let q4 = find_char_x(v, p3 + 1, ':');
    let p4: usize = if q4 > b {
        b
    } else {
        q4
    };
    proof {
        lemma_subrange_find(v@, a as int, b as int, p3 as int + 1, ':');
    }
    if p4 >= b {
        return None;
    }
    let filename = string_range(v, a, p1);
    let line = parse_u32_or_zero(v, p1 + 1, p2);
    let column = parse_u32_or_zero(v, p2 + 1, p3);
    let type_ = string_range(v, p3 + 1, p4);
    let message = string_range(v, p4 + 1, b);
    proof {
        assert(l.take(p1 as int - a) =~= v@.subrange(a as int, p1 as int));
        assert(l.subrange(p1 - a + 1, p2 - a) =~= v@.subrange(p1 as int + 1, p2 as int));
        assert(l.subrange(p2 - a + 1, p3 - a) =~= v@.subrange(p2 as int + 1, p3 as int));
        assert(l.subrange(p3 - a + 1, p4 - a) =~= v@.subrange(p3 as int + 1, p4 as int));
        assert(l.subrange(p4 - a + 1, l.len() as int) =~= v@.subrange(p4 as int + 1, b as int));
    }
    Some(SoliumIssue { filename, line, column, type_, message })
}

/// Searching in a window of a larger text finds the same position, shifted.
pub proof fn lemma_subrange_find(s: Seq<char>, a: int, b: int, from: int, c: char)
    requires
        0 <= a <= from <= b <= s.len(),
    ensures
        ({
            let l = s.subrange(a, b);
            let q = find_char(s, from, c);
            let ql = find_char(l, from - a, c);
            ql == if q <= b {
                q - a
            } else {
                b - a
            } || (q > b && ql == b - a)
        }),
    decreases b - from,
{
    let l = s.subrange(a, b);
    if from < b {
        if s[from] == c {
        } else {
            lemma_subrange_find(s, a, b, from + 1, c);
        }
    } else {
        lemma_find_char(s, from, c);
    }
}

/// Parses the linter's standard output: one issue per well-formed line,
/// other lines skipped.
pub fn parse_solium_response(o: &str) -> (r: Vec<SoliumIssue>)
    ensures
        issue_views(r@) == solium_issues_of(o@, 0),
{
    let v = chars_of(o);
    let mut acc: Vec<SoliumIssue> = Vec::new();
    let mut pos: usize = 0;
    proof {
        assert(issue_views(acc@) =~= Seq::<SoliumIssueV>::empty());
    }
    while pos < v.len()
        invariant
            pos <= v@.len(),
            v@ == o@,
            solium_issues_of(o@, 0) == issue_views(acc@) + solium_issues_of(o@, pos as int),
        decreases v@.len() - pos,
    {
        let e = find_char_x(&v, pos, '\n');
        let lend: usize = if e > pos && v[e - 1] == '\r' {
            e - 1
        } else {
            e
        };
        proof {
            assert(strip_cr(v@.subrange(pos as int, e as int)) =~= v@.subrange(
                pos as int,
                lend as int,
            ));
        }
        let it = issue_from_line(&v, pos, lend);
        let ghost prev = acc@;
        match it {
            Some(iss) => {
                acc.push(iss);
                proof {
                    lemma_issue_views_push(prev, acc@[prev.len() as int]);
                    assert(issue_views(prev) + (seq![acc@[prev.len() as int]@] + solium_issues_of(
                        o@,
                        e as int + 1,
                    )) =~= issue_views(acc@) + solium_issues_of(o@, e as int + 1));
                    assert(issue_views(prev) + (seq![acc@[prev.len() as int]@]
                        + Seq::<SoliumIssueV>::empty()) =~= issue_views(acc@)
                        + Seq::<SoliumIssueV>::empty());
                }
            },
            None => {
            },
        }
        if e >= v.len() {
            pos = v.len();
            proof {
                assert(solium_issues_of(o@, pos as int) =~= Seq::<SoliumIssueV>::empty());
                assert(issue_views(acc@) + Seq::<SoliumIssueV>::empty() =~= issue_views(acc@));
            }
        } else {
            pos = e + 1;
        }
    }
    proof {
        assert(solium_issues_of(o@, pos as int) =~= Seq::<SoliumIssueV>::empty());
        assert(issue_views(acc@) + Seq::<SoliumIssueV>::empty() =~= issue_views(acc@));
    }
    acc
}

} // verus!
