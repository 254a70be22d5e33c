//! String-level helpers of the self-verifying test harness.
//!
//! Test cases are extracted from the rule set's documentation text: any
//! line holding a comment marker is searched for the first arrow marker
//! (`=>`); the text before the arrow (trimmed) is the input, the text after
//! it (trimmed) is the expected output.  The pairing of fixture file names
//! (`name.bad.nix` with `name.good.nix`) is decided here too; reading the
//! files themselves is left to the caller.
use vstd::prelude::*;

use crate::reformat_of;
use crate::reformat_string;
use vstd::string::StrSliceExecFns;
use vstd::string::StringExecFns;

verus! {

/// The verdict on one before/after case.
#[derive(Clone, Copy, PartialEq, Eq, Structural, Debug)]
pub enum CaseOutcome {
    /// The pipeline produced the expected text, and reformatting that text
    /// left it unchanged.
    Pass,
    /// The pipeline's output differs from the expected text.  A case that
    /// is also unstable is reported as wrong first.
    WrongFormat,
    /// The output matched, but reformatting it again changed it.
    Unstable,
}

/// The verification procedure for one case: run the whole pipeline on the
/// input and compare with the expected text; then run it on the output and
/// demand that nothing changes.
pub fn check_case(before: &str, expected: &str) -> (r: CaseOutcome)
    ensures
        ({
            let once = reformat_of(before@);
            r == if once != expected@ {
                CaseOutcome::WrongFormat
            } else if reformat_of(once) != once {
                CaseOutcome::Unstable
            } else {
                CaseOutcome::Pass
            }
        }),
{
    let actual = reformat_string(before);
    if !(actual == String::from_str(expected)) {
        return CaseOutcome::WrongFormat;
    }
    let second = reformat_string(actual.as_str());
    if !(second == actual) {
        return CaseOutcome::Unstable;
    }
    CaseOutcome::Pass
}

/// One literal before/after test case.
#[derive(Clone, Debug)]
pub struct TestCase {
    /// A label, where the case came from a named source.
    pub name: Option<String>,
    /// The input text.
    pub before: String,
    /// The expected output text.
    pub after: String,
}

/// Mathematical model of one test case.
pub ghost struct CaseV {
    pub name: Option<Seq<char>>,
    pub before: Seq<char>,
    pub after: Seq<char>,
}

impl View for TestCase {
    type V = CaseV;

    open spec fn view(&self) -> CaseV {
        CaseV {
            name: match self.name {
                Some(n) => Some(n@),
                None => None,
            },
            before: self.before@,
            after: self.after@,
        }
    }
}

/// Whitespace that trimming removes at the ends of a line.
pub open spec fn is_blank(c: char) -> bool {
    c == ' ' || c == '\t' || c == '\r'
}

pub open spec fn trim_front(s: Seq<char>) -> Seq<char>
    decreases s.len(),
{
    if s.len() > 0 && is_blank(s[0]) {
        trim_front(s.drop_first())
    } else {
        s
    }
}

pub open spec fn trim_back(s: Seq<char>) -> Seq<char>
    decreases s.len(),
{
    if s.len() > 0 && is_blank(s.last()) {
        trim_back(s.drop_last())
    } else {
        s
    }
}

/// A line with the blanks at both ends removed.
pub open spec fn trimmed(s: Seq<char>) -> Seq<char> {
    trim_back(trim_front(s))
}

/// First position at or after `j` where the comment marker `// ` starts,
/// or -1.
pub open spec fn find_comment_from(s: Seq<char>, j: int) -> int
    decreases s.len() - j,
{
    if j < 0 || j + 3 > s.len() {
        -1
    } else if s[j] == '/' && s[j + 1] == '/' && s[j + 2] == ' ' {
        j
    } else {
        find_comment_from(s, j + 1)
    }
}

/// First position at or after `j` where the arrow marker `=>` starts, or
/// -1.
pub open spec fn find_arrow_from(s: Seq<char>, j: int) -> int
    decreases s.len() - j,
{
    if j < 0 || j + 2 > s.len() {
        -1
    } else if s[j] == '=' && s[j + 1] == '>' {
        j
    } else {
        find_arrow_from(s, j + 1)
    }
}

/// The case a marker-free text yields: the text before the first arrow,
/// trimmed, becomes the input, the text after it the expected output.
pub open spec fn case_of_rest(s: Seq<char>) -> Option<CaseV> {
    let d = find_arrow_from(s, 0);
    if d < 0 {
        None
    } else {
        Some(
            CaseV {
                name: None,
                before: trimmed(s.subrange(0, d)),
                after: trimmed(s.subrange(d + 2, s.len() as int)),
            },
        )
    }
}

/// The case one line yields: nothing without a comment marker, else the
/// case of the text after the marker.
pub open spec fn case_of_line(line: Seq<char>) -> Option<CaseV> {
    let c = find_comment_from(line, 0);
    if c < 0 {
        None
    } else {
        case_of_rest(line.subrange(c + 3, line.len() as int))
    }
}

pub open spec fn opt_to_seq(c: Option<CaseV>) -> Seq<CaseV> {
    match c {
        Some(cv) => seq![cv],
        None => Seq::empty(),
    }
}

/// Scan the text line by line (`ls` is the start of the current line) and
/// collect the case of every line.
pub open spec fn collect_from(s: Seq<char>, j: int, ls: int, acc: Seq<CaseV>) -> Seq<CaseV>
    decreases s.len() - j,
{
    if j < 0 || j >= s.len() {
        acc + opt_to_seq(case_of_line(s.subrange(ls, s.len() as int)))
    } else if s[j] == '\n' {
        collect_from(s, j + 1, j + 1, acc + opt_to_seq(case_of_line(s.subrange(ls, j))))
    } else {
        collect_from(s, j + 1, ls, acc)
    }
}

/// All cases embedded in a text.
pub open spec fn collect_cases(s: Seq<char>) -> Seq<CaseV> {
    collect_from(s, 0, 0, Seq::empty())
}

/// The views of a vector of cases.
pub open spec fn case_views(v: Seq<TestCase>) -> Seq<CaseV> {
    Seq::new(v.len(), |i: int| v[i]@)
}

/// The position where the leading blanks of `s@.subrange(a, len)` end.
fn front_start(s: &str, a: usize) -> (r: usize)
    requires
        a <= s@.len(),
    ensures
        a <= r <= s@.len(),
        trim_front(s@.subrange(a as int, s@.len() as int)) == s@.subrange(
            r as int,
            s@.len() as int,
        ),
    decreases s@.len() - a,
{
    let n = s.unicode_len();
    if a < n {
        let c = s.get_char(a);
        if c == ' ' || c == '\t' || c == '\r' {
            proof {
                assert(s@.subrange(a as int, n as int).drop_first() =~= s@.subrange(
                    a as int + 1,
                    n as int,
                ));
            }
            return front_start(s, a + 1);
        }
    }
    a
}

/// The position where the trailing blanks of `s@.subrange(a, b)` begin.
fn back_end(s: &str, a: usize, b: usize) -> (r: usize)
    requires
        a <= b <= s@.len(),
    ensures
        a <= r <= b,
        trim_back(s@.subrange(a as int, b as int)) == s@.subrange(a as int, r as int),
    decreases b,
{
    if b > a {
        let c = s.get_char(b - 1);
        if c == ' ' || c == '\t' || c == '\r' {
            proof {
                assert(s@.subrange(a as int, b as int).drop_last() =~= s@.subrange(
                    a as int,
                    b as int - 1,
                ));
            }
            return back_end(s, a, b - 1);
        }
    }
    proof {
        assert(trim_back(s@.subrange(a as int, b as int)) =~= s@.subrange(a as int, b as int));
    }
    b
}

/// A line with the blanks at both ends removed.
pub fn trim_str(s: &str) -> (r: String)
    ensures
        r@ == trimmed(s@),
{
    let n = s.unicode_len();
    proof {
        assert(s@.subrange(0, s@.len() as int) =~= s@);
    }
    let a = front_start(s, 0);
    let b = back_end(s, a, n);
    let r = s.substring_char(a, b);
    r.to_owned()
}

/// First position of the comment marker `// ` in the line, if any.
pub fn find_comment(s: &str) -> (r: Option<usize>)
    ensures
        match r {
            Some(c) => c as int == find_comment_from(s@, 0) && c + 3 <= s@.len(),
            None => find_comment_from(s@, 0) == -1,
        },
{
    let n = s.unicode_len();
    if n < 3 {
        return None;
    }
    let mut j: usize = 0;
    while j <= n - 3
        invariant
            n == s@.len(),
            3 <= n,
            0 <= j <= n,
            find_comment_from(s@, 0) == find_comment_from(s@, j as int),
        decreases n - j,
    {
        if s.get_char(j) == '/' && s.get_char(j + 1) == '/' && s.get_char(j + 2) == ' ' {
            return Some(j);
        }
        j = j + 1;
    }
    None
}

/// First position of the arrow marker `=>` in the text, if any.
pub fn find_arrow(s: &str) -> (r: Option<usize>)
    ensures
        match r {
            Some(c) => c as int == find_arrow_from(s@, 0) && c + 2 <= s@.len(),
            None => find_arrow_from(s@, 0) == -1,
        },
{
    let n = s.unicode_len();
    if n < 2 {
        return None;
    }
    let mut j: usize = 0;
    while j <= n - 2
        invariant
            n == s@.len(),
            2 <= n,
            0 <= j <= n,
            find_arrow_from(s@, 0) == find_arrow_from(s@, j as int),
        decreases n - j,
    {
        if s.get_char(j) == '=' && s.get_char(j + 1) == '>' {
            return Some(j);
        }
        j = j + 1;
    }
    None
}

impl TestCase {
    /// Split a marker-free line at its first arrow into an unnamed
    /// before/after case.
    pub fn try_from(line: &str) -> (r: Option<TestCase>)
        ensures
            match r {
                Some(c) => case_of_rest(line@) == Some(c@),
                None => case_of_rest(line@) is None,
            },
    {
        let n = line.unicode_len();
        match find_arrow(line) {
            Some(d) => {
                let before = trim_str(line.substring_char(0, d));
                let after = trim_str(line.substring_char(d + 2, n));
                Some(TestCase { name: None, before, after })
            },
            None => None,
        }
    }
}

/// Extract the embedded test case of every line of a text: the first
/// comment marker of a line opens the case, its first arrow separates the
/// input from the expected output.
pub fn collect_from_comments(text: &str) -> (r: Vec<TestCase>)
    ensures
        case_views(r@) == collect_cases(text@),
{
    let n = text.unicode_len();
    let mut acc: Vec<TestCase> = Vec::new();
    let mut ls: usize = 0;
    let mut j: usize = 0;
    proof {
        assert(case_views(acc@) =~= Seq::<CaseV>::empty());
    }
    while j < n
        invariant
            n == text@.len(),
            0 <= ls <= j <= n,
            collect_from(text@, j as int, ls as int, case_views(acc@)) == collect_cases(text@),
        decreases n - j,
    {
        if text.get_char(j) == '\n' {
            let line = text.substring_char(ls, j);
            push_line_case(&mut acc, line);
            ls = j + 1;
        }
        j = j + 1;
    }
    let line = text.substring_char(ls, n);
    proof {
        assert(line@ =~= text@.subrange(ls as int, text@.len() as int));
    }
    push_line_case(&mut acc, line);
    acc
}

/// Append the case of one line, where it yields one.
fn push_line_case(acc: &mut Vec<TestCase>, line: &str)
    ensures
        case_views(final(acc)@) == case_views(old(acc)@) + opt_to_seq(case_of_line(line@)),
{
    let n = line.unicode_len();
    match find_comment(line) {
        Some(c) => {
            let rest = line.substring_char(c + 3, n);
            match TestCase::try_from(rest) {
                Some(tc) => {
                    acc.push(tc);
                    proof {
                        assert(case_views(acc@) =~= case_views(old(acc)@) + opt_to_seq(
                            case_of_line(line@),
                        ));
                    }
                },
                None => {
                    proof {
                        assert(case_views(acc@) =~= case_views(old(acc)@) + opt_to_seq(
                            case_of_line(line@),
                        ));
                    }
                },
            }
        },
        None => {
            proof {
                assert(case_views(acc@) =~= case_views(old(acc)@) + opt_to_seq(
                    case_of_line(line@),
                ));
            }
        },
    }
}

/// The fixture suffixes: a "before" file ends in `.bad.nix`, its expected
/// sibling replaces that suffix with `.good.nix`.
pub open spec fn bad_suffix() -> Seq<char> {
    ".bad.nix"@
}

pub open spec fn good_suffix() -> Seq<char> {
    ".good.nix"@
}

/// The expected sibling of a fixture file name: for a name ending in the
/// "before" suffix, the same stem with the "after" suffix; nothing for any
/// other name.
pub open spec fn good_name_spec(s: Seq<char>) -> Option<Seq<char>> {
    if s.len() >= 8 && s.subrange(s.len() - 8, s.len() as int) == bad_suffix() {
        Some(s.subrange(0, s.len() - 8) + good_suffix())
    } else {
        None
    }
}

/// The expected sibling of a fixture file name, where the name carries the
/// "before" suffix.
pub fn good_name_of(name: &str) -> (r: Option<String>)
    ensures
        match r {
            Some(g) => good_name_spec(name@) == Some(g@),
            None => good_name_spec(name@) is None,
        },
{
    let n = name.unicode_len();
    if n < 8 {
        return None;
    }
    let tail = name.substring_char(n - 8, n);
    let bad = ".bad.nix";
    proof {
        reveal_strlit(".bad.nix");
    }
    let is_bad = str_eq_8(tail, bad);
    if is_bad {
        proof {
            assert(name@.subrange(name@.len() - 8, name@.len() as int) =~= bad_suffix());
        }
        let stem = name.substring_char(0, n - 8);
        let mut out = stem.to_owned();
        out.append(".good.nix");
        proof {
            assert(out@ =~= name@.subrange(0, name@.len() - 8) + good_suffix());
        }
        Some(out)
    } else {
        proof {
            if name@.subrange(name@.len() - 8, name@.len() as int) == bad_suffix() {
                assert(tail@ =~= bad_suffix());
            }
        }
        None
    }
}

/// Character-wise equality of two eight-character texts.
fn str_eq_8(a: &str, b: &str) -> (r: bool)
    requires
        a@.len() == 8,
        b@.len() == 8,
    ensures
        r == (a@ == b@),
{
    let mut j: usize = 0;
    while j < 8
        invariant
            a@.len() == 8,
            b@.len() == 8,
            0 <= j <= 8,
            forall|m: int| 0 <= m < j ==> a@[m] == b@[m],
        decreases 8 - j,
    {
        if a.get_char(j) != b.get_char(j) {
            proof {
                assert(a@[j as int] != b@[j as int]);
            }
            return false;
        }
        j = j + 1;
    }
    proof {
        assert(a@ =~= b@);
    }
    true
}

} // verus!
