use vstd::prelude::*;

use crate::json::{NewIssueRequest, join, joined, texts};

verus! {

/// The lines of a text as `str::lines` yields them.
pub uninterp spec fn lines_of(s: Seq<char>) -> Seq<Seq<char>>;

/// A text without its leading and trailing whitespace, as `str::trim` gives it.
pub uninterp spec fn trimmed(s: Seq<char>) -> Seq<char>;

/// A text without the `#` characters at either end.
pub open spec fn hash_trimmed(s: Seq<char>) -> Seq<char>
    decreases s.len(),
{
    if s.len() > 0 && s[0] == '#' {
        hash_trimmed(s.drop_first())
    } else if s.len() > 0 && s.last() == '#' {
        hash_trimmed(s.drop_last())
    } else {
        s
    }
}

/// Relies on `str::lines`: the lines of the text, each as a string.
#[verifier::external_body]
fn split_lines(s: &str) -> (r: Vec<String>)
    ensures
        texts(r@) == lines_of(s@),
{
    s.lines().map(|l| l.to_string()).collect()
}

/// Relies on `str::trim_matches` with the pattern `'#'`: every `#` at the
/// start and at the end is removed, nothing else.
#[verifier::external_body]
fn trim_hashes(s: &str) -> (r: String)
    ensures
        r@ == hash_trimmed(s@),
{
    s.trim_matches('#').to_string()
}

/// Relies on `str::trim`: the text without leading and trailing whitespace.
#[verifier::external_body]
fn trim(s: &str) -> (r: String)
    ensures
        r@ == trimmed(s@),
{
    s.trim().to_string()
}

/// The title of the issue for a feedback document with these lines: its first
/// line, or `Feedback` when it has none, without the heading marks and the
/// surrounding whitespace.
pub open spec fn title_of(lines: Seq<Seq<char>>) -> Seq<char> {
    let first = if lines.len() == 0 {
        "Feedback"@
    } else {
        lines[0]
    };
    trimmed(hash_trimmed(first))
}

/// The description of the issue for a feedback document with these lines:
/// every line after the first, joined by line feeds.
pub open spec fn description_of(lines: Seq<Seq<char>>) -> Seq<char> {
    if lines.len() == 0 {
        Seq::empty()
    } else {
        joined(lines.drop_first(), seq!['\n'])
    }
}

impl NewIssueRequest {
    /// The issue for a feedback document already split into lines.
    pub fn from_lines(lines: &Vec<String>, labels: Vec<String>) -> (r: NewIssueRequest)
        ensures
            r.title@ == title_of(texts(lines@)),
            r.description@ == description_of(texts(lines@)),
            r.labels@ == labels@,
    {
        let ghost ls = texts(lines@);
        let n = lines.len();
        let title = if n == 0 {
            trim(&trim_hashes("Feedback"))
        } else {
            trim(&trim_hashes(lines[0].as_str()))
        };
        let mut rest: Vec<String> = Vec::new();
        let mut i: usize = 1;
        while i < n
            invariant
                n == lines@.len(),
                ls == texts(lines@),
                1 <= i <= n || (n == 0 && i == 1),
                n > 0 ==> texts(rest@) == ls.subrange(1, i as int),
            decreases n - i,
        {
            let ghost before = rest@;
            rest.push(lines[i].clone());
            assert(texts(rest@) =~= texts(before).push(ls[i as int]));
            assert(ls.subrange(1, i + 1) =~= ls.subrange(1, i as int).push(ls[i as int]));
            i = i + 1;
        }
        let sep = "\n";
        proof {
            reveal_strlit("\n");
        }
        assert(sep@ =~= seq!['\n']);
        let description = if n == 0 {
            String::new()
        } else {
            assert(ls.drop_first() =~= ls.subrange(1, n as int));
            join(&rest, sep)
        };
        NewIssueRequest { title, description, labels }
    }

    /// The issue for a feedback document: the first line gives the title, the
    /// other lines the description.
    pub fn from_feedback(document: &str, labels: Vec<String>) -> (r: NewIssueRequest)
        ensures
            r.title@ == title_of(lines_of(document@)),
            r.description@ == description_of(lines_of(document@)),
            r.labels@ == labels@,
    {
        let lines = split_lines(document);
        NewIssueRequest::from_lines(&lines, labels)
    }
}

} // verus!
