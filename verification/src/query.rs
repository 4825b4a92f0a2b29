//! The query that runs once after loading: what it asks of the store, and
//! whether its rows go to a file.

use vstd::prelude::*;
use crate::text::{chars_of, unicode_whitespace};

verus! {

/// `s` without the white space it starts with.
pub open spec fn trim_start(s: Seq<char>) -> Seq<char>
    decreases s.len(),
{
    if s.len() > 0 && unicode_whitespace(s[0]) {
        trim_start(s.drop_first())
    } else {
        s
    }
}

/// `s` without the white space it ends with.
pub open spec fn trim_end(s: Seq<char>) -> Seq<char>
    decreases s.len(),
{
    if s.len() > 0 && unicode_whitespace(s.last()) {
        trim_end(s.drop_last())
    } else {
        s
    }
}

/// `s` without white space at either end.
pub open spec fn trimmed(s: Seq<char>) -> Seq<char> {
    trim_end(trim_start(s))
}

proof fn lemma_trim_start_bare(s: Seq<char>)
    ensures
        trim_start(s).len() > 0 ==> !unicode_whitespace(trim_start(s)[0]),
    decreases s.len(),
{
    if s.len() > 0 && unicode_whitespace(s[0]) {
        lemma_trim_start_bare(s.drop_first());
    }
}

proof fn lemma_trim_end_bare(s: Seq<char>)
    ensures
        trim_end(s) == s.take(trim_end(s).len() as int),
        trim_end(s).len() <= s.len(),
        trim_end(s).len() > 0 ==> !unicode_whitespace(trim_end(s).last()),
    decreases s.len(),
{
    if s.len() > 0 && unicode_whitespace(s.last()) {
        lemma_trim_end_bare(s.drop_last());
        let kept = trim_end(s).len() as int;
        assert(s.drop_last().take(kept) =~= s.take(kept));
    } else {
        assert(s.take(s.len() as int) =~= s);
    }
}

/// Trimmed text neither begins nor ends with white space.
pub proof fn lemma_trimmed_is_bare(s: Seq<char>)
    ensures
        trimmed(s).len() > 0 ==> !unicode_whitespace(trimmed(s)[0]) && !unicode_whitespace(
            trimmed(s).last(),
        ),
{
    lemma_trim_start_bare(s);
    lemma_trim_end_bare(trim_start(s));
}

/// The export marker `>>` stands at position `i` of `s`.
pub open spec fn is_marker_at(s: Seq<char>, i: int) -> bool {
    &&& 0 <= i
    &&& i + 1 < s.len()
    &&& s[i] == '>'
    &&& s[i + 1] == '>'
}

/// `s` holds the export marker somewhere.
pub open spec fn has_marker(s: Seq<char>) -> bool {
    exists|i: int| is_marker_at(s, i)
}

/// Position `i` is where the export marker first stands in `s`.
pub open spec fn is_first_marker(s: Seq<char>, i: int) -> bool {
    &&& is_marker_at(s, i)
    &&& forall|j: int| 0 <= j < i ==> !is_marker_at(s, j)
}

/// Where the export marker first stands in `s`, if `s` holds it.
pub open spec fn first_marker(s: Seq<char>) -> int {
    choose|i: int| is_first_marker(s, i)
}

/// The export marker first stands at one position only.
pub proof fn lemma_first_marker_unique(s: Seq<char>, i: int, j: int)
    requires
        is_first_marker(s, i),
        is_first_marker(s, j),
    ensures
        i == j,
{
}

/// What to do with the rows of the query.
#[derive(Clone, Debug, PartialEq, Eq)]
pub enum QueryRequest {
    /// Write the rows of `query` to the file at `path`.
    Export { query: String, path: String },
    /// Run `query` and count its rows.
    Count { query: String },
}

/// The mathematical value of a [`QueryRequest`].
pub ghost enum QueryRequestView {
    Export { query: Seq<char>, path: Seq<char> },
    Count { query: Seq<char> },
}

impl View for QueryRequest {
    type V = QueryRequestView;

    open spec fn view(&self) -> QueryRequestView {
        match self {
            QueryRequest::Export { query, path } => QueryRequestView::Export {
                query: query@,
                path: path@,
            },
            QueryRequest::Count { query } => QueryRequestView::Count { query: query@ },
        }
    }
}

/// How the text of a query request reads. With the export marker in it, what
/// stands before the first marker is the query and what stands after it is
/// the destination path, both without white space at their ends. Without the
/// marker the whole text is the query, as it is.
pub open spec fn parsed_request(s: Seq<char>) -> QueryRequestView {
    if has_marker(s) {
        let i = first_marker(s);
        QueryRequestView::Export {
            query: trimmed(s.take(i)),
            path: trimmed(s.skip(i + 2)),
        }
    } else {
        QueryRequestView::Count { query: s }
    }
}

/// The statement that writes the rows of `query` to the file at `path`,
/// comma-delimited under a header row.
pub open spec fn export_text(query: Seq<char>, path: Seq<char>) -> Seq<char> {
    "COPY ("@ + query + ") TO '"@ + path + "' (HEADER, DELIMITER ',')"@
}

/// What the store is asked to run for a request.
pub open spec fn request_text(request: QueryRequestView) -> Seq<char> {
    match request {
        QueryRequestView::Export { query, path } => export_text(query, path),
        QueryRequestView::Count { query } => query,
    }
}

fn find_marker(chars: &Vec<char>) -> (found: Option<usize>)
    ensures
        match found {
            Some(i) => is_first_marker(chars@, i as int),
            None => !has_marker(chars@),
        },
{
    let n = chars.len();
    if n < 2 {
        return None;
    }
    let mut i: usize = 0;
    while i < n - 1
        invariant
            n == chars.len(),
            i <= n - 1,
            forall|j: int| 0 <= j < i ==> !is_marker_at(chars@, j),
        decreases n - i,
    {
        if chars[i] == '>' && chars[i + 1] == '>' {
            return Some(i);
        }
        i += 1;
    }
    None
}

fn trimmed_range(chars: &Vec<char>, from: usize, to: usize) -> (out: String)
    requires
        from <= to <= chars.len(),
    ensures
        out@ == trimmed(chars@.subrange(from as int, to as int)),
{
    let ghost whole = chars@.subrange(from as int, to as int);
    let mut lo = from;
    while lo < to && chars[lo].is_whitespace()
        invariant
            from <= lo <= to <= chars.len(),
            trim_start(whole) == trim_start(chars@.subrange(lo as int, to as int)),
        decreases to - lo,
    {
        proof {
            assert(chars@.subrange(lo as int, to as int).drop_first() =~= chars@.subrange(
                lo + 1,
                to as int,
            ));
        }
        lo += 1;
    }
    let ghost rest = chars@.subrange(lo as int, to as int);
    assert(trim_start(whole) == rest);
    let mut hi = to;
    while hi > lo && chars[hi - 1].is_whitespace()
        invariant
            lo <= hi <= to <= chars.len(),
            trim_end(rest) == trim_end(chars@.subrange(lo as int, hi as int)),
        decreases hi - lo,
    {
        proof {
            assert(chars@.subrange(lo as int, hi as int).drop_last() =~= chars@.subrange(
                lo as int,
                hi - 1,
            ));
        }
        hi -= 1;
    }
    assert(trim_end(rest) == chars@.subrange(lo as int, hi as int));
    let mut out = String::new();
    for i in lo..hi
        invariant
            lo <= hi <= chars.len(),
            out@ == chars@.subrange(lo as int, i as int),
    {
        out.push(chars[i]);
        assert(out@ =~= chars@.subrange(lo as int, i + 1));
    }
    out
}

impl QueryRequest {
    /// Reads a query request: a query, or a query, the export marker `>>`
    /// and the path of the file that its rows go to.
    pub fn parse(input: &str) -> (request: QueryRequest)
        ensures
            request@ == parsed_request(input@),
    {
        let chars = chars_of(input);
        match find_marker(&chars) {
            Some(i) => {
                proof {
                    lemma_first_marker_unique(chars@, i as int, first_marker(chars@));
                    assert(chars@.take(i as int) =~= chars@.subrange(0, i as int));
                    assert(chars@.skip(i + 2) =~= chars@.subrange(i + 2, chars.len() as int));
                }
                let query = trimmed_range(&chars, 0, i);
                let path = trimmed_range(&chars, i + 2, chars.len());
                QueryRequest::Export { query, path }
            },
            None => QueryRequest::Count { query: input.to_owned() },
        }
    }

    /// Renders what the store is asked to run: the export statement, or the
    /// query itself.
    pub fn statement(&self) -> (text: String)
        ensures
            text@ == request_text(self@),
    {
        match self {
            QueryRequest::Export { query, path } => {
                let mut text = String::new();
                text.append("COPY (");
                text.append(query.as_str());
                text.append(") TO '");
                text.append(path.as_str());
                text.append("' (HEADER, DELIMITER ',')");
                assert(text@ =~= export_text(query@, path@));
                text
            },
            QueryRequest::Count { query } => query.clone(),
        }
    }
}

} // verus!
