//! Cell values as the sheet decoder reports them, and their text forms.

use vstd::prelude::*;
use crate::decimal::{decimal_text, push_signed};

verus! {

/// One cell of a sheet. Numbers that are not integers, and date-time serial
/// numbers, are carried as the decimal text the decoder gives for them; an
/// error cell carries the error's display text.
#[derive(Clone, Debug, PartialEq, Eq)]
pub enum Cell {
    Int(i64),
    Float(String),
    Bool(bool),
    Text(String),
    DateTime(String),
    DateTimeIso(String),
    DurationIso(String),
    Error(String),
    Empty,
}

/// The mathematical value of a [`Cell`].
pub ghost enum CellView {
    Int(int),
    Float(Seq<char>),
    Bool(bool),
    Text(Seq<char>),
    DateTime(Seq<char>),
    DateTimeIso(Seq<char>),
    DurationIso(Seq<char>),
    Error(Seq<char>),
    Empty,
}

impl View for Cell {
    type V = CellView;

    open spec fn view(&self) -> CellView {
        match self {
            Cell::Int(v) => CellView::Int(*v as int),
            Cell::Float(t) => CellView::Float(t@),
            Cell::Bool(b) => CellView::Bool(*b),
            Cell::Text(t) => CellView::Text(t@),
            Cell::DateTime(t) => CellView::DateTime(t@),
            Cell::DateTimeIso(t) => CellView::DateTimeIso(t@),
            Cell::DurationIso(t) => CellView::DurationIso(t@),
            Cell::Error(t) => CellView::Error(t@),
            Cell::Empty => CellView::Empty,
        }
    }
}

impl DeepView for Cell {
    type V = CellView;

    open spec fn deep_view(&self) -> CellView {
        self@
    }
}

/// The text of a boolean.
pub open spec fn bool_text(b: bool) -> Seq<char> {
    if b {
        "true"@
    } else {
        "false"@
    }
}

/// `t` with every single quote written twice.
pub open spec fn quote_doubled(t: Seq<char>) -> Seq<char>
    decreases t.len(),
{
    if t.len() == 0 {
        Seq::empty()
    } else if t.last() == '\'' {
        quote_doubled(t.drop_last()).push('\'').push('\'')
    } else {
        quote_doubled(t.drop_last()).push(t.last())
    }
}

/// `t` with every pair of single quotes read as one.
pub open spec fn quote_halved(t: Seq<char>) -> Seq<char>
    decreases t.len(),
{
    if t.len() == 0 {
        Seq::empty()
    } else if t.len() >= 2 && t[0] == '\'' && t[1] == '\'' {
        seq!['\''] + quote_halved(t.skip(2))
    } else {
        seq![t[0]] + quote_halved(t.skip(1))
    }
}

proof fn lemma_quote_doubled_front(c: char, t: Seq<char>)
    ensures
        quote_doubled(seq![c] + t) == if c == '\'' {
            seq!['\'', '\''] + quote_doubled(t)
        } else {
            seq![c] + quote_doubled(t)
        },
    decreases t.len(),
{
    let whole = seq![c] + t;
    if t.len() == 0 {
        assert(whole.drop_last() =~= Seq::<char>::empty());
        assert(quote_doubled(whole.drop_last()) =~= Seq::<char>::empty());
        assert(quote_doubled(t) =~= Seq::<char>::empty());
        assert(quote_doubled(whole) =~= if c == '\'' {
            seq!['\'', '\''] + quote_doubled(t)
        } else {
            seq![c] + quote_doubled(t)
        });
    } else {
        lemma_quote_doubled_front(c, t.drop_last());
        assert(whole.drop_last() =~= seq![c] + t.drop_last());
        assert(whole.last() == t.last());
        let front = if c == '\'' {
            seq!['\'', '\'']
        } else {
            seq![c]
        };
        let inner = quote_doubled(t.drop_last());
        assert((front + inner).push('\'').push('\'') =~= front + inner.push('\'').push('\''));
        assert((front + inner).push(t.last()) =~= front + inner.push(t.last()));
    }
}

/// Doubling the quotes loses nothing: read with every pair as one quote, the
/// doubled text is the text again.
pub proof fn lemma_quote_doubling_undone(t: Seq<char>)
    ensures
        quote_halved(quote_doubled(t)) == t,
    decreases t.len(),
{
    if t.len() > 0 {
        let c = t[0];
        let rest = t.skip(1);
        assert(t =~= seq![c] + rest);
        lemma_quote_doubled_front(c, rest);
        lemma_quote_doubling_undone(rest);
        let doubled = quote_doubled(t);
        if c == '\'' {
            assert(doubled.skip(2) =~= quote_doubled(rest));
        } else {
            assert(doubled.skip(1) =~= quote_doubled(rest));
        }
    }
}

/// `t` between two single quotes.
pub open spec fn quoted(t: Seq<char>) -> Seq<char> {
    seq!['\''] + t + seq!['\'']
}

/// What a cell reads as when it names a column: its content as plain text,
/// nothing for an empty cell.
pub open spec fn cell_text(c: CellView) -> Seq<char> {
    match c {
        CellView::Int(v) => decimal_text(v),
        CellView::Float(t) => t,
        CellView::Bool(b) => bool_text(b),
        CellView::Text(t) => t,
        CellView::DateTime(t) => t,
        CellView::DateTimeIso(t) => t,
        CellView::DurationIso(t) => t,
        CellView::Error(t) => t,
        CellView::Empty => Seq::empty(),
    }
}

/// The SQL literal for a cell. Numbers and booleans stand bare; text stands
/// in single quotes with its own quotes doubled; ISO date-times and
/// durations stand in single quotes as they are; empty and error cells are
/// `NULL`.
pub open spec fn cell_literal(c: CellView) -> Seq<char> {
    match c {
        CellView::Int(v) => decimal_text(v),
        CellView::Float(t) => t,
        CellView::Bool(b) => bool_text(b),
        CellView::Text(t) => quoted(quote_doubled(t)),
        CellView::DateTime(t) => t,
        CellView::DateTimeIso(t) => quoted(t),
        CellView::DurationIso(t) => quoted(t),
        CellView::Error(_) => "NULL"@,
        CellView::Empty => "NULL"@,
    }
}

/// Appends `t` to `out` with every single quote written twice.
pub fn push_quote_doubled(out: &mut String, t: &str)
    ensures
        final(out)@ == old(out)@ + quote_doubled(t@),
{
    for c in it: t.chars()
        invariant
            it.seq() == t@,
            out@ == old(out)@ + quote_doubled(t@.take(it.index())),
    {
        proof {
            let i = it.index();
            assert(t@.take(i + 1).drop_last() =~= t@.take(i));
            assert(t@.take(i + 1).last() == c);
        }
        if c == '\'' {
            out.push('\'');
        }
        out.push(c);
    }
    proof {
        assert(t@.take(t@.len() as int) =~= t@);
    }
}

/// Appends `t` to `out` between two single quotes.
pub fn push_quoted(out: &mut String, t: &str)
    ensures
        final(out)@ == old(out)@ + quoted(t@),
{
    out.push('\'');
    out.append(t);
    out.push('\'');
    assert(out@ =~= old(out)@ + quoted(t@));
}

impl Cell {
    /// The cell's content as plain text.
    pub fn text(&self) -> (out: String)
        ensures
            out@ == cell_text(self@),
    {
        let mut out = String::new();
        match self {
            Cell::Int(v) => {
                push_signed(&mut out, *v);
            },
            Cell::Bool(b) => {
                if *b {
                    out.append("true");
                } else {
                    out.append("false");
                }
            },
            Cell::Float(t)
            | Cell::Text(t)
            | Cell::DateTime(t)
            | Cell::DateTimeIso(t)
            | Cell::DurationIso(t)
            | Cell::Error(t) => {
                out.append(t.as_str());
            },
            Cell::Empty => {},
        }
        assert(out@ =~= cell_text(self@));
        out
    }

    /// The cell as a SQL literal.
    pub fn literal(&self) -> (out: String)
        ensures
            out@ == cell_literal(self@),
    {
        let mut out = String::new();
        match self {
            Cell::Int(v) => {
                push_signed(&mut out, *v);
            },
            Cell::Bool(b) => {
                if *b {
                    out.append("true");
                } else {
                    out.append("false");
                }
            },
            Cell::Float(t) | Cell::DateTime(t) => {
                out.append(t.as_str());
            },
            Cell::Text(t) => {
                out.push('\'');
                push_quote_doubled(&mut out, t.as_str());
                out.push('\'');
            },
            Cell::DateTimeIso(t) | Cell::DurationIso(t) => {
                push_quoted(&mut out, t.as_str());
            },
            Cell::Error(_) | Cell::Empty => {
                out.append("NULL");
            },
        }
        assert(out@ =~= cell_literal(self@));
        out
    }
}

} // verus!
