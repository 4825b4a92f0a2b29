//! Turning arbitrary display names into table and column identifiers.

use vstd::prelude::*;
use crate::text::unicode_alphanumeric;

verus! {

/// A character that survives sanitizing: a letter or a number. The separator
/// itself never counts, whatever Unicode says of it.
pub open spec fn is_word_char(c: char) -> bool {
    unicode_alphanumeric(c) && c != '_'
}

/// The identifier made from `s`: its word characters in order, with one `_`
/// wherever a run of other characters stood between two of them.
pub open spec fn sanitized(s: Seq<char>) -> Seq<char>
    decreases s.len(),
{
    if s.len() == 0 {
        Seq::empty()
    } else {
        let head = sanitized(s.drop_last());
        let c = s.last();
        if !is_word_char(c) {
            head
        } else if head.len() > 0 && s.len() >= 2 && !is_word_char(s[s.len() - 2]) {
            head.push('_').push(c)
        } else {
            head.push(c)
        }
    }
}

/// Word characters joined by single separators, starting with a word
/// character; only the last character may be a dangling separator.
pub open spec fn is_joined(t: Seq<char>) -> bool {
    &&& forall|i: int| 0 <= i < t.len() ==> is_word_char(#[trigger] t[i]) || t[i] == '_'
    &&& forall|i: int| 0 <= i < t.len() - 1 ==> !(#[trigger] t[i] == '_' && t[i + 1] == '_')
    &&& t.len() > 0 ==> t[0] != '_'
}

/// What the sanitizer's output looks like: empty, or word characters joined
/// by single separators with none at either end.
pub open spec fn is_clean(t: Seq<char>) -> bool {
    &&& is_joined(t)
    &&& t.len() > 0 ==> t.last() != '_'
}

/// The sanitizer's output is clean.
pub proof fn lemma_sanitized_is_clean(s: Seq<char>)
    ensures
        is_clean(sanitized(s)),
    decreases s.len(),
{
    if s.len() > 0 {
        lemma_sanitized_is_clean(s.drop_last());
    }
}

proof fn lemma_joined_fixed(t: Seq<char>)
    requires
        is_joined(t),
    ensures
        sanitized(t) == if t.len() > 0 && t.last() == '_' { t.drop_last() } else { t },
    decreases t.len(),
{
    if t.len() > 0 {
        let head = t.drop_last();
        lemma_joined_fixed(head);
        if t.last() == '_' {
            assert(t.len() >= 2);
            assert(head.last() == t[t.len() - 2]);
        } else if head.len() > 0 {
            assert(head.last() == t[t.len() - 2]);
            if head.last() == '_' {
                assert(head.len() >= 2);
                assert(head.drop_last().push('_').push(t.last()) =~= t);
            } else {
                assert(head.push(t.last()) =~= t);
            }
        } else {
            assert(head.push(t.last()) =~= t);
        }
    }
}

/// `s` holds at least one word character.
pub open spec fn has_word_char(s: Seq<char>) -> bool {
    exists|i: int| 0 <= i < s.len() && is_word_char(#[trigger] s[i])
}

/// The sanitizer's output is empty just when the input holds no word
/// character.
pub proof fn lemma_sanitized_empty(s: Seq<char>)
    ensures
        sanitized(s).len() == 0 <==> !has_word_char(s),
    decreases s.len(),
{
    if s.len() > 0 {
        let head = s.drop_last();
        lemma_sanitized_empty(head);
        if is_word_char(s.last()) {
            assert(is_word_char(s[s.len() - 1]));
        } else if has_word_char(s) {
            let i = choose|i: int| 0 <= i < s.len() && is_word_char(#[trigger] s[i]);
            assert(is_word_char(head[i]));
        } else if has_word_char(head) {
            let i = choose|i: int| 0 <= i < head.len() && is_word_char(#[trigger] head[i]);
            assert(is_word_char(s[i]));
        }
    }
}

/// A character that may stand in a table or column name.
pub open spec fn is_identifier_char(c: char) -> bool {
    unicode_alphanumeric(c) || c == '_'
}

/// A usable table or column name: not empty, and made of letters, numbers
/// and separators only.
pub open spec fn is_identifier(s: Seq<char>) -> bool {
    &&& s.len() > 0
    &&& forall|i: int| 0 <= i < s.len() ==> is_identifier_char(#[trigger] s[i])
}

/// Unless it is empty, the sanitizer's output is a usable name.
pub proof fn lemma_sanitized_is_identifier(s: Seq<char>)
    requires
        sanitized(s).len() > 0,
    ensures
        is_identifier(sanitized(s)),
{
    lemma_sanitized_is_clean(s);
}

/// Sanitizing leaves a clean identifier as it is.
pub proof fn lemma_clean_is_fixed(t: Seq<char>)
    requires
        is_clean(t),
    ensures
        sanitized(t) == t,
{
    lemma_joined_fixed(t);
}

/// Sanitizing twice gives what sanitizing once gives.
pub proof fn lemma_sanitize_idempotent(s: Seq<char>)
    ensures
        sanitized(sanitized(s)) == sanitized(s),
{
    lemma_sanitized_is_clean(s);
    lemma_clean_is_fixed(sanitized(s));
}

/// Sanitizing keeps every word character, in order, and adds none.
pub proof fn lemma_sanitized_keeps_words(s: Seq<char>)
    ensures
        sanitized(s).filter(|c: char| is_word_char(c)) == s.filter(|c: char| is_word_char(c)),
    decreases s.len(),
{
    reveal(Seq::filter);
    let word = |c: char| is_word_char(c);
    if s.len() > 0 {
        lemma_sanitized_keeps_words(s.drop_last());
        let head = sanitized(s.drop_last());
        let c = s.last();
        if is_word_char(c) {
            assert(head.push(c).drop_last() =~= head);
            assert(head.push('_').drop_last() =~= head);
            assert(head.push('_').push(c).drop_last() =~= head.push('_'));
            assert(head.push('_').filter(word) == head.filter(word));
        }
    }
}

/// Maps a display name to an identifier: letters and numbers are kept in
/// order, every run of other characters between two of them becomes one `_`,
/// and runs at either end are dropped. The result is clean, and sanitizing
/// it again gives it back; it is empty just when the name holds no letter
/// and no number.
pub fn sanitize_identifier(name: &str) -> (token: String)
    ensures
        token@ == sanitized(name@),
        is_clean(token@),
        sanitized(token@) == token@,
        token@.len() == 0 <==> !has_word_char(name@),
{
    let mut token = String::new();
    let mut started = false;
    let mut gap = false;
    for c in it: name.chars()
        invariant
            it.seq() == name@,
            token@ == sanitized(name@.take(it.index())),
            started == (token@.len() > 0),
            gap == (it.index() > 0 && !is_word_char(name@[it.index() - 1])),
    {
        proof {
            let i = it.index();
            assert(name@.take(i + 1).drop_last() =~= name@.take(i));
            assert(name@.take(i + 1).last() == c);
        }
        if c.is_alphanumeric() && c != '_' {
            if started && gap {
                token.push('_');
            }
            token.push(c);
            started = true;
            gap = false;
        } else {
            gap = true;
        }
    }
    proof {
        assert(name@.take(name@.len() as int) =~= name@);
        lemma_sanitized_is_clean(name@);
        lemma_sanitize_idempotent(name@);
        lemma_sanitized_empty(name@);
    }
    token
}

/// Whether `name` can stand as a table or column name.
pub fn is_valid_identifier(name: &str) -> (ok: bool)
    ensures
        ok == is_identifier(name@),
{
    let mut seen_any = false;
    for c in it: name.chars()
        invariant
            it.seq() == name@,
            seen_any == (it.index() > 0),
            forall|i: int| 0 <= i < it.index() ==> is_identifier_char(#[trigger] name@[i]),
    {
        if !(c.is_alphanumeric() || c == '_') {
            return false;
        }
        seen_any = true;
    }
    seen_any
}

/// The name of the table for a sheet of a file: the file's token, a
/// separator, the sheet's token.
pub open spec fn table_name_of(file_stem: Seq<char>, sheet_name: Seq<char>) -> Seq<char> {
    sanitized(file_stem) + "_"@ + sanitized(sheet_name)
}

/// Files whose names sanitize to one token give sheets of one name the same
/// table name.
pub proof fn lemma_same_token_same_table(file_a: Seq<char>, file_b: Seq<char>, sheet: Seq<char>)
    requires
        sanitized(file_a) == sanitized(file_b),
    ensures
        table_name_of(file_a, sheet) == table_name_of(file_b, sheet),
{
}

/// Names the table for a sheet whose file's name is already a token.
pub fn prefixed_table_name(prefix: &str, sheet_name: &str) -> (table: String)
    ensures
        table@ == prefix@ + "_"@ + sanitized(sheet_name@),
{
    let mut table = String::new();
    table.append(prefix);
    table.append("_");
    let sheet = sanitize_identifier(sheet_name);
    table.append(sheet.as_str());
    assert(table@ =~= prefix@ + "_"@ + sanitized(sheet_name@));
    table
}

/// Names the table for a sheet of a file.
pub fn table_name(file_stem: &str, sheet_name: &str) -> (table: String)
    ensures
        table@ == table_name_of(file_stem@, sheet_name@),
{
    let prefix = sanitize_identifier(file_stem);
    prefixed_table_name(prefix.as_str(), sheet_name)
}

} // verus!
