//! The text of the statements sent to the store.

use vstd::prelude::*;
use crate::cell::{cell_literal, Cell, CellView};
use crate::sanitize::{is_identifier, is_valid_identifier};
use crate::schema::{storage_name, Column, ColumnView};

verus! {

/// `parts` written one after another with `sep` between neighbours.
pub open spec fn joined(parts: Seq<Seq<char>>, sep: Seq<char>) -> Seq<char>
    decreases parts.len(),
{
    if parts.len() == 0 {
        Seq::empty()
    } else if parts.len() == 1 {
        parts[0]
    } else {
        joined(parts.drop_last(), sep) + sep + parts.last()
    }
}

/// One more part after `i` parts: the separator comes first unless it is the
/// first part.
pub proof fn lemma_joined_step(parts: Seq<Seq<char>>, sep: Seq<char>, i: int)
    requires
        0 <= i < parts.len(),
    ensures
        joined(parts.take(i + 1), sep) == if i == 0 {
            parts[i]
        } else {
            joined(parts.take(i), sep) + sep + parts[i]
        },
{
    assert(parts.take(i + 1).drop_last() =~= parts.take(i));
    assert(parts.take(i + 1).last() == parts[i]);
    if i == 0 {
        assert(parts.take(1)[0] == parts[0]);
    }
}

/// Why a table cannot be created.
#[derive(Clone, Copy, Debug, PartialEq, Eq, Structural)]
pub enum SchemaError {
    /// The table would have no column.
    NoColumns,
    /// The table's name is not a usable identifier.
    InvalidTableName,
    /// The column at `index` is the first whose name is not a usable
    /// identifier.
    InvalidColumnName { index: usize },
}

/// How one column stands in a table definition: its name, a space, its type.
pub open spec fn column_definition(c: ColumnView) -> Seq<char> {
    c.name + " "@ + storage_name(c.storage)
}

/// The statement that creates `table` with `columns`, replacing a table of
/// that name if there is one.
pub open spec fn create_text(table: Seq<char>, columns: Seq<ColumnView>) -> Seq<char> {
    "CREATE OR REPLACE TABLE "@ + table + " ("@ + joined(
        columns.map_values(|c: ColumnView| column_definition(c)),
        ", "@,
    ) + ")"@
}

/// Column `index` is the first whose name is not a usable identifier.
pub open spec fn is_first_invalid(columns: Seq<ColumnView>, index: int) -> bool {
    &&& 0 <= index < columns.len()
    &&& !is_identifier(columns[index].name)
    &&& forall|j: int| 0 <= j < index ==> is_identifier(#[trigger] columns[j].name)
}

/// Every column has a usable name.
pub open spec fn all_named(columns: Seq<ColumnView>) -> bool {
    forall|j: int| 0 <= j < columns.len() ==> is_identifier(#[trigger] columns[j].name)
}

/// What is wrong with a table definition, if anything: no columns, else an
/// unusable table name, else the first unusable column name.
pub open spec fn schema_fault(table: Seq<char>, columns: Seq<ColumnView>) -> Option<SchemaError> {
    if columns.len() == 0 {
        Some(SchemaError::NoColumns)
    } else if !is_identifier(table) {
        Some(SchemaError::InvalidTableName)
    } else if !all_named(columns) {
        Some(
            SchemaError::InvalidColumnName {
                index: (choose|i: int| is_first_invalid(columns, i)) as usize,
            },
        )
    } else {
        None
    }
}

/// At most one column is the first with an unusable name.
pub proof fn lemma_first_invalid_unique(columns: Seq<ColumnView>, i: int, j: int)
    requires
        is_first_invalid(columns, i),
        is_first_invalid(columns, j),
    ensures
        i == j,
{
    if i < j {
        assert(is_identifier(columns[i].name));
    } else if j < i {
        assert(is_identifier(columns[j].name));
    }
}

fn first_invalid_column(columns: &[Column]) -> (found: Option<usize>)
    ensures
        match found {
            Some(index) => is_first_invalid(columns.deep_view(), index as int),
            None => all_named(columns.deep_view()),
        },
{
    for i in 0..columns.len()
        invariant
            forall|j: int| 0 <= j < i ==> is_identifier(#[trigger] columns.deep_view()[j].name),
    {
        assert(columns.deep_view()[i as int] == columns@[i as int]@);
        if !is_valid_identifier(columns[i].name.as_str()) {
            return Some(i);
        }
    }
    None
}

/// Renders the statement that creates `table` with `columns`, or says what
/// is wrong with the definition.
pub fn create_table_statement(table: &str, columns: &[Column]) -> (r: Result<String, SchemaError>)
    ensures
        match r {
            Ok(text) => schema_fault(table@, columns.deep_view()) is None && text@ == create_text(
                table@,
                columns.deep_view(),
            ),
            Err(fault) => schema_fault(table@, columns.deep_view()) == Some(fault),
        },
{
    let ghost cols = columns.deep_view();
    if columns.len() == 0 {
        return Err(SchemaError::NoColumns);
    }
    if !is_valid_identifier(table) {
        return Err(SchemaError::InvalidTableName);
    }
    match first_invalid_column(columns) {
        Some(index) => {
            proof {
                let chosen = choose|i: int| is_first_invalid(cols, i);
                lemma_first_invalid_unique(cols, index as int, chosen);
            }
            return Err(SchemaError::InvalidColumnName { index });
        },
        None => {},
    }
    let ghost defs = cols.map_values(|c: ColumnView| column_definition(c));
    let mut text = String::new();
    text.append("CREATE OR REPLACE TABLE ");
    text.append(table);
    text.append(" (");
    let ghost head = text@;
    for i in 0..columns.len()
        invariant
            cols == columns.deep_view(),
            defs == cols.map_values(|c: ColumnView| column_definition(c)),
            text@ == head + joined(defs.take(i as int), ", "@),
    {
        proof {
            lemma_joined_step(defs, ", "@, i as int);
            assert(cols[i as int] == columns@[i as int]@);
        }
        if i > 0 {
            text.append(", ");
        }
        text.append(columns[i].name.as_str());
        text.append(" ");
        text.append(columns[i].storage.sql_name());
        assert(text@ =~= head + joined(defs.take(i + 1), ", "@));
    }
    text.append(")");
    proof {
        assert(defs.take(columns.len() as int) =~= defs);
        assert(text@ =~= create_text(table@, cols));
    }
    Ok(text)
}

/// The literals of one row fitted to `width` columns: cells beyond the last
/// column are left out, missing cells are `NULL`.
pub open spec fn row_values(row: Seq<CellView>, width: nat) -> Seq<Seq<char>> {
    Seq::new(
        width,
        |i: int|
            if i < row.len() {
                cell_literal(row[i])
            } else {
                "NULL"@
            },
    )
}

/// One row as it stands in an insertion: its fitted literals in brackets.
pub open spec fn tuple_text(row: Seq<CellView>, width: nat) -> Seq<char> {
    "("@ + joined(row_values(row, width), ", "@) + ")"@
}

/// The statement that inserts `rows` into `table`, each fitted to `width`
/// columns.
pub open spec fn insert_text(table: Seq<char>, rows: Seq<Seq<CellView>>, width: nat) -> Seq<char> {
    "INSERT INTO "@ + table + " VALUES "@ + joined(
        rows.map_values(|row: Seq<CellView>| tuple_text(row, width)),
        ", "@,
    )
}

/// Appends one row, fitted to `width` columns and in brackets, to `out`.
pub fn push_tuple(out: &mut String, row: &[Cell], width: usize)
    ensures
        final(out)@ == old(out)@ + tuple_text(row.deep_view(), width as nat),
{
    let ghost values = row_values(row.deep_view(), width as nat);
    out.append("(");
    let ghost head = out@;
    for i in 0..width
        invariant
            values == row_values(row.deep_view(), width as nat),
            out@ == head + joined(values.take(i as int), ", "@),
    {
        proof {
            lemma_joined_step(values, ", "@, i as int);
        }
        if i > 0 {
            out.append(", ");
        }
        if i < row.len() {
            assert(row.deep_view()[i as int] == row@[i as int]@);
            let literal = row[i].literal();
            out.append(literal.as_str());
        } else {
            out.append("NULL");
        }
        assert(out@ =~= head + joined(values.take(i + 1), ", "@));
    }
    out.append(")");
    proof {
        assert(values.take(width as int) =~= values);
        assert(out@ =~= old(out)@ + tuple_text(row.deep_view(), width as nat));
    }
}

/// Renders the statement that inserts `rows` into `table`, each fitted to
/// `width` columns.
pub fn insert_statement(table: &str, rows: &[Vec<Cell>], width: usize) -> (text: String)
    ensures
        text@ == insert_text(table@, rows.deep_view(), width as nat),
{
    let ghost tuples = rows.deep_view().map_values(
        |row: Seq<CellView>| tuple_text(row, width as nat),
    );
    let mut text = String::new();
    text.append("INSERT INTO ");
    text.append(table);
    text.append(" VALUES ");
    let ghost head = text@;
    for i in 0..rows.len()
        invariant
            tuples == rows.deep_view().map_values(
                |row: Seq<CellView>| tuple_text(row, width as nat),
            ),
            text@ == head + joined(tuples.take(i as int), ", "@),
    {
        proof {
            lemma_joined_step(tuples, ", "@, i as int);
            assert(rows.deep_view()[i as int] == rows@[i as int].deep_view());
        }
        if i > 0 {
            text.append(", ");
        }
        push_tuple(&mut text, rows[i].as_slice(), width);
        assert(text@ =~= head + joined(tuples.take(i + 1), ", "@));
    }
    proof {
        assert(tuples.take(rows.len() as int) =~= tuples);
        assert(text@ =~= insert_text(table@, rows.deep_view(), width as nat));
    }
    text
}

/// The statement that drops `table` if it exists.
pub open spec fn drop_text(table: Seq<char>) -> Seq<char> {
    "DROP TABLE IF EXISTS \""@ + table + "\""@
}

/// Renders the statement that drops `table` if it exists.
pub fn drop_table_statement(table: &str) -> (text: String)
    ensures
        text@ == drop_text(table@),
{
    let mut text = String::new();
    text.append("DROP TABLE IF EXISTS \"");
    text.append(table);
    text.append("\"");
    assert(text@ =~= drop_text(table@));
    text
}

/// The query that lists the tables the store holds, one name per row.
pub const TABLE_LISTING_QUERY: &'static str = "SELECT name FROM sqlite_master WHERE type='table'";

} // verus!
