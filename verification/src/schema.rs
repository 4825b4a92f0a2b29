//! Columns of a destination table: names from the header row, storage types
//! from one sampled data row.

use vstd::prelude::*;
use crate::cell::{cell_text, Cell, CellView};
use crate::sanitize::{sanitize_identifier, sanitized};

verus! {

/// The storage types a column can get.
#[derive(Clone, Copy, Debug, PartialEq, Eq, Structural)]
pub enum StorageType {
    BigInt,
    Double,
    Boolean,
    Varchar,
    Timestamp,
}

/// The name of a storage type in SQL.
pub open spec fn storage_name(t: StorageType) -> Seq<char> {
    match t {
        StorageType::BigInt => "BIGINT"@,
        StorageType::Double => "DOUBLE"@,
        StorageType::Boolean => "BOOLEAN"@,
        StorageType::Varchar => "VARCHAR"@,
        StorageType::Timestamp => "TIMESTAMP"@,
    }
}

impl StorageType {
    /// The type's name in SQL.
    pub fn sql_name(&self) -> (name: &'static str)
        ensures
            name@ == storage_name(*self),
    {
        match self {
            StorageType::BigInt => "BIGINT",
            StorageType::Double => "DOUBLE",
            StorageType::Boolean => "BOOLEAN",
            StorageType::Varchar => "VARCHAR",
            StorageType::Timestamp => "TIMESTAMP",
        }
    }
}

/// One column of a destination table.
#[derive(Clone, Debug, PartialEq, Eq)]
pub struct Column {
    pub name: String,
    pub storage: StorageType,
}

/// The mathematical value of a [`Column`].
pub ghost struct ColumnView {
    pub name: Seq<char>,
    pub storage: StorageType,
}

impl View for Column {
    type V = ColumnView;

    open spec fn view(&self) -> ColumnView {
        ColumnView { name: self.name@, storage: self.storage }
    }
}

impl DeepView for Column {
    type V = ColumnView;

    open spec fn deep_view(&self) -> ColumnView {
        self@
    }
}

/// The storage type that a sampled cell stands for. Only integers, floats,
/// booleans, text and date-time serials are recognized; every other cell
/// gives text.
pub open spec fn type_of_cell(c: CellView) -> StorageType {
    match c {
        CellView::Int(_) => StorageType::BigInt,
        CellView::Float(_) => StorageType::Double,
        CellView::Bool(_) => StorageType::Boolean,
        CellView::DateTime(_) => StorageType::Timestamp,
        _ => StorageType::Varchar,
    }
}

/// The storage type of column `index`, judged by the sampled row alone:
/// text where there is no sample or the sample has no cell at `index`.
pub open spec fn inferred_type(index: int, sample: Option<Seq<CellView>>) -> StorageType {
    match sample {
        Some(row) => if 0 <= index < row.len() {
            type_of_cell(row[index])
        } else {
            StorageType::Varchar
        },
        None => StorageType::Varchar,
    }
}

/// Infers the storage type of column `index` from the sampled row.
pub fn infer_type(index: usize, sample: Option<&[Cell]>) -> (t: StorageType)
    ensures
        t == inferred_type(index as int, sample.deep_view()),
{
    match sample {
        Some(row) => {
            if index < row.len() {
                match &row[index] {
                    Cell::Int(_) => StorageType::BigInt,
                    Cell::Float(_) => StorageType::Double,
                    Cell::Bool(_) => StorageType::Boolean,
                    Cell::DateTime(_) => StorageType::Timestamp,
                    _ => StorageType::Varchar,
                }
            } else {
                StorageType::Varchar
            }
        },
        None => StorageType::Varchar,
    }
}

/// The columns that a header row and a sampled row give: one per header
/// cell, named by the cell's sanitized text.
pub open spec fn resolved_columns(header: Seq<CellView>, sample: Option<Seq<CellView>>) -> Seq<
    ColumnView,
> {
    Seq::new(
        header.len(),
        |i: int|
            ColumnView { name: sanitized(cell_text(header[i])), storage: inferred_type(i, sample) },
    )
}

/// Resolves the columns of a sheet from its header row and its first data
/// row, if it has one.
pub fn resolve_columns(header: &[Cell], sample: Option<&[Cell]>) -> (columns: Vec<Column>)
    ensures
        columns.deep_view() == resolved_columns(header.deep_view(), sample.deep_view()),
{
    let mut columns: Vec<Column> = Vec::new();
    for i in 0..header.len()
        invariant
            columns.deep_view() == resolved_columns(header.deep_view(), sample.deep_view()).take(
                i as int,
            ),
    {
        let ghost before = columns.deep_view();
        let text = header[i].text();
        let name = sanitize_identifier(text.as_str());
        let storage = infer_type(i, sample);
        columns.push(Column { name, storage });
        proof {
            let want = resolved_columns(header.deep_view(), sample.deep_view());
            assert(header.deep_view()[i as int] == header@[i as int]@);
            assert(before.len() == i);
            assert forall|j: int| 0 <= j < i + 1 implies columns.deep_view()[j] == want[j] by {
                if j < i {
                    assert(columns.deep_view()[j] == before[j]);
                    assert(before[j] == want.take(i as int)[j]);
                }
            }
            assert(columns.deep_view() =~= want.take(i + 1));
        }
    }
    assert(columns.deep_view() =~= resolved_columns(header.deep_view(), sample.deep_view()));
    columns
}

} // verus!
