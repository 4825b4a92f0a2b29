//! Which files count as spreadsheets.

use vstd::prelude::*;

verus! {

/// Whether a file with this extension is taken for a spreadsheet.
pub open spec fn is_spreadsheet(extension: Seq<char>) -> bool {
    extension == "xlsx"@ || extension == "xls"@
}

/// Tells whether a file with this extension, given without its dot, is to
/// be loaded.
pub fn is_spreadsheet_extension(extension: &str) -> (known: bool)
    ensures
        known == is_spreadsheet(extension@),
{
    let given = extension.to_owned();
    given == "xlsx".to_owned() || given == "xls".to_owned()
}

} // verus!
