//! The workbook backend's rules: which sheet a request reads, and which
//! rows of that sheet make up a window. Row 0 of a sheet is its header.
use crate::model::{LoadError, LoadResult};
use vstd::prelude::*;

verus! {

/// The sheet a request reads: the requested one when it exists, else the first.
pub open spec fn sheet_for(sheet_count: nat, requested: nat) -> nat {
    if requested < sheet_count {
        requested
    } else {
        0
    }
}

/// One past the last sheet row a window serves.
pub open spec fn window_end(total_rows: nat, start_row: nat, row_count: nat) -> nat {
    if start_row + 1 + row_count <= total_rows {
        start_row + 1 + row_count
    } else {
        total_rows
    }
}

/// The sheet rows a window serves: those after the header and the
/// `start_row` rows before the window, up to `row_count` of them.
pub open spec fn window_rows(sheet: Seq<Vec<String>>, start_row: nat, row_count: nat) -> Seq<
    Vec<String>,
> {
    let end = window_end(sheet.len(), start_row, row_count);
    if start_row + 1 < end {
        sheet.subrange((start_row + 1) as int, end as int)
    } else {
        Seq::empty()
    }
}

/// Picks the sheet to read, correcting an index out of range to the first
/// sheet; fails only on a workbook without sheets.
pub fn select_sheet(sheet_names: &Vec<String>, requested: usize) -> (r: Result<usize, LoadError>)
    ensures
        sheet_names@.len() == 0 ==> r matches Err(LoadError::NoSheets),
        sheet_names@.len() > 0 ==> r == Ok::<usize, LoadError>(
            sheet_for(sheet_names@.len(), requested as nat) as usize,
        ),
{
    if sheet_names.len() == 0 {
        Err(LoadError::NoSheets)
    } else if requested < sheet_names.len() {
        Ok(requested)
    } else {
        Ok(0)
    }
}

/// Cuts the window `[start_row, start_row + row_count)` of data rows out of
/// a whole sheet, with the sheet's header row on the first window.
pub fn workbook_window(
    sheet: Vec<Vec<String>>,
    sheet_names: Vec<String>,
    start_row: usize,
    row_count: usize,
) -> (r: LoadResult)
    ensures
        r.sheet_names@ == sheet_names@,
        r.headers@ == if start_row == 0 && sheet@.len() > 0 {
            sheet@[0]@
        } else {
            Seq::<String>::empty()
        },
        r.rows@ == window_rows(sheet@, start_row as nat, row_count as nat),
        r.end_of_data == (window_end(sheet@.len(), start_row as nat, row_count as nat)
            >= sheet@.len()),
{
    let ghost whole = sheet@;
    let mut sheet = sheet;
    let n = sheet.len();
    let mut headers: Vec<String> = Vec::new();
    if start_row >= n {
        return LoadResult { headers, rows: Vec::new(), sheet_names, end_of_data: true };
    }
    let data_start = start_row + 1;
    let data_end = if row_count <= n - data_start {
        data_start + row_count
    } else {
        n
    };
    let mut rows = sheet.split_off(data_start);
    rows.truncate(data_end - data_start);
    if start_row == 0 {
        headers = sheet.swap_remove(0);
    }
    proof {
        assert(rows@ =~= window_rows(whole, start_row as nat, row_count as nat));
    }
    LoadResult { headers, rows, sheet_names, end_of_data: data_end >= n }
}

/// Once a window of a sheet reports the end of the data, a later window of
/// the same sheet, starting at or after the first row it did not serve,
/// holds no rows.
pub proof fn lemma_sheet_end_is_final(
    sheet: Seq<Vec<String>>,
    start1: nat,
    count1: nat,
    start2: nat,
    count2: nat,
)
    requires
        window_end(sheet.len(), start1, count1) >= sheet.len(),
        start2 >= start1 + window_rows(sheet, start1, count1).len(),
    ensures
        window_rows(sheet, start2, count2).len() == 0,
        window_end(sheet.len(), start2, count2) >= sheet.len(),
{
}

} // verus!
