//! The transfer table: its filters and its sort column.

use vstd::prelude::*;

verus! {

broadcast use vstd::string::group_string_axioms;

/// The column the transfer table is sorted by.
#[derive(Debug, Clone, Copy, PartialEq, Eq, Structural)]
pub enum SortColumn {
    Client,
    File,
    Direction,
    Size,
    Duration,
    Speed,
    Status,
    Retransmits,
}

/// The filters and sort order of the transfer table.
pub struct TransfersState {
    pub filter_ip: String,
    pub filter_filename: String,
    pub filter_status: String,
    pub sort_column: SortColumn,
    pub sort_ascending: bool,
}

impl TransfersState {
    /// No filters, every status shown, longest transfers first.
    pub fn new() -> (r: Self)
        ensures
            r.filter_ip@.len() == 0,
            r.filter_filename@.len() == 0,
            r.filter_status@ == "all"@,
            r.sort_column == SortColumn::Duration,
            !r.sort_ascending,
    {
        TransfersState {
            filter_ip: String::new(),
            filter_filename: String::new(),
            filter_status: "all".to_string(),
            sort_column: SortColumn::Duration,
            sort_ascending: false,
        }
    }
}

/// The heading of a column: its label, with ` [A]` or ` [D]` after it when
/// the table is sorted by it (ascending or descending).
pub fn sort_header_text(label: &str, col: SortColumn, current: SortColumn, ascending: bool) -> (r:
    String)
    ensures
        r@ == label@ + if current == col {
            if ascending {
                " [A]"@
            } else {
                " [D]"@
            }
        } else {
            Seq::<char>::empty()
        },
{
    let mut out = label.to_string();
    if current == col {
        if ascending {
            out.append(" [A]");
        } else {
            out.append(" [D]");
        }
    }
    out
}

} // verus!
