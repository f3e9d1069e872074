//! The file browser: the directory shown and its entries, directories
//! first, then by name.

use vstd::prelude::*;

use crate::tftp::text::{lemma_lex_total, lemma_lex_trans, lex_le, str_lex_le};

verus! {

broadcast use vstd::string::group_string_axioms, vstd::seq_lib::group_to_multiset_ensures,
    vstd::multiset::group_multiset_axioms;

/// The order of the file list: directories before files, then by name.
pub open spec fn listed_before(a_dir: bool, a_name: Seq<char>, b_dir: bool, b_name: Seq<char>) -> bool {
    (a_dir && !b_dir) || (a_dir == b_dir && lex_le(a_name, b_name))
}

pub proof fn lemma_listed_total(a_dir: bool, a_name: Seq<char>, b_dir: bool, b_name: Seq<char>)
    ensures
        listed_before(a_dir, a_name, b_dir, b_name) || listed_before(b_dir, b_name, a_dir, a_name),
{
    lemma_lex_total(a_name, b_name);
}

pub proof fn lemma_listed_trans(
    a_dir: bool,
    a_name: Seq<char>,
    b_dir: bool,
    b_name: Seq<char>,
    c_dir: bool,
    c_name: Seq<char>,
)
    requires
        listed_before(a_dir, a_name, b_dir, b_name),
        listed_before(b_dir, b_name, c_dir, c_name),
    ensures
        listed_before(a_dir, a_name, c_dir, c_name),
{
    if a_dir == b_dir && b_dir == c_dir {
        lemma_lex_trans(a_name, b_name, c_name);
    }
}

/// One entry of a directory.
pub struct DirEntry {
    pub name: String,
    pub path: String,
    pub is_dir: bool,
    pub size: u64,
}

pub open spec fn entry_before(a: DirEntry, b: DirEntry) -> bool {
    listed_before(a.is_dir, a.name@, b.is_dir, b.name@)
}

/// Whether the entries are in the order of the file list.
pub open spec fn entries_sorted(s: Seq<DirEntry>) -> bool {
    forall|i: int, j: int| 0 <= i < j < s.len() ==> entry_before(#[trigger] s[i], #[trigger] s[j])
}

fn entry_before_exec(a: &DirEntry, b: &DirEntry) -> (r: bool)
    ensures
        r == entry_before(*a, *b),
{
    (a.is_dir && !b.is_dir) || (a.is_dir == b.is_dir && str_lex_le(a.name.as_str(), b.name.as_str()))
}

/// The entries in the order of the file list: directories first, then by name.
pub fn sort_entries(v: Vec<DirEntry>) -> (r: Vec<DirEntry>)
    ensures
        r@.to_multiset() == v@.to_multiset(),
        entries_sorted(r@),
{
    let ghost orig = v@;
    let mut rest = v;
    let mut out: Vec<DirEntry> = Vec::new();
    while rest.len() > 0
        invariant
            out@.to_multiset().add(rest@.to_multiset()) == orig.to_multiset(),
            entries_sorted(out@),
        decreases rest.len(),
    {
        let ghost before_rest = rest@;
        let x = rest.remove(0);
        proof {
            assert(before_rest =~= before_rest.remove(0).insert(0, x));
            vstd::seq_lib::to_multiset_insert(before_rest.remove(0), 0, x);
        }
        let mut pos: usize = 0;
        while pos < out.len() && entry_before_exec(&out[pos], &x)
            invariant
                pos <= out@.len(),
                forall|k: int| 0 <= k < pos ==> entry_before(#[trigger] out@[k], x),
            decreases out.len() - pos,
        {
            pos = pos + 1;
        }
        let ghost old_out = out@;
        proof {
            if pos < old_out.len() {
                lemma_listed_total(
                    old_out[pos as int].is_dir,
                    old_out[pos as int].name@,
                    x.is_dir,
                    x.name@,
                );
            }
            assert forall|j: int| pos <= j < old_out.len() implies entry_before(
                x,
                #[trigger] old_out[j],
            ) by {
                if j > pos {
                    lemma_listed_trans(
                        x.is_dir,
                        x.name@,
                        old_out[pos as int].is_dir,
                        old_out[pos as int].name@,
                        old_out[j].is_dir,
                        old_out[j].name@,
                    );
                }
            }
        }
        out.insert(pos, x);
        proof {
            vstd::seq_lib::to_multiset_insert(old_out, pos as int, x);
            assert forall|i: int, j: int| 0 <= i < j < out@.len() implies entry_before(
                #[trigger] out@[i],
                #[trigger] out@[j],
            ) by {
                if j < pos {
                    assert(out@[i] == old_out[i] && out@[j] == old_out[j]);
                } else if j == pos {
                    assert(out@[i] == old_out[i]);
                } else if i == pos {
                    assert(out@[j] == old_out[j - 1]);
                } else if i < pos {
                    assert(out@[i] == old_out[i] && out@[j] == old_out[j - 1]);
                } else {
                    assert(out@[i] == old_out[i - 1] && out@[j] == old_out[j - 1]);
                }
            }
            assert(out@.to_multiset().add(rest@.to_multiset()) =~= orig.to_multiset());
        }
    }
    out
}

/// The file browser's state.
pub struct FilesState {
    pub current_root: String,
    pub entries: Vec<DirEntry>,
    pub selected: Option<usize>,
    pub needs_refresh: bool,
}

impl FilesState {
    /// The browser on `root`, its entries still to be read.
    pub fn new(root: String) -> (r: Self)
        ensures
            r.current_root@ == root@,
            r.entries@.len() == 0,
            r.selected is None,
            r.needs_refresh,
    {
        FilesState { current_root: root, entries: Vec::new(), selected: None, needs_refresh: true }
    }

    /// Show the entries read from the directory, in the order of the list.
    pub fn set_entries(&mut self, entries: Vec<DirEntry>)
        ensures
            final(self).entries@.to_multiset() == entries@.to_multiset(),
            entries_sorted(final(self).entries@),
            !final(self).needs_refresh,
            final(self).current_root == old(self).current_root,
            final(self).selected == old(self).selected,
    {
        self.entries = sort_entries(entries);
        self.needs_refresh = false;
    }
}

} // verus!
