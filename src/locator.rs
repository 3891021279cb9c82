//! The file locator's own logic: from the entries that a glob walk yields,
//! keep the regular files, once each and in walk order, and turn the
//! entries that could not be read into warnings.
use vstd::prelude::*;

verus! {

/// One entry of a glob walk.
pub enum GlobEntry {
    /// A path that matched, and whether it is a regular file.
    Matched { path: String, is_file: bool },
    /// An entry that could not be read, with the walker's message.
    Unreadable(String),
}

/// The target files, and a warning for each unreadable entry.
pub struct Located {
    pub files: Vec<String>,
    pub warnings: Vec<String>,
}

/// The regular files among the entries, each path once, in walk order.
pub open spec fn selected_files(entries: Seq<GlobEntry>) -> Seq<Seq<char>>
    decreases entries.len(),
{
    if entries.len() == 0 {
        Seq::empty()
    } else {
        let before = selected_files(entries.drop_last());
        match entries.last() {
            GlobEntry::Matched { path, is_file } => if is_file && !before.contains(path@) {
                before.push(path@)
            } else {
                before
            },
            GlobEntry::Unreadable(_) => before,
        }
    }
}

/// The messages of the unreadable entries, in walk order.
pub open spec fn entry_warnings(entries: Seq<GlobEntry>) -> Seq<Seq<char>>
    decreases entries.len(),
{
    if entries.len() == 0 {
        Seq::empty()
    } else {
        let before = entry_warnings(entries.drop_last());
        match entries.last() {
            GlobEntry::Unreadable(m) => before.push(m@),
            GlobEntry::Matched { .. } => before,
        }
    }
}

/// Some entry matched as a regular file with this path.
pub open spec fn matched_as_file(entries: Seq<GlobEntry>, p: Seq<char>) -> bool {
    exists|e: int|
        0 <= e < entries.len() && (#[trigger] entries[e] matches GlobEntry::Matched { path, is_file }
            && is_file && path@ == p)
}

/// Only regular files are selected, and each path at most once: every
/// selected path is that of an entry that matched as a regular file, and no
/// two selected paths are equal.
pub proof fn lemma_selected_are_distinct_files(entries: Seq<GlobEntry>)
    ensures
        forall|k: int| 0 <= k < selected_files(entries).len()
            ==> matched_as_file(entries, #[trigger] selected_files(entries)[k]),
        selected_files(entries).no_duplicates(),
    decreases entries.len(),
{
    if entries.len() > 0 {
        let rest = entries.drop_last();
        lemma_selected_are_distinct_files(rest);
        let sel = selected_files(entries);
        assert forall|k: int| 0 <= k < sel.len() implies matched_as_file(entries, #[trigger] sel[k]) by {
            if k < selected_files(rest).len() {
                assert(matched_as_file(rest, selected_files(rest)[k]));
                let e = choose|e: int| 0 <= e < rest.len() && (#[trigger] rest[e] matches GlobEntry::Matched { path, is_file }
                    && is_file && path@ == selected_files(rest)[k]);
                assert(entries[e] == rest[e]);
            } else {
                assert(entries[entries.len() - 1] == entries.last());
            }
        }
    }
}

/// Whether the list already holds the path.
fn holds_path(files: &Vec<String>, path: &String) -> (r: bool)
    ensures
        r == files@.map_values(|s: String| s@).contains(path@),
{
    let ghost texts = files@.map_values(|s: String| s@);
    let mut i: usize = 0;
    while i < files.len()
        invariant
            i <= files@.len(),
            texts == files@.map_values(|s: String| s@),
            forall|k: int| 0 <= k < i ==> texts[k] != path@,
        decreases files@.len() - i,
    {
        if files[i] == *path {
            assert(texts[i as int] == path@);
            return true;
        }
        i += 1;
    }
    false
}

/// Keeps the regular files among the entries of a glob walk, dropping
/// directories and repeated paths, and collects a warning for each entry
/// that could not be read; no entry stops the selection.
pub fn select_files(entries: Vec<GlobEntry>) -> (r: Located)
    ensures
        r.files@.map_values(|s: String| s@) == selected_files(entries@),
        r.warnings@.map_values(|s: String| s@) == entry_warnings(entries@),
{
    let mut files: Vec<String> = Vec::new();
    let mut warnings: Vec<String> = Vec::new();
    let mut i: usize = 0;
    while i < entries.len()
        invariant
            i <= entries@.len(),
            files@.map_values(|s: String| s@) == selected_files(entries@.take(i as int)),
            warnings@.map_values(|s: String| s@) == entry_warnings(entries@.take(i as int)),
        decreases entries@.len() - i,
    {
        let ghost (pf, pw) = (files@, warnings@);
        assert(entries@.take(i + 1).drop_last() =~= entries@.take(i as int));
        match &entries[i] {
            GlobEntry::Matched { path, is_file } => {
                if *is_file && !holds_path(&files, path) {
                    files.push(path.clone());
                    assert(files@.map_values(|s: String| s@) =~= pf.map_values(|s: String| s@).push(path@));
                }
            },
            GlobEntry::Unreadable(m) => {
                warnings.push(m.clone());
                assert(warnings@.map_values(|s: String| s@) =~= pw.map_values(|s: String| s@).push(m@));
            },
        }
        i += 1;
    }
    assert(entries@.take(i as int) =~= entries@);
    Located { files, warnings }
}

} // verus!
