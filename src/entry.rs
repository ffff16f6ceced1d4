use vstd::prelude::*;
use vstd::string::StrSliceExecFns;

verus! {

/// What a directory entry is, after resolving a symlink once.
#[derive(Clone, Copy, Debug, PartialEq, Eq, Structural)]
pub enum EntryKind {
    File,
    Directory,
    SymlinkToDirectory,
    SymlinkToOther,
    Other,
}

/// One real entry of the listed directory.
///
/// `path` is where confirming the entry leads: the entry's own path for a
/// directory, the resolved target for a symlink to a directory.
#[derive(Debug)]
pub struct Entry {
    pub name: String,
    pub path: String,
    pub kind: EntryKind,
    pub readable: bool,
}

/// One addressable cell of the grid.
#[derive(Debug)]
pub enum Item {
    Back,
    Entry(Entry),
    Close,
}

/// The kind of an entry from what its file type and, for a symlink, its
/// resolved target report.
pub open spec fn classify_spec(is_dir: bool, is_file: bool, is_symlink: bool, target_is_dir: bool) -> EntryKind {
    if is_dir {
        EntryKind::Directory
    } else if is_file {
        EntryKind::File
    } else if is_symlink {
        if target_is_dir {
            EntryKind::SymlinkToDirectory
        } else {
            EntryKind::SymlinkToOther
        }
    } else {
        EntryKind::Other
    }
}

/// Classifies an entry from its file type (`is_dir`, `is_file`, `is_symlink`,
/// which do not follow symlinks) and whether a symlink's target is a directory.
pub fn classify(is_dir: bool, is_file: bool, is_symlink: bool, target_is_dir: bool) -> (r: EntryKind)
    ensures
        r == classify_spec(is_dir, is_file, is_symlink, target_is_dir),
{
    if is_dir {
        EntryKind::Directory
    } else if is_file {
        EntryKind::File
    } else if is_symlink {
        if target_is_dir {
            EntryKind::SymlinkToDirectory
        } else {
            EntryKind::SymlinkToOther
        }
    } else {
        EntryKind::Other
    }
}

/// Entries that sort in the first partition.
pub open spec fn is_directory(e: Entry) -> bool {
    e.kind == EntryKind::Directory
}

/// Entries that can be entered, provided they are readable.
pub open spec fn is_navigable(e: Entry) -> bool {
    e.kind == EntryKind::Directory || e.kind == EntryKind::SymlinkToDirectory
}

/// The directories of `s`, in their order in `s`.
pub open spec fn directories_of(s: Seq<Entry>) -> Seq<Entry>
    decreases s.len(),
{
    if s.len() == 0 {
        Seq::empty()
    } else if is_directory(s.last()) {
        directories_of(s.drop_last()).push(s.last())
    } else {
        directories_of(s.drop_last())
    }
}

/// The entries of `s` that are not directories, in their order in `s`.
pub open spec fn others_of(s: Seq<Entry>) -> Seq<Entry>
    decreases s.len(),
{
    if s.len() == 0 {
        Seq::empty()
    } else if !is_directory(s.last()) {
        others_of(s.drop_last()).push(s.last())
    } else {
        others_of(s.drop_last())
    }
}

/// Directories first, then the rest, each part in input order.
pub open spec fn sorted_spec(s: Seq<Entry>) -> Seq<Entry> {
    directories_of(s) + others_of(s)
}

/// The item list of a frame: Back, the sorted entries, Close.
pub open spec fn items_spec(s: Seq<Entry>) -> Seq<Item> {
    seq![Item::Back] + sorted_spec(s).map_values(|e: Entry| Item::Entry(e)) + seq![Item::Close]
}

proof fn lemma_partitions(s: Seq<Entry>)
    ensures
        directories_of(s) == s.filter(|e: Entry| is_directory(e)),
        others_of(s) == s.filter(|e: Entry| !is_directory(e)),
        forall|i: int| 0 <= i < directories_of(s).len() ==> is_directory(#[trigger] directories_of(s)[i]),
        forall|i: int| 0 <= i < others_of(s).len() ==> !is_directory(#[trigger] others_of(s)[i]),
        directories_of(s).len() + others_of(s).len() == s.len(),
    decreases s.len(),
{
    reveal_with_fuel(Seq::filter, 1);
    if s.len() > 0 {
        lemma_partitions(s.drop_last());
    } else {
        assert(directories_of(s) == s);
        assert(others_of(s) == s);
    }
}

/// Every directory stands before every other entry in the sorted order, the
/// entries are those of the input, and each part keeps the input's order:
/// the directories are the input filtered to directories, the rest the input
/// filtered to non-directories.
pub proof fn lemma_directories_first(s: Seq<Entry>)
    ensures
        sorted_spec(s) == s.filter(|e: Entry| is_directory(e)) + s.filter(|e: Entry| !is_directory(e)),
        sorted_spec(s).len() == s.len(),
        forall|i: int, j: int|
            0 <= i < j < sorted_spec(s).len() && is_directory(#[trigger] sorted_spec(s)[j])
                ==> is_directory(#[trigger] sorted_spec(s)[i]),
{
    lemma_partitions(s);
    let d = directories_of(s);
    let o = others_of(s);
    assert forall|i: int, j: int|
        0 <= i < j < sorted_spec(s).len() && is_directory(#[trigger] sorted_spec(s)[j])
            implies is_directory(#[trigger] sorted_spec(s)[i]) by {
        if j >= d.len() {
            assert(sorted_spec(s)[j] == o[j - d.len()]);
        }
        assert(sorted_spec(s)[i] == d[i]);
    }
}

impl Entry {
    /// A copy of the entry.
    pub fn duplicate(&self) -> (r: Entry)
        ensures
            r == *self,
    {
        Entry {
            name: self.name.clone(),
            path: self.path.clone(),
            kind: self.kind,
            readable: self.readable,
        }
    }

    pub fn is_navigable(&self) -> (r: bool)
        ensures
            r == is_navigable(*self),
    {
        match self.kind {
            EntryKind::Directory => true,
            EntryKind::SymlinkToDirectory => true,
            _ => false,
        }
    }

    pub fn is_directory(&self) -> (r: bool)
        ensures
            r == is_directory(*self),
    {
        match self.kind {
            EntryKind::Directory => true,
            _ => false,
        }
    }
}

/// Orders entries directories first; within each part the input order is kept.
pub fn sort_entries(entries: &Vec<Entry>) -> (r: Vec<Entry>)
    ensures
        r@ == sorted_spec(entries@),
{
    let mut dirs: Vec<Entry> = Vec::new();
    let mut others: Vec<Entry> = Vec::new();
    let mut i: usize = 0;
    while i < entries.len()
        invariant
            i <= entries@.len(),
            dirs@ == directories_of(entries@.take(i as int)),
            others@ == others_of(entries@.take(i as int)),
        decreases entries@.len() - i,
    {
        let e = entries[i].duplicate();
        assert(entries@.take(i as int + 1).drop_last() == entries@.take(i as int));
        if e.is_directory() {
            dirs.push(e);
        } else {
            others.push(e);
        }
        i = i + 1;
    }
    assert(entries@.take(i as int) == entries@);
    let mut j: usize = 0;
    let ghost d = dirs@;
    while j < others.len()
        invariant
            j <= others@.len(),
            dirs@ == d + others@.take(j as int),
        decreases others@.len() - j,
    {
        let e = others[j].duplicate();
        dirs.push(e);
        assert(others@.take(j as int + 1) == others@.take(j as int).push(others@[j as int]));
        j = j + 1;
    }
    assert(others@.take(j as int) == others@);
    dirs
}

/// Builds a frame's item list from the directory's entries.
pub fn build_items(entries: &Vec<Entry>) -> (r: Vec<Item>)
    ensures
        r@ == items_spec(entries@),
        r@.len() >= 2,
{
    let sorted = sort_entries(entries);
    let mut items: Vec<Item> = Vec::new();
    items.push(Item::Back);
    let mut i: usize = 0;
    while i < sorted.len()
        invariant
            i <= sorted@.len(),
            sorted@ == sorted_spec(entries@),
            items@ == seq![Item::Back] + sorted@.take(i as int).map_values(|e: Entry| Item::Entry(e)),
        decreases sorted@.len() - i,
    {
        let e = sorted[i].duplicate();
        items.push(Item::Entry(e));
        assert(sorted@.take(i as int + 1) == sorted@.take(i as int).push(sorted@[i as int]));
        assert(sorted@.take(i as int + 1).map_values(|e: Entry| Item::Entry(e))
            == sorted@.take(i as int).map_values(|e: Entry| Item::Entry(e)).push(Item::Entry(sorted@[i as int])));
        i = i + 1;
    }
    assert(sorted@.take(i as int) == sorted@);
    items.push(Item::Close);
    items
}

/// A name that starts with a dot is hidden.
pub open spec fn is_hidden(name: Seq<char>) -> bool {
    name.len() > 0 && name[0] == '.'
}

/// The entries to list: all of them, or those that are not hidden, in input order.
pub open spec fn listed_spec(s: Seq<Entry>, show_hidden: bool) -> Seq<Entry> {
    if show_hidden { s } else { s.filter(|e: Entry| !is_hidden(e.name@)) }
}

pub fn name_is_hidden(name: &str) -> (r: bool)
    ensures
        r == is_hidden(name@),
{
    name.unicode_len() > 0 && name.get_char(0) == '.'
}

/// Drops hidden entries unless they are to be shown.
pub fn listed_entries(entries: Vec<Entry>, show_hidden: bool) -> (r: Vec<Entry>)
    ensures
        r@ == listed_spec(entries@, show_hidden),
{
    if show_hidden {
        return entries;
    }
    let mut kept: Vec<Entry> = Vec::new();
    let mut i: usize = 0;
    while i < entries.len()
        invariant
            i <= entries@.len(),
            kept@ == entries@.take(i as int).filter(|e: Entry| !is_hidden(e.name@)),
        decreases entries@.len() - i,
    {
        reveal_with_fuel(Seq::filter, 1);
        assert(entries@.take(i as int + 1).drop_last() == entries@.take(i as int));
        if !name_is_hidden(entries[i].name.as_str()) {
            kept.push(entries[i].duplicate());
        }
        i = i + 1;
    }
    assert(entries@.take(i as int) == entries@);
    kept
}

/// The item list of a frame from a raw listing.
pub fn frame_items(entries: Vec<Entry>, show_hidden: bool) -> (r: Vec<Item>)
    ensures
        r@ == items_spec(listed_spec(entries@, show_hidden)),
        r@.len() >= 2,
{
    let listed = listed_entries(entries, show_hidden);
    build_items(&listed)
}

} // verus!
