//! A directory as the dispatcher sees it: the names of its entries, and the
//! text of those that were read.

use vstd::prelude::*;
use vstd::string::StringExecFns;

verus! {

/// One entry of a directory.
#[derive(Debug)]
pub struct FileEntry {
    /// The entry's name, without any path.
    pub name: String,
    /// The entry's text; `None` where it was not read or could not be read as text.
    pub text: Option<String>,
}

/// What a `FileEntry` stands for.
pub struct FileSpec {
    pub name: Seq<char>,
    pub text: Option<Seq<char>>,
}

impl View for FileEntry {
    type V = FileSpec;

    open spec fn view(&self) -> FileSpec {
        FileSpec {
            name: self.name@,
            text: match self.text {
                Some(text) => Some(text@),
                None => None,
            },
        }
    }
}

/// The entries of one directory, in the order in which they were listed.
#[derive(Debug)]
pub struct Directory {
    pub entries: Vec<FileEntry>,
}

impl View for Directory {
    type V = Seq<FileSpec>;

    open spec fn view(&self) -> Seq<FileSpec> {
        self.entries@.map_values(|entry: FileEntry| entry@)
    }
}

/// The index of the first of `entries` named `name`, or their number where none is.
pub open spec fn entry_index(entries: Seq<FileSpec>, name: Seq<char>) -> int
    decreases entries.len(),
{
    if entries.len() == 0 || entries.first().name == name {
        0
    } else {
        1 + entry_index(entries.drop_first(), name)
    }
}

/// Whether one of `entries` is named `name`.
pub open spec fn has_file(entries: Seq<FileSpec>, name: Seq<char>) -> bool {
    entry_index(entries, name) < entries.len()
}

/// The text of the first of `entries` named `name`; `None` where there is no
/// such entry or it has no text.
pub open spec fn file_text(entries: Seq<FileSpec>, name: Seq<char>) -> Option<Seq<char>> {
    if has_file(entries, name) {
        entries[entry_index(entries, name)].text
    } else {
        None
    }
}

/// `entry_index` finds the first entry of that name, and misses none.
pub proof fn lemma_entry_index(entries: Seq<FileSpec>, name: Seq<char>)
    ensures
        0 <= entry_index(entries, name) <= entries.len(),
        has_file(entries, name) ==> entries[entry_index(entries, name)].name == name,
        forall|k: int| 0 <= k < entry_index(entries, name) ==> entries[k].name != name,
        has_file(entries, name) <==> exists|k: int|
            0 <= k < entries.len() && entries[k].name == name,
    decreases entries.len(),
{
    if entries.len() > 0 && entries.first().name != name {
        let rest = entries.drop_first();
        lemma_entry_index(rest, name);
        assert forall|k: int| 0 <= k < entry_index(entries, name) implies entries[k].name
            != name by {
            if k > 0 {
                assert(entries[k] == rest[k - 1]);
            }
        }
    }
}

/// Whether two listings of a directory name the same entries in the same order.
pub open spec fn same_names(a: Seq<FileSpec>, b: Seq<FileSpec>) -> bool {
    a.len() == b.len() && forall|i: int| 0 <= i < a.len() ==> (#[trigger] a[i]).name == b[i].name
}

/// Listings with the same entries find the same entry under a name.
pub proof fn lemma_same_index(a: Seq<FileSpec>, b: Seq<FileSpec>, name: Seq<char>)
    requires
        same_names(a, b),
    ensures
        entry_index(a, name) == entry_index(b, name),
    decreases a.len(),
{
    if a.len() > 0 {
        if a.first().name != name {
            lemma_same_index(a.drop_first(), b.drop_first(), name);
        }
    }
}

impl Directory {
    /// A directory without entries.
    pub fn new() -> (dir: Directory)
        ensures
            dir@ == Seq::<FileSpec>::empty(),
    {
        let dir = Directory { entries: Vec::new() };
        dir
    }

    /// Adds an entry named `name` that holds `text`.
    pub fn add_file(&mut self, name: &str, text: &str)
        ensures
            final(self)@ == old(self)@.push(FileSpec { name: name@, text: Some(text@) }),
    {
        let entry = FileEntry { name: String::from_str(name), text: Some(String::from_str(text)) };
        self.entries.push(entry);
    }

    /// Adds an entry named `name` whose text is not known.
    pub fn add_entry(&mut self, name: &str)
        ensures
            final(self)@ == old(self)@.push(FileSpec { name: name@, text: None }),
    {
        let entry = FileEntry { name: String::from_str(name), text: None };
        self.entries.push(entry);
    }

    /// The index of the first entry named `name`.
    pub fn find(&self, name: &str) -> (found: Option<usize>)
        ensures
            match found {
                Some(index) => has_file(self@, name@) && index == entry_index(self@, name@),
                None => !has_file(self@, name@),
            },
    {
        let wanted = String::from_str(name);
        let mut i: usize = 0;
        while i < self.entries.len()
            invariant
                i <= self.entries@.len(),
                wanted@ == name@,
                forall|k: int| 0 <= k < i ==> self@[k].name != name@,
            decreases self.entries@.len() - i,
        {
            if self.entries[i].name == wanted {
                proof {
                    lemma_entry_index(self@, name@);
                    assert(self@[i as int].name == name@);
                }
                return Some(i);
            }
            i += 1;
        }
        proof {
            lemma_entry_index(self@, name@);
        }
        None
    }

    /// Whether the directory has an entry named `name`.
    pub fn contains(&self, name: &str) -> (found: bool)
        ensures
            found == has_file(self@, name@),
    {
        self.find(name).is_some()
    }

    /// The text of the first entry named `name`.
    pub fn read(&self, name: &str) -> (text: Option<&String>)
        ensures
            match text {
                Some(text) => file_text(self@, name@) == Some(text@),
                None => file_text(self@, name@) is None,
            },
    {
        match self.find(name) {
            Some(index) => self.entries[index].text.as_ref(),
            None => None,
        }
    }
}

} // verus!
