//! The record that one listing line describes.

use vstd::prelude::*;

verus! {

/// One entry of a directory listing.
#[derive(Debug, PartialEq, PartialOrd)]
pub struct FileInfo {
    /// The mode string: ten characters, the first of which tells the kind of entry.
    pub permissions: String,
    /// The number of hard links to the entry.
    pub hard_link_count: usize,
    /// The name of the owning user.
    pub owner: String,
    /// The name of the owning group.
    pub group: String,
    /// The size in bytes.
    pub size: usize,
    /// The time of the last change: month, day and time, a single space between them.
    pub last_modified: String,
    /// The name of the entry.
    pub name: String,
    /// The target of a symbolic link.
    pub link: Option<String>,
}

/// What a `FileInfo` holds, as mathematical values.
pub struct FileInfoView {
    pub permissions: Seq<char>,
    pub hard_link_count: nat,
    pub owner: Seq<char>,
    pub group: Seq<char>,
    pub size: nat,
    pub last_modified: Seq<char>,
    pub name: Seq<char>,
    pub link: Option<Seq<char>>,
}

impl FileInfoView {
    /// The mode string starts with `c`.
    pub open spec fn kind_is(self, c: char) -> bool {
        self.permissions.len() > 0 && self.permissions[0] == c
    }

    /// The entry is a directory.
    pub open spec fn is_dir(self) -> bool {
        self.kind_is('d')
    }

    /// The entry is no directory.
    pub open spec fn is_file(self) -> bool {
        !self.is_dir()
    }

    /// The entry is a symbolic link.
    pub open spec fn is_link(self) -> bool {
        self.kind_is('l')
    }
}

impl View for FileInfo {
    type V = FileInfoView;

    open spec fn view(&self) -> FileInfoView {
        FileInfoView {
            permissions: self.permissions@,
            hard_link_count: self.hard_link_count as nat,
            owner: self.owner@,
            group: self.group@,
            size: self.size as nat,
            last_modified: self.last_modified@,
            name: self.name@,
            link: match self.link {
                Some(target) => Some(target@),
                None => None,
            },
        }
    }
}

impl DeepView for FileInfo {
    type V = FileInfoView;

    open spec fn deep_view(&self) -> FileInfoView {
        self@
    }
}

impl Default for FileInfo {
    /// The record with empty texts, zero counts and no link target.
    fn default() -> (res: FileInfo)
        ensures
            res@ == (FileInfoView {
                permissions: Seq::empty(),
                hard_link_count: 0,
                owner: Seq::empty(),
                group: Seq::empty(),
                size: 0,
                last_modified: Seq::empty(),
                name: Seq::empty(),
                link: None,
            }),
    {
        FileInfo {
            permissions: String::new(),
            hard_link_count: 0,
            owner: String::new(),
            group: String::new(),
            size: 0,
            last_modified: String::new(),
            name: String::new(),
            link: None,
        }
    }
}

/// Tells whether `s` starts with `c`.
fn starts_with(s: &str, c: char) -> (b: bool)
    ensures
        b == (s@.len() > 0 && s@[0] == c),
{
    let mut it = s.chars();
    match it.next() {
        Some(first) => first == c,
        None => false,
    }
}

impl FileInfo {
    /// Tells whether the entry is a directory: its mode string starts with `d`.
    pub fn is_dir(&self) -> (b: bool)
        ensures
            b == self@.is_dir(),
    {
        starts_with(self.permissions.as_str(), 'd')
    }

    /// Tells whether the entry is no directory.
    pub fn is_file(&self) -> (b: bool)
        ensures
            b == self@.is_file(),
    {
        !self.is_dir()
    }

    /// Tells whether the entry is a symbolic link: its mode string starts with `l`.
    pub fn is_link(&self) -> (b: bool)
        ensures
            b == self@.is_link(),
    {
        starts_with(self.permissions.as_str(), 'l')
    }
}

} // verus!
