//! The data that the listing works on: one entry's metadata snapshot and the
//! resolved configuration.

use vstd::prelude::*;

verus! {

/// A snapshot of an entry's metadata, taken once without following a final
/// symbolic link.
#[derive(Clone, Copy, Debug)]
pub struct Meta {
    pub mode: u32,
    pub size: u64,
    pub nlink: u64,
    pub uid: u32,
    pub gid: u32,
    pub ino: u64,
    pub blocks: u64,
    pub rdev: u64,
    pub mtime: i64,
    pub ctime: i64,
    pub atime: i64,
}

/// One filesystem object being listed.
#[derive(Debug)]
pub struct Entry {
    /// The name shown (the file name, not the whole path).
    pub name: String,
    /// The path used for metadata and for descending.
    pub path: String,
    pub meta: Meta,
    pub is_symlink: bool,
    /// The raw target of a symbolic link.
    pub symlink_target: Option<String>,
}

#[derive(Clone, Copy, Debug, PartialEq, Eq, Structural)]
pub enum SortBy {
    Name,
    Time,
    Size,
    Unsorted,
}

#[derive(Clone, Copy, Debug, PartialEq, Eq, Structural)]
pub enum TimeField {
    Modify,
    Change,
    Access,
    /// Creation time; the change time stands in for it.
    Birth,
}

#[derive(Clone, Copy, Debug, PartialEq, Eq, Structural)]
pub enum FollowSymlinks {
    Never,
    CommandLine,
    Always,
}

#[derive(Clone, Copy, Debug, PartialEq, Eq, Structural)]
pub enum ColorMode {
    Auto,
    Always,
    Never,
}

#[derive(Clone, Copy, Debug, PartialEq, Eq, Structural)]
pub enum OutputFormat {
    Default,
    MultiColumnDown,
    MultiColumnAcross,
    Stream,
}

/// Which names that start with a dot are listed.
#[derive(Clone, Copy, Debug, PartialEq, Eq, Structural)]
pub enum ShowHidden {
    /// None of them.
    Hide,
    /// All of them but `.` and `..`.
    AlmostAll,
    /// All of them.
    All,
}

/// The fully resolved options of one run.
#[derive(Clone, Copy, Debug)]
pub struct Config {
    pub show_hidden: ShowHidden,
    pub long: bool,
    pub one: bool,
    pub sort: SortBy,
    pub reverse: bool,
    pub classify: bool,
    pub slash: bool,
    pub human_readable: bool,
    pub color: ColorMode,
    pub inode: bool,
    pub blocks: bool,
    pub recursive: bool,
    pub follow_symlinks: FollowSymlinks,
    pub time_field: TimeField,
    pub format: OutputFormat,
}

/// The timestamp that `field` selects.
pub open spec fn time_of(m: Meta, field: TimeField) -> i64 {
    match field {
        TimeField::Modify => m.mtime,
        TimeField::Change => m.ctime,
        TimeField::Access => m.atime,
        TimeField::Birth => m.ctime,
    }
}

pub fn get_time_field(m: &Meta, field: TimeField) -> (r: i64)
    ensures
        r == time_of(*m, field),
{
    match field {
        TimeField::Modify => m.mtime,
        TimeField::Change => m.ctime,
        TimeField::Access => m.atime,
        TimeField::Birth => m.ctime,
    }
}

} // verus!
