//! Resolution of the command-line switches into one configuration: where
//! switches compete for one setting, a fixed priority decides.

use vstd::prelude::*;
use crate::entry::{ColorMode, Config, FollowSymlinks, OutputFormat, ShowHidden, SortBy, TimeField};
use crate::text::chars_of;

verus! {

/// The switches as given, before resolution.
#[derive(Debug, Default)]
pub struct Flags {
    pub all: bool,
    pub almost_all: bool,
    pub long: bool,
    pub one: bool,
    pub sort_time: bool,
    pub sort_size: bool,
    pub reverse: bool,
    pub no_sort: bool,
    pub classify: bool,
    pub slash: bool,
    pub human_readable: bool,
    pub color_flag: bool,
    /// The word given to the color option, if any.
    pub color_when: Option<String>,
    pub inode: bool,
    pub blocks: bool,
    pub recursive: bool,
    pub follow_symlinks: bool,
    pub no_follow_symlinks: bool,
    pub follow_cli_symlinks: bool,
    pub ctime: bool,
    pub atime: bool,
    pub birthtime: bool,
    pub multi_column_down: bool,
    pub multi_column_across: bool,
    pub stream_format: bool,
}

/// The color mode: the word `always`, `never` or `auto` decides; without
/// one of them, the color switch turns color on, else it is automatic.
pub open spec fn color_of(word: Option<Seq<char>>, flag: bool) -> ColorMode {
    if word == Some(seq!['a', 'l', 'w', 'a', 'y', 's']) {
        ColorMode::Always
    } else if word == Some(seq!['n', 'e', 'v', 'e', 'r']) {
        ColorMode::Never
    } else if word == Some(seq!['a', 'u', 't', 'o']) {
        ColorMode::Auto
    } else if flag {
        ColorMode::Always
    } else {
        ColorMode::Auto
    }
}

pub open spec fn word_of(w: Option<String>) -> Option<Seq<char>> {
    match w {
        Some(s) => Some(s@),
        None => None,
    }
}

/// The configuration that the switches select.
pub open spec fn config_of(f: Flags) -> Config {
    Config {
        show_hidden: if f.all || f.no_sort {
            ShowHidden::All
        } else if f.almost_all {
            ShowHidden::AlmostAll
        } else {
            ShowHidden::Hide
        },
        long: f.long,
        one: f.one,
        sort: if f.no_sort {
            SortBy::Unsorted
        } else if f.sort_time {
            SortBy::Time
        } else if f.sort_size {
            SortBy::Size
        } else {
            SortBy::Name
        },
        reverse: f.reverse,
        classify: f.classify,
        slash: f.slash,
        human_readable: f.human_readable,
        color: color_of(word_of(f.color_when), f.color_flag),
        inode: f.inode,
        blocks: f.blocks,
        recursive: f.recursive,
        follow_symlinks: if f.no_follow_symlinks {
            FollowSymlinks::Never
        } else if f.follow_symlinks {
            FollowSymlinks::Always
        } else if f.follow_cli_symlinks {
            FollowSymlinks::CommandLine
        } else {
            FollowSymlinks::Never
        },
        time_field: if f.ctime {
            TimeField::Change
        } else if f.atime {
            TimeField::Access
        } else if f.birthtime {
            TimeField::Birth
        } else {
            TimeField::Modify
        },
        format: if f.stream_format {
            OutputFormat::Stream
        } else if f.multi_column_across {
            OutputFormat::MultiColumnAcross
        } else if f.multi_column_down {
            OutputFormat::MultiColumnDown
        } else {
            OutputFormat::Default
        },
    }
}

fn same_chars(a: &Vec<char>, b: &Vec<char>) -> (r: bool)
    ensures
        r == (a@ == b@),
{
    if a.len() != b.len() {
        return false;
    }
    let mut i: usize = 0;
    while i < a.len()
        invariant
            a@.len() == b@.len(),
            i <= a@.len(),
            a@.subrange(0, i as int) == b@.subrange(0, i as int),
        decreases a@.len() - i,
    {
        if a[i] != b[i] {
            return false;
        }
        assert(a@.subrange(0, i + 1) =~= a@.subrange(0, i as int).push(a@[i as int]));
        assert(b@.subrange(0, i + 1) =~= b@.subrange(0, i as int).push(b@[i as int]));
        i = i + 1;
    }
    assert(a@ =~= a@.subrange(0, i as int));
    assert(b@ =~= b@.subrange(0, i as int));
    true
}

/// The color mode that the color word and the color switch select.
pub fn color_choice(word: &Option<String>, flag: bool) -> (r: ColorMode)
    ensures
        r == color_of(word_of(*word), flag),
{
    match word {
        Some(w) => {
            let c = chars_of(w.as_str());
            if same_chars(&c, &vec!['a', 'l', 'w', 'a', 'y', 's']) {
                ColorMode::Always
            } else if same_chars(&c, &vec!['n', 'e', 'v', 'e', 'r']) {
                ColorMode::Never
            } else if same_chars(&c, &vec!['a', 'u', 't', 'o']) {
                ColorMode::Auto
            } else if flag {
                ColorMode::Always
            } else {
                ColorMode::Auto
            }
        },
        None => if flag { ColorMode::Always } else { ColorMode::Auto },
    }
}

/// Resolves the switches into the configuration of the run.
pub fn resolve_config(f: &Flags) -> (r: Config)
    ensures
        r == config_of(*f),
{
    let show_hidden = if f.all || f.no_sort {
        ShowHidden::All
    } else if f.almost_all {
        ShowHidden::AlmostAll
    } else {
        ShowHidden::Hide
    };
    let sort = if f.no_sort {
        SortBy::Unsorted
    } else if f.sort_time {
        SortBy::Time
    } else if f.sort_size {
        SortBy::Size
    } else {
        SortBy::Name
    };
    let follow_symlinks = if f.no_follow_symlinks {
        FollowSymlinks::Never
    } else if f.follow_symlinks {
        FollowSymlinks::Always
    } else if f.follow_cli_symlinks {
        FollowSymlinks::CommandLine
    } else {
        FollowSymlinks::Never
    };
    let time_field = if f.ctime {
        TimeField::Change
    } else if f.atime {
        TimeField::Access
    } else if f.birthtime {
        TimeField::Birth
    } else {
        TimeField::Modify
    };
    let format = if f.stream_format {
        OutputFormat::Stream
    } else if f.multi_column_across {
        OutputFormat::MultiColumnAcross
    } else if f.multi_column_down {
        OutputFormat::MultiColumnDown
    } else {
        OutputFormat::Default
    };
    Config {
        show_hidden,
        long: f.long,
        one: f.one,
        sort,
        reverse: f.reverse,
        classify: f.classify,
        slash: f.slash,
        human_readable: f.human_readable,
        color: color_choice(&f.color_when, f.color_flag),
        inode: f.inode,
        blocks: f.blocks,
        recursive: f.recursive,
        follow_symlinks,
        time_field,
        format,
    }
}

} // verus!
