//! Which directory entries are listed: names that start with a dot are
//! hidden, shown all, or shown but for `.` and `..`.

use vstd::prelude::*;
use crate::entry::{FollowSymlinks, ShowHidden};

verus! {

/// Whether the metadata of a path is read through a final symbolic link:
/// never, for requested paths only, or always.
pub open spec fn follows(policy: FollowSymlinks, requested: bool) -> bool {
    match policy {
        FollowSymlinks::Never => false,
        FollowSymlinks::CommandLine => requested,
        FollowSymlinks::Always => true,
    }
}

pub fn follow_links(policy: FollowSymlinks, requested: bool) -> (r: bool)
    ensures
        r == follows(policy, requested),
{
    match policy {
        FollowSymlinks::Never => false,
        FollowSymlinks::CommandLine => requested,
        FollowSymlinks::Always => true,
    }
}

/// A path is read as a directory when it leads to one, unless it is itself
/// a symbolic link that is not followed; otherwise it is listed as a single
/// entry.
pub fn reads_as_directory(leads_to_dir: bool, is_link: bool, follow: bool) -> (r: bool)
    ensures
        r == (leads_to_dir && (!is_link || follow)),
{
    leads_to_dir && (!is_link || follow)
}

/// `.` or `..`.
pub open spec fn is_dot_entry(name: Seq<char>) -> bool {
    name == seq!['.'] || name == seq!['.', '.']
}

pub open spec fn visible(name: Seq<char>, show: ShowHidden) -> bool {
    if name.len() > 0 && name[0] == '.' {
        match show {
            ShowHidden::Hide => false,
            ShowHidden::AlmostAll => !is_dot_entry(name),
            ShowHidden::All => true,
        }
    } else {
        true
    }
}

/// The character sequences of a sequence of strings.
pub open spec fn string_views(v: Seq<String>) -> Seq<Seq<char>> {
    v.map_values(|s: String| s@)
}

/// The visible names among the first `k`, in their order.
pub open spec fn visible_names(ns: Seq<Seq<char>>, show: ShowHidden, k: nat) -> Seq<Seq<char>>
    decreases k,
{
    if k == 0 || k > ns.len() {
        Seq::empty()
    } else {
        let rest = visible_names(ns, show, (k - 1) as nat);
        if visible(ns[k - 1], show) { rest.push(ns[k - 1]) } else { rest }
    }
}

/// Whether a name is `.` or `..`.
pub fn is_dot_name(name: &str) -> (r: bool)
    ensures
        r == is_dot_entry(name@),
{
    let n = name.unicode_len();
    let r = (n == 1 && name.get_char(0) == '.') || (n == 2 && name.get_char(0) == '.' && name.get_char(1) == '.');
    proof {
        if n == 1 && name@[0] == '.' {
            assert(name@ =~= seq!['.']);
        } else if n == 2 && name@[0] == '.' && name@[1] == '.' {
            assert(name@ =~= seq!['.', '.']);
        }
    }
    r
}

/// Whether a name is listed.
pub fn is_visible(name: &str, show: ShowHidden) -> (r: bool)
    ensures
        r == visible(name@, show),
{
    let n = name.unicode_len();
    if n > 0 && name.get_char(0) == '.' {
        match show {
            ShowHidden::Hide => false,
            ShowHidden::AlmostAll => {
                let dots = n == 1 || (n == 2 && name.get_char(1) == '.');
                proof {
                    if n == 1 {
                        assert(name@ =~= seq!['.']);
                    } else if n == 2 && name@[1] == '.' {
                        assert(name@ =~= seq!['.', '.']);
                    }
                }
                !dots
            },
            ShowHidden::All => true,
        }
    } else {
        true
    }
}

/// The listed names among `names`, in their order.
pub fn filter_names(names: &Vec<String>, show: ShowHidden) -> (r: Vec<String>)
    ensures
        string_views(r@) == visible_names(string_views(names@), show, names@.len()),
{
    let ghost ns = string_views(names@);
    let mut r: Vec<String> = Vec::new();
    let mut i: usize = 0;
    while i < names.len()
        invariant
            ns == string_views(names@),
            i <= names@.len(),
            string_views(r@) == visible_names(ns, show, i as nat),
        decreases names@.len() - i,
    {
        if is_visible(names[i].as_str(), show) {
            r.push(names[i].clone());
        }
        i = i + 1;
        assert(string_views(r@) =~= visible_names(ns, show, i as nat));
    }
    r
}

} // verus!
