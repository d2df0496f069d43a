//! The order in which paths are listed: the requested paths in turn, each
//! followed, when recursing, by its subdirectories depth first, every
//! section preceded by its header.

use vstd::prelude::*;
use std::collections::VecDeque;
use crate::entry::{Config, Entry};
use crate::mode::{is_dir_mode, TYPE_MASK, DIR};
use crate::collect::{is_dot_entry, is_dot_name};
use crate::text::{chars_of, push_all, text_of};

verus! {

/// One listing still to be made: the path, the text printed before it, and
/// whether the path was requested rather than found while descending.
#[derive(Debug)]
pub struct Section {
    pub path: String,
    pub header: String,
    pub requested: bool,
}

/// The path, header and origin of each section.
pub open spec fn plan_of(s: Seq<Section>) -> Seq<(Seq<char>, Seq<char>, bool)> {
    s.map_values(|x: Section| (x.path@, x.header@, x.requested))
}

/// The header of requested path `i`: none for a single path; otherwise the
/// path and a colon, after a blank line for all but the first.
pub open spec fn top_header(paths: Seq<Seq<char>>, i: int) -> Seq<char> {
    if paths.len() > 1 {
        (if i > 0 { seq!['\n'] } else { Seq::empty() }) + paths[i] + seq![':', '\n']
    } else {
        Seq::empty()
    }
}

/// The sections of the requested paths.
pub open spec fn top_plan(paths: Seq<Seq<char>>) -> Seq<(Seq<char>, Seq<char>, bool)> {
    Seq::new(paths.len(), |i: int| (paths[i], top_header(paths, i), true))
}

/// The header of a subdirectory: a blank line, the path and a colon.
pub open spec fn child_header(path: Seq<char>) -> Seq<char> {
    seq!['\n'] + path + seq![':', '\n']
}

/// The sections of the directories among `entries` from index `i` on; `.`
/// and `..` are never descended into.
pub open spec fn child_plan(entries: Seq<Entry>, i: int) -> Seq<(Seq<char>, Seq<char>, bool)>
    decreases entries.len() - i,
{
    if i < 0 || i >= entries.len() {
        Seq::empty()
    } else if is_dir_mode(entries[i].meta.mode) && !is_dot_entry(entries[i].name@) {
        seq![(entries[i].path@, child_header(entries[i].path@), false)] + child_plan(entries, i + 1)
    } else {
        child_plan(entries, i + 1)
    }
}

/// The sections still to be listed, the next one first.
pub struct Walk {
    pending: VecDeque<Section>,
}

impl View for Walk {
    type V = Seq<(Seq<char>, Seq<char>, bool)>;

    closed spec fn view(&self) -> Seq<(Seq<char>, Seq<char>, bool)> {
        plan_of(self.pending@)
    }
}

fn header_text(lead: bool, path: &String) -> (r: String)
    ensures
        r@ == (if lead { seq!['\n'] } else { Seq::empty() }) + path@ + seq![':', '\n'],
{
    let mut v: Vec<char> = Vec::new();
    if lead {
        v.push('\n');
    }
    push_all(&mut v, &chars_of(path.as_str()));
    v.push(':');
    v.push('\n');
    proof {
        assert(v@ =~= (if lead { seq!['\n'] } else { Seq::<char>::empty() }) + path@ + seq![':', '\n']);
    }
    text_of(&v)
}

proof fn lemma_plan_cons(x: Section, s: Seq<Section>)
    ensures
        plan_of(seq![x] + s) == seq![(x.path@, x.header@, x.requested)] + plan_of(s),
{
    assert(plan_of(seq![x] + s) =~= seq![(x.path@, x.header@, x.requested)] + plan_of(s));
}

impl Walk {
    /// The walk over the requested paths, in the order given.
    pub fn start(paths: &Vec<String>) -> (w: Walk)
        ensures
            w@ == top_plan(paths@.map_values(|p: String| p@)),
    {
        let ghost ps = paths@.map_values(|p: String| p@);
        let mut pending: VecDeque<Section> = VecDeque::new();
        let mut i: usize = paths.len();
        while i > 0
            invariant
                ps == paths@.map_values(|p: String| p@),
                i <= paths@.len(),
                plan_of(pending@) == top_plan(ps).subrange(i as int, ps.len() as int),
            decreases i,
        {
            i = i - 1;
            let header = if paths.len() > 1 {
                header_text(i > 0, &paths[i])
            } else {
                String::new()
            };
            let ghost before = pending@;
            let sec = Section { path: paths[i].clone(), header, requested: true };
            proof {
                assert(sec.path@ == ps[i as int]);
                assert(sec.header@ == top_header(ps, i as int));
            }
            pending.push_front(sec);
            proof { lemma_plan_cons(sec, before); }
            assert(plan_of(pending@) =~= top_plan(ps).subrange(i as int, ps.len() as int));
        }
        assert(top_plan(ps).subrange(0, ps.len() as int) =~= top_plan(ps));
        Walk { pending }
    }

    /// Takes the next section to list, if any is left.
    pub fn next(&mut self) -> (r: Option<Section>)
        ensures
            old(self)@.len() == 0 ==> r.is_none() && final(self)@ == old(self)@,
            old(self)@.len() > 0 ==> r.is_some() && (r.unwrap().path@, r.unwrap().header@, r.unwrap().requested) == old(self)@[0]
                && final(self)@ == old(self)@.drop_first(),
    {
        let r = self.pending.pop_front();
        proof {
            if old(self)@.len() > 0 {
                assert(plan_of(self.pending@) =~= plan_of(old(self).pending@).drop_first());
            }
        }
        r
    }

    /// After a directory has been listed: when recursing, its subdirectories
    /// come next, in listing order, before the sections that were pending.
    pub fn descend(&mut self, entries: &Vec<Entry>, cfg: &Config)
        ensures
            cfg.recursive ==> final(self)@ == child_plan(entries@, 0) + old(self)@,
            !cfg.recursive ==> final(self)@ == old(self)@,
    {
        if !cfg.recursive {
            return;
        }
        let mut i: usize = entries.len();
        while i > 0
            invariant
                i <= entries@.len(),
                self@ == child_plan(entries@, i as int) + old(self)@,
            decreases i,
        {
            i = i - 1;
            let e = &entries[i];
            if e.meta.mode & TYPE_MASK == DIR && !is_dot_name(e.name.as_str()) {
                let header = header_text(true, &e.path);
                let ghost before = self.pending@;
                let sec = Section { path: e.path.clone(), header, requested: false };
                self.pending.push_front(sec);
                proof { lemma_plan_cons(sec, before); }
                assert(self@ =~= child_plan(entries@, i as int) + old(self)@);
            } else {
                assert(self@ =~= child_plan(entries@, i as int) + old(self)@);
            }
        }
    }
}

} // verus!
