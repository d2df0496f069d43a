//! One listing from collected entries to text: sort, choose the shape,
//! decorate, and render, resolving owner and group names for the long form.

use vstd::prelude::*;
use crate::entry::{ColorMode, Config, Entry, SortBy, TimeField, time_of};
use crate::layout::{decorate_all, decorations, longest, max_len, names_text, pick_shape, render_names, render_single, shape_of, views, Shape, GUTTER};
use crate::long::{long_text, render_long};
use crate::names::{resolve_step, shown_name, NameCache};
use crate::order::{sort_entries, sorted_by, stable_rearrangement};
use crate::stamp::{format_time, stamp_ok};
use crate::entry::get_time_field;
use crate::text::text_of;

verus! {

/// Whether names are colored: always, never, or when writing to a terminal.
pub open spec fn color_on(mode: ColorMode, is_tty: bool) -> bool {
    match mode {
        ColorMode::Always => true,
        ColorMode::Never => false,
        ColorMode::Auto => is_tty,
    }
}

pub fn color_enabled(mode: ColorMode, is_tty: bool) -> (r: bool)
    ensures
        r == color_on(mode, is_tty),
{
    match mode {
        ColorMode::Always => true,
        ColorMode::Never => false,
        ColorMode::Auto => is_tty,
    }
}

/// Every name that `before` holds is still held by `after`, unchanged.
pub open spec fn cache_grows(before: Map<u32, Seq<char>>, after: Map<u32, Seq<char>>) -> bool {
    forall|k: u32| #[trigger] before.contains_key(k) ==> after.contains_key(k) && after[k] == before[k]
}

/// Every id that `after` holds and `before` did not holds the name that a
/// call of `lookup` gave for it: the name found, or the id in decimal.
pub open spec fn filled_by<F: Fn(u32) -> Option<String>>(
    before: Map<u32, Seq<char>>,
    after: Map<u32, Seq<char>>,
    lookup: &F,
) -> bool {
    forall|k: u32| #[trigger] after.contains_key(k) && !before.contains_key(k) ==>
        exists|f: Option<String>| lookup.ensures((k,), f) && after[k] == shown_name(k, f)
}

proof fn lemma_filled_step<F: Fn(u32) -> Option<String>>(
    start: Map<u32, Seq<char>>,
    before: Map<u32, Seq<char>>,
    id: u32,
    after: Map<u32, Seq<char>>,
    r: Seq<char>,
    lookup: &F,
)
    requires
        filled_by(start, before, lookup),
        resolve_step(before, id, after, r),
        !before.contains_key(id) ==> exists|f: Option<String>| lookup.ensures((id,), f) && r == shown_name(id, f),
    ensures
        filled_by(start, after, lookup),
{
    assert forall|k: u32| #[trigger] after.contains_key(k) && !start.contains_key(k) implies
        exists|f: Option<String>| lookup.ensures((k,), f) && after[k] == shown_name(k, f) by {
        if before.contains_key(k) {
            assert(before.contains_key(k) && !start.contains_key(k));
            assert(after[k] == before[k]);
        } else {
            assert(k == id);
        }
    }
}

/// `name` is what `cache` holds for `id`.
pub open spec fn name_fits(cache: Map<u32, Seq<char>>, name: String, id: u32) -> bool {
    cache.contains_key(id) && name@ == cache[id]
}

/// `us`, `gs` and `ss` are the owner names, group names and time stamps of
/// `entries`: the names as the caches `users` and `groups` hold them for each
/// entry's ids, the stamps those of each entry's chosen time seen at `now`.
pub open spec fn columns_fit(
    entries: Seq<Entry>,
    field: TimeField,
    now: i64,
    users: Map<u32, Seq<char>>,
    groups: Map<u32, Seq<char>>,
    us: Seq<String>,
    gs: Seq<String>,
    ss: Seq<String>,
) -> bool {
    &&& us.len() == entries.len()
    &&& gs.len() == entries.len()
    &&& ss.len() == entries.len()
    &&& (forall|i: int| 0 <= i < entries.len() ==> #[trigger] name_fits(users, us[i], entries[i].meta.uid))
    &&& (forall|i: int| 0 <= i < entries.len() ==> #[trigger] name_fits(groups, gs[i], entries[i].meta.gid))
    &&& (forall|i: int| 0 <= i < entries.len() ==>
        stamp_ok(time_of(entries[i].meta, field), now, #[trigger] ss[i]@))
}

proof fn lemma_step_grows(before: Map<u32, Seq<char>>, id: u32, after: Map<u32, Seq<char>>, r: Seq<char>)
    requires
        resolve_step(before, id, after, r),
    ensures
        cache_grows(before, after),
        after.contains_key(id),
        after[id] == r,
{
}

/// The owner names, group names and time stamps of the long listing.
fn long_columns<U: Fn(u32) -> Option<String>, G: Fn(u32) -> Option<String>>(
    entries: &Vec<Entry>,
    cfg: &Config,
    now: i64,
    users: &mut NameCache,
    groups: &mut NameCache,
    user_lookup: &U,
    group_lookup: &G,
) -> (r: (Vec<String>, Vec<String>, Vec<String>))
    requires
        forall|x: u32| #[trigger] user_lookup.requires((x,)),
        forall|x: u32| #[trigger] group_lookup.requires((x,)),
    ensures
        columns_fit(entries@, cfg.time_field, now, final(users)@, final(groups)@, r.0@, r.1@, r.2@),
        cache_grows(old(users)@, final(users)@),
        cache_grows(old(groups)@, final(groups)@),
        filled_by(old(users)@, final(users)@, user_lookup),
        filled_by(old(groups)@, final(groups)@, group_lookup),
{
    let mut us: Vec<String> = Vec::new();
    let mut gs: Vec<String> = Vec::new();
    let mut ss: Vec<String> = Vec::new();
    let mut i: usize = 0;
    while i < entries.len()
        invariant
            i <= entries@.len(),
            us@.len() == i,
            gs@.len() == i,
            ss@.len() == i,
            forall|x: u32| #[trigger] user_lookup.requires((x,)),
            forall|x: u32| #[trigger] group_lookup.requires((x,)),
            cache_grows(old(users)@, users@),
            cache_grows(old(groups)@, groups@),
            filled_by(old(users)@, users@, user_lookup),
            filled_by(old(groups)@, groups@, group_lookup),
            columns_fit(entries@.subrange(0, i as int), cfg.time_field, now, users@, groups@, us@, gs@, ss@),
        decreases entries@.len() - i,
    {
        let m = &entries[i].meta;
        let ghost (u0, g0) = (users@, groups@);
        let ghost (us0, gs0, ss0) = (us@, gs@, ss@);
        let ghost prev = entries@.subrange(0, i as int);
        assert(columns_fit(prev, cfg.time_field, now, u0, g0, us0, gs0, ss0));
        let u = users.resolve(m.uid, user_lookup);
        let g = groups.resolve(m.gid, group_lookup);
        let st = format_time(get_time_field(m, cfg.time_field), now);
        proof {
            lemma_step_grows(u0, m.uid, users@, u@);
            lemma_filled_step(old(users)@, u0, m.uid, users@, u@, user_lookup);
            lemma_filled_step(old(groups)@, g0, m.gid, groups@, g@, group_lookup);
            lemma_step_grows(g0, m.gid, groups@, g@);
        }
        us.push(u);
        gs.push(g);
        ss.push(st);
        i = i + 1;
        proof {
            let sub = entries@.subrange(0, i as int);
            assert forall|j: int| 0 <= j < sub.len() implies #[trigger] name_fits(users@, us@[j], sub[j].meta.uid) by {
                if j < i - 1 {
                    assert(prev[j] == sub[j]);
                    assert(name_fits(u0, us0[j], prev[j].meta.uid));
                    assert(us@[j] == us0[j]);
                }
            }
            assert forall|j: int| 0 <= j < sub.len() implies #[trigger] name_fits(groups@, gs@[j], sub[j].meta.gid) by {
                if j < i - 1 {
                    assert(prev[j] == sub[j]);
                    assert(name_fits(g0, gs0[j], prev[j].meta.gid));
                    assert(gs@[j] == gs0[j]);
                }
            }
            assert forall|j: int| 0 <= j < sub.len() implies
                stamp_ok(time_of(sub[j].meta, cfg.time_field), now, #[trigger] ss@[j]@) by {
                if j < i - 1 {
                    assert(prev[j] == sub[j]);
                    assert(ss@[j] == ss0[j]);
                }
            }
            assert(columns_fit(sub, cfg.time_field, now, users@, groups@, us@, gs@, ss@));
        }
    }
    assert(entries@.subrange(0, i as int) =~= entries@);
    (us, gs, ss)
}

/// Sorts `entries` as `cfg` asks and renders them in the shape that `cfg`
/// and `is_tty` select. The name-only shapes are fixed by the sorted
/// entries; the long form takes owner and group names from the caches (a
/// miss calls the lookup) and time stamps relative to `now`. Where the
/// widest name would overflow the column arithmetic, one name per line is
/// written instead.
pub fn listing_text<U: Fn(u32) -> Option<String>, G: Fn(u32) -> Option<String>>(
    entries: &mut Vec<Entry>,
    cfg: &Config,
    is_tty: bool,
    term_width: usize,
    now: i64,
    users: &mut NameCache,
    groups: &mut NameCache,
    user_lookup: &U,
    group_lookup: &G,
) -> (r: String)
    requires
        forall|x: u32| #[trigger] user_lookup.requires((x,)),
        forall|x: u32| #[trigger] group_lookup.requires((x,)),
    ensures
        cfg.sort == SortBy::Unsorted ==> final(entries)@ == old(entries)@,
        cfg.sort != SortBy::Unsorted ==> final(entries)@.to_multiset() == old(entries)@.to_multiset(),
        cfg.sort != SortBy::Unsorted ==> sorted_by(final(entries)@, cfg.sort, cfg.reverse, cfg.time_field),
        cfg.sort != SortBy::Unsorted ==> exists|idx: Seq<int>| #[trigger] stable_rearrangement(old(entries)@, final(entries)@, idx, cfg.sort, cfg.reverse, cfg.time_field),
        shape_of(*cfg, is_tty) != Shape::Long ==> {
            let ns = decorations(final(entries)@, *cfg, color_on(cfg.color, is_tty));
            &&& max_len(ns) + GUTTER <= usize::MAX ==> r@ == names_text(shape_of(*cfg, is_tty), ns, term_width as nat)
            &&& max_len(ns) + GUTTER > usize::MAX ==> r@ == names_text(Shape::Single, ns, term_width as nat)
        },
        cache_grows(old(users)@, final(users)@),
        cache_grows(old(groups)@, final(groups)@),
        filled_by(old(users)@, final(users)@, user_lookup),
        filled_by(old(groups)@, final(groups)@, group_lookup),
        shape_of(*cfg, is_tty) == Shape::Long ==> exists|us: Seq<String>, gs: Seq<String>, ss: Seq<String>|
            #[trigger] columns_fit(final(entries)@, cfg.time_field, now, final(users)@, final(groups)@, us, gs, ss)
                && r@ == long_text(final(entries)@, *cfg, color_on(cfg.color, is_tty), us, gs, ss),
{
    sort_entries(entries, cfg);
    let use_color = color_enabled(cfg.color, is_tty);
    let shape = pick_shape(cfg, is_tty);
    match shape {
        Shape::Long => {
            let (us, gs, ss) = long_columns(entries, cfg, now, users, groups, user_lookup, group_lookup);
            let v = render_long(entries, cfg, use_color, &us, &gs, &ss);
            let r = text_of(&v);
            assert(columns_fit(entries@, cfg.time_field, now, users@, groups@, us@, gs@, ss@));
            r
        },
        _ => {
            let names = decorate_all(entries, cfg, use_color);
            let v = if longest(&names, usize::MAX - GUTTER).is_some() {
                render_names(shape, &names, term_width)
            } else {
                render_single(&names)
            };
            text_of(&v)
        },
    }
}

} // verus!
