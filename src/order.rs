//! The order in which entries are listed: by folded name, by time or by size
//! (largest or newest first, ties by folded name), the whole order reversed on
//! request; and the sort that establishes it.

use vstd::prelude::*;
use vstd::multiset::Multiset;
use vstd::set_lib::{lemma_int_range, lemma_len_subset, lemma_subset_equality, set_int_range};
use core::cmp::Ordering;
use rayon::slice::ParallelSliceMut;
use crate::entry::{Config, Entry, Meta, SortBy, TimeField, time_of, get_time_field};

verus! {

/// Above this many entries the sort runs on the worker pool.
pub const PARALLEL_SORT_THRESHOLD: usize = 1000;

/// What `str::to_lowercase` makes of a string.
pub uninterp spec fn lower_of(s: Seq<char>) -> Seq<char>;

/// Relies on `str::to_lowercase`: the case-folded string, a function of the
/// characters alone.
#[verifier::external_body]
fn lowercase_chars(s: &str) -> (r: Vec<char>)
    ensures
        r@ == lower_of(s@),
{
    s.to_lowercase().chars().collect()
}

pub open spec fn flip(o: Ordering) -> Ordering {
    match o {
        Ordering::Less => Ordering::Greater,
        Ordering::Equal => Ordering::Equal,
        Ordering::Greater => Ordering::Less,
    }
}

/// `a` comes before `b` or ties with it.
pub open spec fn not_after(o: Ordering) -> bool {
    o != Ordering::Greater
}

pub open spec fn int_cmp(a: int, b: int) -> Ordering {
    if a < b { Ordering::Less } else if a > b { Ordering::Greater } else { Ordering::Equal }
}

/// Lexicographic order of `a` and `b` by code point, from position `i` on.
pub open spec fn lex_from(a: Seq<char>, b: Seq<char>, i: int) -> Ordering
    decreases a.len() - i,
{
    if i >= a.len() {
        if i >= b.len() { Ordering::Equal } else { Ordering::Less }
    } else if i >= b.len() {
        Ordering::Greater
    } else if (a[i] as u32) < (b[i] as u32) {
        Ordering::Less
    } else if (a[i] as u32) > (b[i] as u32) {
        Ordering::Greater
    } else {
        lex_from(a, b, i + 1)
    }
}

pub open spec fn lex_cmp(a: Seq<char>, b: Seq<char>) -> Ordering {
    lex_from(a, b, 0)
}

/// Case-insensitive order of two names.
pub open spec fn name_cmp(a: Seq<char>, b: Seq<char>) -> Ordering {
    lex_cmp(lower_of(a), lower_of(b))
}

/// The primary key of the time and size orders.
pub open spec fn sort_value(m: Meta, sort: SortBy, field: TimeField) -> int {
    match sort {
        SortBy::Time => time_of(m, field) as int,
        SortBy::Size => m.size as int,
        _ => 0,
    }
}

/// The order before reversal: folded name; or the key descending, then the
/// folded name ascending.
pub open spec fn base_cmp(a: Entry, b: Entry, sort: SortBy, field: TimeField) -> Ordering {
    match sort {
        SortBy::Name => name_cmp(a.name@, b.name@),
        SortBy::Unsorted => Ordering::Equal,
        _ => {
            let p = int_cmp(sort_value(b.meta, sort, field), sort_value(a.meta, sort, field));
            if p == Ordering::Equal { name_cmp(a.name@, b.name@) } else { p }
        },
    }
}

/// The listing order, reversed as a whole when `reverse` holds.
pub open spec fn entry_cmp(a: Entry, b: Entry, sort: SortBy, reverse: bool, field: TimeField) -> Ordering {
    if reverse { flip(base_cmp(a, b, sort, field)) } else { base_cmp(a, b, sort, field) }
}

/// Each entry of `s` comes before or ties with every later one.
pub open spec fn sorted_by(s: Seq<Entry>, sort: SortBy, reverse: bool, field: TimeField) -> bool {
    forall|i: int, j: int|
        0 <= i < j < s.len() ==> #[trigger] not_after(entry_cmp(s[i], s[j], sort, reverse, field))
}

proof fn lemma_lex_refl(a: Seq<char>, i: int)
    ensures
        lex_from(a, a, i) == Ordering::Equal,
    decreases a.len() - i,
{
    if i < a.len() {
        lemma_lex_refl(a, i + 1);
    }
}

proof fn lemma_lex_flip(a: Seq<char>, b: Seq<char>, i: int)
    ensures
        lex_from(a, b, i) == flip(lex_from(b, a, i)),
    decreases a.len() - i,
{
    if i < a.len() && i < b.len() {
        lemma_lex_flip(a, b, i + 1);
    }
}

proof fn lemma_lex_trans(a: Seq<char>, b: Seq<char>, c: Seq<char>, i: int)
    requires
        not_after(lex_from(a, b, i)),
        not_after(lex_from(b, c, i)),
    ensures
        not_after(lex_from(a, c, i)),
    decreases a.len() - i,
{
    if i < a.len() && i < b.len() && i < c.len() && (a[i] as u32) == (b[i] as u32) && (b[i] as u32) == (c[i] as u32) {
        lemma_lex_trans(a, b, c, i + 1);
    }
}

proof fn lemma_base_refl(a: Entry, sort: SortBy, field: TimeField)
    ensures
        base_cmp(a, a, sort, field) == Ordering::Equal,
{
    lemma_lex_refl(lower_of(a.name@), 0);
}

proof fn lemma_base_flip(a: Entry, b: Entry, sort: SortBy, field: TimeField)
    ensures
        base_cmp(a, b, sort, field) == flip(base_cmp(b, a, sort, field)),
{
    lemma_lex_flip(lower_of(a.name@), lower_of(b.name@), 0);
}

proof fn lemma_base_trans(a: Entry, b: Entry, c: Entry, sort: SortBy, field: TimeField)
    requires
        not_after(base_cmp(a, b, sort, field)),
        not_after(base_cmp(b, c, sort, field)),
    ensures
        not_after(base_cmp(a, c, sort, field)),
{
    let (la, lb, lc) = (lower_of(a.name@), lower_of(b.name@), lower_of(c.name@));
    if not_after(lex_cmp(la, lb)) && not_after(lex_cmp(lb, lc)) {
        lemma_lex_trans(la, lb, lc, 0);
    }
}

/// An entry ties with itself.
pub proof fn lemma_cmp_refl(a: Entry, sort: SortBy, reverse: bool, field: TimeField)
    ensures
        entry_cmp(a, a, sort, reverse, field) == Ordering::Equal,
{
    lemma_base_refl(a, sort, field);
}

/// Swapping the arguments flips the result.
pub proof fn lemma_cmp_flip(a: Entry, b: Entry, sort: SortBy, reverse: bool, field: TimeField)
    ensures
        entry_cmp(a, b, sort, reverse, field) == flip(entry_cmp(b, a, sort, reverse, field)),
{
    lemma_base_flip(a, b, sort, field);
}

/// "Before or tied" is transitive.
pub proof fn lemma_cmp_trans(a: Entry, b: Entry, c: Entry, sort: SortBy, reverse: bool, field: TimeField)
    requires
        not_after(entry_cmp(a, b, sort, reverse, field)),
        not_after(entry_cmp(b, c, sort, reverse, field)),
    ensures
        not_after(entry_cmp(a, c, sort, reverse, field)),
{
    if reverse {
        lemma_base_flip(a, b, sort, field);
        lemma_base_flip(b, c, sort, field);
        lemma_base_flip(a, c, sort, field);
        lemma_base_trans(c, b, a, sort, field);
    } else {
        lemma_base_trans(a, b, c, sort, field);
    }
}

/// For every sort mode the comparator is a strict weak order: no entry comes
/// before itself, "before" holds in at most one direction and is transitive,
/// ties are transitive, and the result is fixed by the two entries and the
/// mode.
pub proof fn comparator_is_total_order(a: Entry, b: Entry, c: Entry, sort: SortBy, reverse: bool, field: TimeField)
    ensures
        entry_cmp(a, a, sort, reverse, field) == Ordering::Equal,
        entry_cmp(a, b, sort, reverse, field) == Ordering::Less ==> entry_cmp(b, a, sort, reverse, field) == Ordering::Greater,
        entry_cmp(a, b, sort, reverse, field) == Ordering::Equal ==> entry_cmp(b, a, sort, reverse, field) == Ordering::Equal,
        entry_cmp(a, b, sort, reverse, field) == Ordering::Less && entry_cmp(b, c, sort, reverse, field) == Ordering::Less
            ==> entry_cmp(a, c, sort, reverse, field) == Ordering::Less,
        entry_cmp(a, b, sort, reverse, field) == Ordering::Equal && entry_cmp(b, c, sort, reverse, field) == Ordering::Equal
            ==> entry_cmp(a, c, sort, reverse, field) == Ordering::Equal,
{
    lemma_cmp_refl(a, sort, reverse, field);
    lemma_cmp_flip(a, b, sort, reverse, field);
    lemma_cmp_flip(b, c, sort, reverse, field);
    lemma_cmp_flip(a, c, sort, reverse, field);
    if not_after(entry_cmp(a, b, sort, reverse, field)) && not_after(entry_cmp(b, c, sort, reverse, field)) {
        lemma_cmp_trans(a, b, c, sort, reverse, field);
    }
    if not_after(entry_cmp(c, b, sort, reverse, field)) && not_after(entry_cmp(b, a, sort, reverse, field)) {
        lemma_cmp_trans(c, b, a, sort, reverse, field);
    }
    if not_after(entry_cmp(b, c, sort, reverse, field)) && not_after(entry_cmp(c, a, sort, reverse, field)) {
        lemma_cmp_trans(b, c, a, sort, reverse, field);
    }
    if not_after(entry_cmp(c, a, sort, reverse, field)) && not_after(entry_cmp(a, b, sort, reverse, field)) {
        lemma_cmp_trans(c, a, b, sort, reverse, field);
    }
}

/// Code-point order of two character sequences.
pub fn compare_chars(a: &Vec<char>, b: &Vec<char>) -> (r: Ordering)
    ensures
        r == lex_cmp(a@, b@),
{
    let mut i: usize = 0;
    while i < a.len() && i < b.len()
        invariant
            i <= a@.len(),
            i <= b@.len(),
            lex_from(a@, b@, 0) == lex_from(a@, b@, i as int),
        decreases a@.len() - i,
    {
        let x = a[i] as u32;
        let y = b[i] as u32;
        if x < y {
            return Ordering::Less;
        } else if x > y {
            return Ordering::Greater;
        }
        i = i + 1;
    }
    if i >= a.len() {
        if i >= b.len() { Ordering::Equal } else { Ordering::Less }
    } else {
        Ordering::Greater
    }
}

/// Case-insensitive order of two names.
pub fn compare_names(a: &str, b: &str) -> (r: Ordering)
    ensures
        r == name_cmp(a@, b@),
{
    let la = lowercase_chars(a);
    let lb = lowercase_chars(b);
    compare_chars(&la, &lb)
}

fn compare_ints(a: i128, b: i128) -> (r: Ordering)
    ensures
        r == int_cmp(a as int, b as int),
{
    if a < b { Ordering::Less } else if a > b { Ordering::Greater } else { Ordering::Equal }
}

fn get_sort_value(m: &Meta, sort: SortBy, field: TimeField) -> (r: i128)
    ensures
        r as int == sort_value(*m, sort, field),
{
    match sort {
        SortBy::Time => get_time_field(m, field) as i128,
        SortBy::Size => m.size as i128,
        _ => 0,
    }
}

fn reverse_if(o: Ordering, reverse: bool) -> (r: Ordering)
    ensures
        r == (if reverse { flip(o) } else { o }),
{
    if !reverse {
        o
    } else {
        match o {
            Ordering::Less => Ordering::Greater,
            Ordering::Equal => Ordering::Equal,
            Ordering::Greater => Ordering::Less,
        }
    }
}

/// Compares two entries in the listing order that `cfg` selects.
pub fn compare_entries(a: &Entry, b: &Entry, cfg: &Config) -> (r: Ordering)
    ensures
        r == entry_cmp(*a, *b, cfg.sort, cfg.reverse, cfg.time_field),
{
    let base = match cfg.sort {
        SortBy::Name => compare_names(a.name.as_str(), b.name.as_str()),
        SortBy::Unsorted => Ordering::Equal,
        _ => {
            let p = compare_ints(
                get_sort_value(&b.meta, cfg.sort, cfg.time_field),
                get_sort_value(&a.meta, cfg.sort, cfg.time_field),
            );
            match p {
                Ordering::Equal => compare_names(a.name.as_str(), b.name.as_str()),
                _ => p,
            }
        },
    };
    reverse_if(base, cfg.reverse)
}

/// `new` holds the entries of `old` rearranged by `idx` (`new[i]` is
/// `old[idx[i]]`, each index used once), and entries that tie keep the order
/// they had in `old`.
pub open spec fn stable_rearrangement(
    old: Seq<Entry>,
    new: Seq<Entry>,
    idx: Seq<int>,
    sort: SortBy,
    reverse: bool,
    field: TimeField,
) -> bool {
    &&& new.len() == old.len()
    &&& idx.len() == new.len()
    &&& (forall|i: int| 0 <= i < idx.len() ==> 0 <= #[trigger] idx[i] < old.len() && new[i] == old[idx[i]])
    &&& (forall|i: int, j: int| 0 <= i < j < idx.len() ==>
        #[trigger] idx[i] != #[trigger] idx[j]
            && (entry_cmp(new[i], new[j], sort, reverse, field) == Ordering::Equal ==> idx[i] < idx[j]))
}

/// A rearrangement that uses each of the indices `0..n` once uses all of them.
proof fn lemma_rearrangement_covers(idx: Seq<int>, n: int, m: int)
    requires
        idx.len() == n,
        forall|i: int| 0 <= i < n ==> 0 <= #[trigger] idx[i] < n,
        forall|i: int, j: int| 0 <= i < j < n ==> #[trigger] idx[i] != #[trigger] idx[j],
        0 <= m < n,
    ensures
        exists|q: int| 0 <= q < n && idx[q] == m,
{
    assert(idx.no_duplicates()) by {
        assert forall|i: int, j: int| 0 <= i < idx.len() && 0 <= j < idx.len() && i != j implies idx[i] != idx[j] by {
            if i < j {
                assert(idx[i] != idx[j]);
            } else {
                assert(idx[j] != idx[i]);
            }
        }
    }
    idx.unique_seq_to_set();
    let st = idx.to_set();
    let r = set_int_range(0, n);
    lemma_int_range(0, n);
    assert(st.subset_of(r)) by {
        assert forall|x: int| st.contains(x) implies r.contains(x) by {
            let q = choose|q: int| 0 <= q < idx.len() && idx[q] == x;
            assert(0 <= idx[q] < n);
        }
    }
    lemma_len_subset(st, r);
    lemma_subset_equality(st, r);
    assert(r.contains(m));
    assert(st.contains(m));
}

proof fn lemma_stable_orders_agree(
    old: Seq<Entry>,
    a: Seq<Entry>,
    ia: Seq<int>,
    b: Seq<Entry>,
    ib: Seq<int>,
    sort: SortBy,
    reverse: bool,
    field: TimeField,
    i: int,
)
    requires
        stable_rearrangement(old, a, ia, sort, reverse, field),
        sorted_by(a, sort, reverse, field),
        stable_rearrangement(old, b, ib, sort, reverse, field),
        sorted_by(b, sort, reverse, field),
        0 <= i <= old.len(),
        forall|q: int| 0 <= q < i ==> #[trigger] ia[q] == ib[q],
    ensures
        forall|q: int| 0 <= q < old.len() ==> #[trigger] ia[q] == ib[q],
    decreases old.len() - i,
{
    let n = old.len() as int;
    if i < n {
        let u = ia[i];
        let v = ib[i];
        if u != v {
            assert(0 <= u < n && a[i] == old[u]);
            assert(0 <= v < n && b[i] == old[v]);
            lemma_cmp_flip(old[u], old[v], sort, reverse, field);
            let c = entry_cmp(old[u], old[v], sort, reverse, field);
            if c == Ordering::Less || (c == Ordering::Equal && u < v) {
                lemma_rearrangement_covers(ib, n, u);
                let q = choose|q: int| 0 <= q < n && ib[q] == u;
                if q < i {
                    assert(ia[q] == ib[q]);
                    assert(ia[q] != ia[i]);
                } else {
                    assert(q != i);
                    assert(b[q] == old[u]);
                    assert(not_after(entry_cmp(b[i], b[q], sort, reverse, field)));
                    assert(ib[i] != ib[q]);
                }
            } else {
                lemma_rearrangement_covers(ia, n, v);
                let q = choose|q: int| 0 <= q < n && ia[q] == v;
                if q < i {
                    assert(ia[q] == ib[q]);
                    assert(ib[q] != ib[i]);
                } else {
                    assert(q != i);
                    assert(a[q] == old[v]);
                    assert(not_after(entry_cmp(a[i], a[q], sort, reverse, field)));
                    assert(ia[i] != ia[q]);
                }
            }
        }
        lemma_stable_orders_agree(old, a, ia, b, ib, sort, reverse, field, i + 1);
    }
}

/// Sorting is deterministic: two rearrangements of the same entries that
/// are both in listing order and both keep tied entries in their former
/// order are equal. So the parallel and the sequential sort, and any two
/// runs on the same input, give the same result.
pub proof fn stable_sort_is_unique(
    old: Seq<Entry>,
    a: Seq<Entry>,
    ia: Seq<int>,
    b: Seq<Entry>,
    ib: Seq<int>,
    sort: SortBy,
    reverse: bool,
    field: TimeField,
)
    requires
        stable_rearrangement(old, a, ia, sort, reverse, field),
        sorted_by(a, sort, reverse, field),
        stable_rearrangement(old, b, ib, sort, reverse, field),
        sorted_by(b, sort, reverse, field),
    ensures
        a == b,
{
    lemma_stable_orders_agree(old, a, ia, b, ib, sort, reverse, field, 0);
    assert forall|i: int| 0 <= i < a.len() implies a[i] == b[i] by {
        assert(ia[i] == ib[i]);
    }
    assert(a =~= b);
}

/// Relies on rayon's `ParallelSliceMut::par_sort_by`: a stable sort that
/// leaves the same items, ordered by the comparator, which is a strict weak
/// order (`comparator_is_total_order`), with tied items in their former
/// order ("This sort is stable").
#[verifier::external_body]
fn par_sort_entries(entries: &mut Vec<Entry>, cfg: &Config)
    ensures
        final(entries)@.to_multiset() == old(entries)@.to_multiset(),
        sorted_by(final(entries)@, cfg.sort, cfg.reverse, cfg.time_field),
        exists|idx: Seq<int>| #[trigger] stable_rearrangement(old(entries)@, final(entries)@, idx, cfg.sort, cfg.reverse, cfg.time_field),
{
    entries.par_sort_by(|a, b| compare_entries(a, b, cfg))
}

/// A stable insertion sort in the listing order.
fn insertion_sort(entries: &mut Vec<Entry>, cfg: &Config)
    ensures
        final(entries)@.to_multiset() == old(entries)@.to_multiset(),
        sorted_by(final(entries)@, cfg.sort, cfg.reverse, cfg.time_field),
        exists|idx: Seq<int>| #[trigger] stable_rearrangement(old(entries)@, final(entries)@, idx, cfg.sort, cfg.reverse, cfg.time_field),
{
    let ghost orig = entries@;
    let ghost mut idx: Seq<int> = Seq::empty();
    let ghost (s, rv, f) = (cfg.sort, cfg.reverse, cfg.time_field);
    let mut out: Vec<Entry> = Vec::new();
    proof {
        assert(entries@.to_multiset() == orig.to_multiset());
        assert(out@.to_multiset() =~= Multiset::empty()) by {
            broadcast use vstd::seq_lib::group_to_multiset_ensures;
        }
    }
    while entries.len() > 0
        invariant
            s == cfg.sort && rv == cfg.reverse && f == cfg.time_field,
            out@.to_multiset().add(entries@.to_multiset()) == orig.to_multiset(),
            sorted_by(out@, s, rv, f),
            out@.len() + entries@.len() == orig.len(),
            entries@ == orig.subrange(out@.len() as int, orig.len() as int),
            idx.len() == out@.len(),
            forall|i: int| 0 <= i < idx.len() ==> 0 <= #[trigger] idx[i] < out@.len() && out@[i] == orig[idx[i]],
            forall|i: int, j: int| 0 <= i < j < idx.len() ==>
                #[trigger] idx[i] != #[trigger] idx[j]
                    && (entry_cmp(out@[i], out@[j], s, rv, f) == Ordering::Equal ==> idx[i] < idx[j]),
        decreases entries@.len(),
    {
        let ghost k = out@.len() as int;
        let ghost before = entries@;
        let x = entries.remove(0);
        proof {
            vstd::seq_lib::to_multiset_remove(before, 0);
            assert(before[0] == x);
            vstd::seq_lib::to_multiset_contains(before, x);
        }
        let mut p = out.len();
        while p > 0 && matches!(compare_entries(&out[p - 1], &x, cfg), Ordering::Greater)
            invariant
                s == cfg.sort && rv == cfg.reverse && f == cfg.time_field,
                p <= out@.len(),
                forall|k: int| p <= k < out@.len() ==> #[trigger] entry_cmp(x, out@[k], s, rv, f) == Ordering::Less,
            decreases p,
        {
            proof { lemma_cmp_flip(x, out@[p - 1], s, rv, f); }
            p = p - 1;
        }
        let ghost old_out = out@;
        let ghost old_idx = idx;
        out.insert(p, x);
        proof {
            idx = old_idx.insert(p as int, k);
            assert(x == orig[k]);
            assert forall|i: int| 0 <= i < idx.len() implies 0 <= #[trigger] idx[i] < out@.len() && out@[i] == orig[idx[i]] by {
                if i < p {
                    assert(idx[i] == old_idx[i]);
                } else if i > p {
                    assert(idx[i] == old_idx[i - 1]);
                }
            }
            assert forall|i: int, j: int| 0 <= i < j < idx.len() implies
                #[trigger] idx[i] != #[trigger] idx[j]
                    && (entry_cmp(out@[i], out@[j], s, rv, f) == Ordering::Equal ==> idx[i] < idx[j]) by {
                if j < p {
                    assert(idx[i] == old_idx[i] && idx[j] == old_idx[j]);
                } else if j == p {
                    assert(idx[i] == old_idx[i]);
                } else if i == p {
                    assert(idx[j] == old_idx[j - 1]);
                    assert(entry_cmp(x, old_out[j - 1], s, rv, f) == Ordering::Less);
                } else if i > p {
                    assert(idx[i] == old_idx[i - 1] && idx[j] == old_idx[j - 1]);
                } else {
                    assert(idx[i] == old_idx[i] && idx[j] == old_idx[j - 1]);
                }
            }
            assert(entries@ =~= orig.subrange(out@.len() as int, orig.len() as int));
            vstd::seq_lib::to_multiset_insert(old_out, p as int, x);
            assert(before.remove(0).to_multiset() == before.to_multiset().remove(x));
            assert(out@.to_multiset().add(entries@.to_multiset()) =~= orig.to_multiset());
            assert forall|i: int, j: int| 0 <= i < j < out@.len() implies #[trigger] not_after(entry_cmp(out@[i], out@[j], s, rv, f)) by {
                if j < p {
                    assert(out@[i] == old_out[i] && out@[j] == old_out[j]);
                } else if j == p {
                    if i < p - 1 {
                        assert(not_after(entry_cmp(old_out[i], old_out[p - 1], s, rv, f)));
                        lemma_cmp_trans(old_out[i], old_out[p - 1], x, s, rv, f);
                    }
                } else if i == p {
                    assert(entry_cmp(x, old_out[j - 1], s, rv, f) == Ordering::Less);
                } else if i > p {
                    assert(out@[i] == old_out[i - 1] && out@[j] == old_out[j - 1]);
                } else {
                    assert(out@[j] == old_out[j - 1]);
                    assert(entry_cmp(x, old_out[j - 1], s, rv, f) == Ordering::Less);
                    if i < p - 1 {
                        assert(not_after(entry_cmp(old_out[i], old_out[p - 1], s, rv, f)));
                        lemma_cmp_trans(old_out[i], old_out[p - 1], x, s, rv, f);
                    }
                    lemma_cmp_trans(old_out[i], x, old_out[j - 1], s, rv, f);
                }
            }
        }
    }
    proof {
        assert(entries@ =~= Seq::<Entry>::empty());
        assert(entries@.to_multiset() =~= Multiset::empty()) by {
            broadcast use vstd::seq_lib::group_to_multiset_ensures;
        }
        assert(out@.to_multiset() =~= orig.to_multiset());
        assert(stable_rearrangement(orig, out@, idx, s, rv, f));
    }
    *entries = out;
}

/// Puts `entries` in the listing order of `cfg`; an unsorted listing keeps
/// the order it was collected in. Above `PARALLEL_SORT_THRESHOLD` entries the
/// sort runs in parallel, with the same comparator.
pub fn sort_entries(entries: &mut Vec<Entry>, cfg: &Config)
    ensures
        cfg.sort == SortBy::Unsorted ==> final(entries)@ == old(entries)@,
        cfg.sort != SortBy::Unsorted ==> final(entries)@.to_multiset() == old(entries)@.to_multiset(),
        cfg.sort != SortBy::Unsorted ==> sorted_by(final(entries)@, cfg.sort, cfg.reverse, cfg.time_field),
        cfg.sort != SortBy::Unsorted ==> exists|idx: Seq<int>| #[trigger] stable_rearrangement(old(entries)@, final(entries)@, idx, cfg.sort, cfg.reverse, cfg.time_field),
{
    match cfg.sort {
        SortBy::Unsorted => {},
        _ => {
            if entries.len() > PARALLEL_SORT_THRESHOLD {
                par_sort_entries(entries, cfg);
            } else {
                insertion_sort(entries, cfg);
            }
        },
    }
}

} // verus!
