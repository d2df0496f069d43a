//! The five output shapes: one name per line, columns filled downwards or
//! across, a comma-separated stream, and the long listing.

use vstd::prelude::*;
use crate::entry::{Config, Entry, OutputFormat};
use crate::mode::{decorate, decorated};
use crate::text::{pad_right, push_all, push_padded_right, spaces};

verus! {

/// The gutter added to the widest name to get a column's width.
pub const GUTTER: usize = 2;

/// The output shapes, in the priority in which the configuration selects them.
#[derive(Clone, Copy, Debug, PartialEq, Eq, Structural)]
pub enum Shape {
    Long,
    Single,
    Stream,
    Across,
    Down,
}

/// Long format, then one-per-line, stream, across, down; the default is
/// columns down on a terminal and one per line otherwise.
pub open spec fn shape_of(cfg: Config, is_tty: bool) -> Shape {
    if cfg.long {
        Shape::Long
    } else if cfg.one {
        Shape::Single
    } else if cfg.format == OutputFormat::Stream {
        Shape::Stream
    } else if cfg.format == OutputFormat::MultiColumnAcross {
        Shape::Across
    } else if cfg.format == OutputFormat::MultiColumnDown || is_tty {
        Shape::Down
    } else {
        Shape::Single
    }
}

pub fn pick_shape(cfg: &Config, is_tty: bool) -> (r: Shape)
    ensures
        r == shape_of(*cfg, is_tty),
{
    if cfg.long {
        Shape::Long
    } else if cfg.one {
        Shape::Single
    } else if cfg.format == OutputFormat::Stream {
        Shape::Stream
    } else if cfg.format == OutputFormat::MultiColumnAcross {
        Shape::Across
    } else if cfg.format == OutputFormat::MultiColumnDown || is_tty {
        Shape::Down
    } else {
        Shape::Single
    }
}

/// The character sequences held by a vector of vectors.
pub open spec fn views(v: Seq<Vec<char>>) -> Seq<Seq<char>> {
    v.map_values(|x: Vec<char>| x@)
}

/// The decorated names of `entries`, in order.
pub open spec fn decorations(entries: Seq<Entry>, cfg: Config, color: bool) -> Seq<Seq<char>> {
    Seq::new(
        entries.len(),
        |i: int| decorated(entries[i].name@, entries[i].meta.mode, cfg.classify, cfg.slash, color),
    )
}

/// The number of bytes that encode `c` in UTF-8.
pub open spec fn utf8_len(c: char) -> nat {
    let u = c as u32;
    if u < 0x80 { 1 } else if u < 0x800 { 2 } else if u < 0x10000 { 3 } else { 4 }
}

/// The length of `s` in UTF-8 bytes.
pub open spec fn byte_len(s: Seq<char>) -> nat
    decreases s.len(),
{
    if s.len() == 0 { 0 } else { byte_len(s.drop_last()) + utf8_len(s.last()) }
}

/// The byte length of the longest name, 0 for none.
pub open spec fn max_len(ns: Seq<Seq<char>>) -> nat
    decreases ns.len(),
{
    if ns.len() == 0 {
        0
    } else {
        let m = max_len(ns.drop_last());
        if byte_len(ns.last()) > m { byte_len(ns.last()) } else { m }
    }
}

proof fn lemma_byte_len_prefix(s: Seq<char>, i: int)
    requires
        0 <= i <= s.len(),
    ensures
        byte_len(s.subrange(0, i)) <= byte_len(s),
    decreases s.len() - i,
{
    if i == s.len() {
        assert(s.subrange(0, i) =~= s);
    } else {
        assert(s.subrange(0, i + 1).drop_last() =~= s.subrange(0, i));
        lemma_byte_len_prefix(s, i + 1);
    }
}

proof fn lemma_max_len_ge(ns: Seq<Seq<char>>, i: int)
    requires
        0 <= i < ns.len(),
    ensures
        byte_len(ns[i]) <= max_len(ns),
    decreases ns.len(),
{
    if i < ns.len() - 1 {
        lemma_max_len_ge(ns.drop_last(), i);
    }
}

/// The UTF-8 byte length of `v`, or `None` when it exceeds `limit`.
pub fn byte_length(v: &Vec<char>, limit: usize) -> (r: Option<usize>)
    ensures
        r.is_some() == (byte_len(v@) <= limit),
        r.is_some() ==> r.unwrap() as nat == byte_len(v@),
{
    let mut sum: usize = 0;
    let mut i: usize = 0;
    while i < v.len()
        invariant
            i <= v@.len(),
            sum as nat == byte_len(v@.subrange(0, i as int)),
            sum <= limit,
        decreases v@.len() - i,
    {
        let u = v[i] as u32;
        let l: usize = if u < 0x80 { 1 } else if u < 0x800 { 2 } else if u < 0x10000 { 3 } else { 4 };
        proof {
            assert(v@.subrange(0, i + 1).drop_last() =~= v@.subrange(0, i as int));
        }
        if l > limit - sum {
            proof { lemma_byte_len_prefix(v@, i + 1); }
            return None;
        }
        sum = sum + l;
        i = i + 1;
    }
    assert(v@.subrange(0, i as int) =~= v@);
    Some(sum)
}

/// The width of a column: the longest name plus the gutter.
pub open spec fn col_width(ns: Seq<Seq<char>>) -> nat {
    max_len(ns) + GUTTER as nat
}

/// How many columns fit the terminal; at least one.
pub open spec fn num_cols(term_width: nat, width: nat) -> nat {
    if width == 0 || term_width / width < 1 { 1 } else { term_width / width }
}

/// The number of rows: the number of names over the number of columns,
/// rounded up.
pub open spec fn num_rows(n: nat, cols: nat) -> nat {
    if n % cols == 0 { n / cols } else { n / cols + 1 }
}

/// Each name on a line of its own.
pub open spec fn single_text(ns: Seq<Seq<char>>) -> Seq<char>
    decreases ns.len(),
{
    if ns.len() == 0 { Seq::empty() } else { single_text(ns.drop_last()) + ns.last().push('\n') }
}

/// The cells of one row of the downward layout, from the name at `idx`: the
/// row holds the names at `row`, `row + rows`, `row + 2 * rows`, ..., that
/// is the name at index `column * rows + row` in each column.
pub open spec fn down_row(ns: Seq<Seq<char>>, width: nat, rows: nat, idx: nat) -> Seq<char>
    decreases if idx < ns.len() { ns.len() - idx } else { 0 },
{
    if idx >= ns.len() || rows == 0 {
        Seq::empty()
    } else {
        pad_right(ns[idx as int], width) + down_row(ns, width, rows, idx + rows)
    }
}

/// The first `r` rows of the downward layout, each ended by a newline.
pub open spec fn down_rows(ns: Seq<Seq<char>>, width: nat, rows: nat, r: nat) -> Seq<char>
    decreases r,
{
    if r == 0 {
        Seq::empty()
    } else {
        down_rows(ns, width, rows, (r - 1) as nat) + down_row(ns, width, rows, (r - 1) as nat).push('\n')
    }
}

/// Row `r` of a grid of `rows` rows, over its first `c` columns: the cell of
/// column `k` holds the name at index `k * rows + r`, where there is one.
pub open spec fn grid_row(ns: Seq<Seq<char>>, width: nat, rows: nat, r: nat, c: nat) -> Seq<char>
    decreases c,
{
    if c == 0 {
        Seq::empty()
    } else {
        let k = (c - 1) * rows + r;
        grid_row(ns, width, rows, r, (c - 1) as nat)
            + (if k < ns.len() { pad_right(ns[k as int], width) } else { Seq::empty() })
    }
}

proof fn lemma_down_row_past_end(ns: Seq<Seq<char>>, width: nat, rows: nat, idx: nat)
    requires
        idx >= ns.len(),
    ensures
        down_row(ns, width, rows, idx) == Seq::<char>::empty(),
{
}

proof fn lemma_grid_split(ns: Seq<Seq<char>>, width: nat, rows: nat, r: nat, cols: nat, c: nat)
    requires
        rows > 0,
        c <= cols,
        cols * rows + r >= ns.len(),
    ensures
        grid_row(ns, width, rows, r, cols) == grid_row(ns, width, rows, r, c) + down_row(ns, width, rows, c * rows + r),
    decreases cols - c,
{
    if c == cols {
        lemma_down_row_past_end(ns, width, rows, c * rows + r);
        assert(grid_row(ns, width, rows, r, c) + Seq::<char>::empty() =~= grid_row(ns, width, rows, r, c));
    } else {
        lemma_grid_split(ns, width, rows, r, cols, c + 1);
        assert((c + 1) * rows == c * rows + rows) by (nonlinear_arith);
        let k = c * rows + r;
        if k < ns.len() {
            assert(grid_row(ns, width, rows, r, c + 1) + down_row(ns, width, rows, (c + 1) * rows + r)
                =~= grid_row(ns, width, rows, r, c) + down_row(ns, width, rows, k));
        } else {
            lemma_down_row_past_end(ns, width, rows, k);
            lemma_down_row_past_end(ns, width, rows, (c + 1) * rows + r);
            assert(grid_row(ns, width, rows, r, c + 1) + down_row(ns, width, rows, (c + 1) * rows + r)
                =~= grid_row(ns, width, rows, r, c) + down_row(ns, width, rows, k));
        }
    }
}

/// The downward layout is column-major: row `r` holds, column by column,
/// the name at index `column * rows + r` wherever that index is in range,
/// so each column reads its names top to bottom in their order and the
/// columns follow one another left to right.
pub proof fn down_layout_is_column_major(ns: Seq<Seq<char>>, term_width: nat, r: nat)
    requires
        r < num_rows(ns.len(), num_cols(term_width, col_width(ns))),
    ensures
        down_row(ns, col_width(ns), num_rows(ns.len(), num_cols(term_width, col_width(ns))), r)
            == grid_row(ns, col_width(ns), num_rows(ns.len(), num_cols(term_width, col_width(ns))), r,
                num_cols(term_width, col_width(ns))),
{
    let w = col_width(ns);
    let cols = num_cols(term_width, w);
    let n = ns.len();
    let rows = num_rows(n, cols);
    assert(cols >= 1);
    assert(cols * rows >= n) by (nonlinear_arith)
        requires
            cols >= 1,
            n % cols == 0 ==> rows == n / cols,
            n % cols != 0 ==> rows == n / cols + 1;
    lemma_grid_split(ns, w, rows, r, cols, 0);
    assert(0 * rows + r == r);
    assert(Seq::<char>::empty() + down_row(ns, w, rows, r) =~= down_row(ns, w, rows, r));
}

/// Names in columns read top to bottom, then left to right.
pub open spec fn down_text(ns: Seq<Seq<char>>, term_width: nat) -> Seq<char> {
    let w = col_width(ns);
    let rows = num_rows(ns.len(), num_cols(term_width, w));
    down_rows(ns, w, rows, rows)
}

/// The first `k` cells of the across layout, a newline after every `cols`.
pub open spec fn across_cells(ns: Seq<Seq<char>>, width: nat, cols: nat, k: nat) -> Seq<char>
    decreases k,
{
    if k == 0 || k > ns.len() {
        Seq::empty()
    } else {
        let line = across_cells(ns, width, cols, (k - 1) as nat) + pad_right(ns[k - 1], width);
        if k % cols == 0 { line.push('\n') } else { line }
    }
}

/// Names in rows read left to right, `cols` to a line; a last partial line
/// is ended too.
pub open spec fn across_text(ns: Seq<Seq<char>>, term_width: nat) -> Seq<char> {
    let w = col_width(ns);
    let cols = num_cols(term_width, w);
    let cells = across_cells(ns, w, cols, ns.len());
    if ns.len() % cols != 0 { cells.push('\n') } else { cells }
}

/// The first `k` names joined by `", "`.
pub open spec fn joined(ns: Seq<Seq<char>>, k: nat) -> Seq<char>
    decreases k,
{
    if k == 0 || k > ns.len() {
        Seq::empty()
    } else if k == 1 {
        ns[0]
    } else {
        joined(ns, (k - 1) as nat) + seq![',', ' '] + ns[k - 1]
    }
}

/// All names on one line, separated by a comma and a space.
pub open spec fn stream_text(ns: Seq<Seq<char>>) -> Seq<char> {
    joined(ns, ns.len()).push('\n')
}

/// The text of one of the name-only shapes.
pub open spec fn names_text(shape: Shape, ns: Seq<Seq<char>>, term_width: nat) -> Seq<char> {
    match shape {
        Shape::Stream => stream_text(ns),
        Shape::Across => across_text(ns, term_width),
        Shape::Down => down_text(ns, term_width),
        _ => single_text(ns),
    }
}

/// The decorated name of every entry.
pub fn decorate_all(entries: &Vec<Entry>, cfg: &Config, use_color: bool) -> (r: Vec<Vec<char>>)
    ensures
        views(r@) == decorations(entries@, *cfg, use_color),
{
    let mut r: Vec<Vec<char>> = Vec::new();
    let mut i: usize = 0;
    while i < entries.len()
        invariant
            i <= entries@.len(),
            r@.len() == i,
            views(r@) == decorations(entries@, *cfg, use_color).subrange(0, i as int),
        decreases entries@.len() - i,
    {
        let d = decorate(entries[i].name.as_str(), entries[i].meta.mode, cfg, use_color);
        r.push(d);
        assert(r@[i as int]@ == decorations(entries@, *cfg, use_color)[i as int]);
        i = i + 1;
        assert(views(r@) =~= decorations(entries@, *cfg, use_color).subrange(0, i as int));
    }
    assert(decorations(entries@, *cfg, use_color).subrange(0, i as int) =~= decorations(entries@, *cfg, use_color));
    r
}

/// The byte length of the longest name, or `None` when it exceeds `limit`.
pub fn longest(names: &Vec<Vec<char>>, limit: usize) -> (r: Option<usize>)
    ensures
        r.is_some() == (max_len(views(names@)) <= limit),
        r.is_some() ==> r.unwrap() as nat == max_len(views(names@)),
{
    let mut m: usize = 0;
    let mut i: usize = 0;
    while i < names.len()
        invariant
            i <= names@.len(),
            m as nat == max_len(views(names@).subrange(0, i as int)),
            m <= limit,
        decreases names@.len() - i,
    {
        let l = match byte_length(&names[i], limit) {
            Some(l) => l,
            None => {
                proof { lemma_max_len_ge(views(names@), i as int); }
                return None;
            },
        };
        proof {
            let s = views(names@).subrange(0, i + 1);
            assert(s.drop_last() =~= views(names@).subrange(0, i as int));
            assert(s.last() == names@[i as int]@);
        }
        if l > m {
            m = l;
        }
        i = i + 1;
    }
    assert(views(names@).subrange(0, i as int) =~= views(names@));
    Some(m)
}

/// Each name on a line of its own.
pub fn render_single(names: &Vec<Vec<char>>) -> (r: Vec<char>)
    ensures
        r@ == single_text(views(names@)),
{
    let mut out: Vec<char> = Vec::new();
    let mut i: usize = 0;
    while i < names.len()
        invariant
            i <= names@.len(),
            out@ == single_text(views(names@).subrange(0, i as int)),
        decreases names@.len() - i,
    {
        push_all(&mut out, &names[i]);
        out.push('\n');
        proof {
            let s = views(names@).subrange(0, i + 1);
            assert(s.drop_last() =~= views(names@).subrange(0, i as int));
        }
        i = i + 1;
    }
    assert(views(names@).subrange(0, i as int) =~= views(names@));
    out
}

/// All names on one line, separated by `", "`.
pub fn render_stream(names: &Vec<Vec<char>>) -> (r: Vec<char>)
    ensures
        r@ == stream_text(views(names@)),
{
    let ghost ns = views(names@);
    let mut out: Vec<char> = Vec::new();
    let mut i: usize = 0;
    while i < names.len()
        invariant
            ns == views(names@),
            i <= names@.len(),
            out@ == joined(ns, i as nat),
        decreases names@.len() - i,
    {
        if i > 0 {
            out.push(',');
            out.push(' ');
        }
        push_all(&mut out, &names[i]);
        i = i + 1;
        assert(out@ =~= joined(ns, i as nat));
    }
    out.push('\n');
    out
}

fn columns_for(term_width: usize, width: usize) -> (r: usize)
    ensures
        r as nat == num_cols(term_width as nat, width as nat),
        r >= 1,
{
    if width == 0 || term_width / width < 1 { 1 } else { term_width / width }
}

/// Names in columns read top to bottom, then left to right, as many columns
/// as fit `term_width`.
pub fn render_down(names: &Vec<Vec<char>>, term_width: usize) -> (r: Vec<char>)
    requires
        max_len(views(names@)) + GUTTER <= usize::MAX,
    ensures
        r@ == down_text(views(names@), term_width as nat),
{
    let ghost ns = views(names@);
    let n = names.len();
    let w = match longest(names, usize::MAX - GUTTER) {
        Some(m) => m + GUTTER,
        None => {
            return Vec::new();
        },
    };
    let cols = columns_for(term_width, w);
    assert(n % cols != 0 ==> n / cols < n) by (nonlinear_arith)
        requires cols >= 1;
    let rows = if n % cols == 0 { n / cols } else { n / cols + 1 };
    assert(rows <= n) by (nonlinear_arith)
        requires cols >= 1, n % cols == 0 ==> rows == n / cols, n % cols != 0 ==> rows == n / cols + 1;
    let mut out: Vec<char> = Vec::new();
    let mut row: usize = 0;
    while row < rows
        invariant
            ns == views(names@),
            n == ns.len(),
            rows <= n,
            row <= rows,
            out@ == down_rows(ns, w as nat, rows as nat, row as nat),
        decreases rows - row,
    {
        let ghost before = out@;
        let mut idx: usize = row;
        while idx < n
            invariant
                ns == views(names@),
                n == ns.len(),
                0 < rows <= n,
                before + down_row(ns, w as nat, rows as nat, row as nat)
                    == out@ + down_row(ns, w as nat, rows as nat, idx as nat),
            decreases n - idx,
        {
            let ghost mid = out@;
            push_padded_right(&mut out, &names[idx], w);
            proof {
                assert(mid + down_row(ns, w as nat, rows as nat, idx as nat)
                    =~= out@ + down_row(ns, w as nat, rows as nat, (idx + rows) as nat));
            }
            if n - idx <= rows {
                idx = n;
            } else {
                idx = idx + rows;
            }
        }
        assert(out@ =~= before + down_row(ns, w as nat, rows as nat, row as nat));
        out.push('\n');
        row = row + 1;
    }
    out
}

/// Names in rows read left to right, as many to a line as fit `term_width`.
pub fn render_across(names: &Vec<Vec<char>>, term_width: usize) -> (r: Vec<char>)
    requires
        max_len(views(names@)) + GUTTER <= usize::MAX,
    ensures
        r@ == across_text(views(names@), term_width as nat),
{
    let ghost ns = views(names@);
    let n = names.len();
    let w = match longest(names, usize::MAX - GUTTER) {
        Some(m) => m + GUTTER,
        None => {
            return Vec::new();
        },
    };
    let cols = columns_for(term_width, w);
    let mut out: Vec<char> = Vec::new();
    let mut i: usize = 0;
    while i < n
        invariant
            ns == views(names@),
            n == ns.len(),
            cols >= 1,
            i <= n,
            out@ == across_cells(ns, w as nat, cols as nat, i as nat),
        decreases n - i,
    {
        push_padded_right(&mut out, &names[i], w);
        if (i + 1) % cols == 0 {
            out.push('\n');
        }
        i = i + 1;
    }
    if n % cols != 0 {
        out.push('\n');
    }
    out
}

/// The text of one of the name-only shapes.
pub fn render_names(shape: Shape, names: &Vec<Vec<char>>, term_width: usize) -> (r: Vec<char>)
    requires
        max_len(views(names@)) + GUTTER <= usize::MAX,
    ensures
        r@ == names_text(shape, views(names@), term_width as nat),
{
    match shape {
        Shape::Stream => render_stream(names),
        Shape::Across => render_across(names, term_width),
        Shape::Down => render_down(names, term_width),
        _ => render_single(names),
    }
}

} // verus!
