//! The long listing: one line per entry with mode, link count, owner, group,
//! size or device numbers, time stamp, decorated name and link target, the
//! numeric columns right-aligned to the widest value in the listing.

use vstd::prelude::*;
use crate::entry::{Config, Entry};
use crate::mode::{decorate, decorated, is_device_mode, mode_chars, mode_string, TYPE_MASK, CHAR_DEV, BLOCK_DEV};
use crate::size::{size_chars, size_text};
use crate::text::{chars_of, decimal, decimal_chars, pad_left, push_all, push_decimal, push_padded_left};

verus! {

/// The field width of the owner and group names.
pub const NAME_WIDTH: usize = 8;

/// The device numbers of a device file: the major number from bits 24 to 31,
/// the minor number from the low 24 bits.
pub open spec fn dev_text(rdev: u64) -> Seq<char> {
    decimal(((rdev >> 24u64) & 0xFFu64) as nat) + seq![',', ' '] + decimal((rdev & 0xFFFFFFu64) as nat)
}

/// The size column: device numbers for a block or character device, the
/// size otherwise.
pub open spec fn size_field(e: Entry, human: bool) -> Seq<char> {
    if is_device_mode(e.meta.mode) { dev_text(e.meta.rdev) } else { size_text(e.meta.size as nat, human) }
}

/// The length of one of the right-aligned values of an entry: 0 the inode,
/// 1 the block count, 2 the link count, 3 the size.
pub open spec fn field_len(e: Entry, which: nat, human: bool) -> nat {
    if which == 0 {
        decimal(e.meta.ino as nat).len()
    } else if which == 1 {
        decimal(e.meta.blocks as nat).len()
    } else if which == 2 {
        decimal(e.meta.nlink as nat).len()
    } else {
        size_text(e.meta.size as nat, human).len()
    }
}

/// The widest value of a column over `s`, 0 for none.
pub open spec fn widest(s: Seq<Entry>, which: nat, human: bool) -> nat
    decreases s.len(),
{
    if s.len() == 0 {
        0
    } else {
        let m = widest(s.drop_last(), which, human);
        let l = field_len(s.last(), which, human);
        if l > m { l } else { m }
    }
}

/// The widths of the inode, block, link and size columns.
pub struct Widths {
    pub ino: usize,
    pub blocks: usize,
    pub nlink: usize,
    pub size: usize,
}

pub open spec fn widths_fit(w: Widths, s: Seq<Entry>, human: bool) -> bool {
    &&& w.ino as nat == widest(s, 0, human)
    &&& w.blocks as nat == widest(s, 1, human)
    &&& w.nlink as nat == widest(s, 2, human)
    &&& w.size as nat == widest(s, 3, human)
}

/// The optional inode and block columns.
pub open spec fn line_lead(e: Entry, cfg: Config, w: Widths) -> Seq<char> {
    let ino = if cfg.inode { pad_left(decimal(e.meta.ino as nat), w.ino as nat).push(' ') } else { Seq::empty() };
    let blk = if cfg.blocks { pad_left(decimal(e.meta.blocks as nat), w.blocks as nat).push(' ') } else { Seq::empty() };
    ino + blk
}

/// Mode string, link count, owner and group, each followed by a space.
pub open spec fn line_meta(e: Entry, w: Widths, user: Seq<char>, group: Seq<char>) -> Seq<char> {
    mode_string(e.meta.mode).push(' ')
        + pad_left(decimal(e.meta.nlink as nat), w.nlink as nat).push(' ')
        + pad_left(user, NAME_WIDTH as nat).push(' ')
        + pad_left(group, NAME_WIDTH as nat).push(' ')
}

/// The link target as shown after the name: ` -> target`.
pub open spec fn target_text(e: Entry) -> Seq<char> {
    match e.symlink_target {
        Some(t) => seq![' ', '-', '>', ' '] + t@,
        None => Seq::empty(),
    }
}

/// Size, time stamp, decorated name and link target, ended by a newline.
pub open spec fn line_tail(e: Entry, cfg: Config, color: bool, w: Widths, stamp: Seq<char>) -> Seq<char> {
    pad_left(size_field(e, cfg.human_readable), w.size as nat).push(' ')
        + stamp.push(' ')
        + decorated(e.name@, e.meta.mode, cfg.classify, cfg.slash, color)
        + target_text(e).push('\n')
}

/// One line of the long listing.
pub open spec fn long_line(
    e: Entry,
    cfg: Config,
    color: bool,
    w: Widths,
    user: Seq<char>,
    group: Seq<char>,
    stamp: Seq<char>,
) -> Seq<char> {
    line_lead(e, cfg, w) + line_meta(e, w, user, group) + line_tail(e, cfg, color, w, stamp)
}

/// The first `k` lines of the long listing.
pub open spec fn long_lines(
    entries: Seq<Entry>,
    cfg: Config,
    color: bool,
    w: Widths,
    users: Seq<String>,
    groups: Seq<String>,
    stamps: Seq<String>,
    k: nat,
) -> Seq<char>
    decreases k,
{
    if k == 0 {
        Seq::empty()
    } else {
        let i = k - 1;
        long_lines(entries, cfg, color, w, users, groups, stamps, (k - 1) as nat)
            + long_line(entries[i], cfg, color, w, users[i]@, groups[i]@, stamps[i]@)
    }
}

/// The long listing of `entries`, with the owner, group and time stamp of
/// entry `i` given at index `i` of `users`, `groups` and `stamps`.
pub open spec fn long_text(
    entries: Seq<Entry>,
    cfg: Config,
    color: bool,
    users: Seq<String>,
    groups: Seq<String>,
    stamps: Seq<String>,
) -> Seq<char> {
    let w = Widths {
        ino: widest(entries, 0, cfg.human_readable) as usize,
        blocks: widest(entries, 1, cfg.human_readable) as usize,
        nlink: widest(entries, 2, cfg.human_readable) as usize,
        size: widest(entries, 3, cfg.human_readable) as usize,
    };
    long_lines(entries, cfg, color, w, users, groups, stamps, entries.len())
}

/// The widths of the right-aligned columns.
pub fn column_widths(entries: &Vec<Entry>, human: bool) -> (w: Widths)
    ensures
        widths_fit(w, entries@, human),
{
    let mut w = Widths { ino: 0, blocks: 0, nlink: 0, size: 0 };
    let mut i: usize = 0;
    while i < entries.len()
        invariant
            i <= entries@.len(),
            widths_fit(w, entries@.subrange(0, i as int), human),
        decreases entries@.len() - i,
    {
        let e = &entries[i];
        let l0 = decimal_chars(e.meta.ino).len();
        let l1 = decimal_chars(e.meta.blocks).len();
        let l2 = decimal_chars(e.meta.nlink).len();
        let l3 = size_chars(e.meta.size, human).len();
        proof {
            let s = entries@.subrange(0, i + 1);
            assert(s.drop_last() =~= entries@.subrange(0, i as int));
            assert(s.last() == entries@[i as int]);
        }
        if l0 > w.ino { w.ino = l0; }
        if l1 > w.blocks { w.blocks = l1; }
        if l2 > w.nlink { w.nlink = l2; }
        if l3 > w.size { w.size = l3; }
        i = i + 1;
    }
    assert(entries@.subrange(0, i as int) =~= entries@);
    w
}

/// The size column of one entry.
pub fn size_or_device(e: &Entry, human: bool) -> (r: Vec<char>)
    ensures
        r@ == size_field(*e, human),
{
    let k = e.meta.mode & TYPE_MASK;
    if k == CHAR_DEV || k == BLOCK_DEV {
        let mut r: Vec<char> = Vec::new();
        push_decimal(&mut r, (e.meta.rdev >> 24) & 0xFF);
        r.push(',');
        r.push(' ');
        push_decimal(&mut r, e.meta.rdev & 0xFFFFFF);
        assert(r@ =~= dev_text(e.meta.rdev));
        r
    } else {
        size_chars(e.meta.size, human)
    }
}

fn lead_chars(e: &Entry, cfg: &Config, w: &Widths) -> (r: Vec<char>)
    ensures
        r@ == line_lead(*e, *cfg, *w),
{
    let mut out: Vec<char> = Vec::new();
    if cfg.inode {
        push_padded_left(&mut out, &decimal_chars(e.meta.ino), w.ino);
        out.push(' ');
    }
    if cfg.blocks {
        push_padded_left(&mut out, &decimal_chars(e.meta.blocks), w.blocks);
        out.push(' ');
    }
    assert(out@ =~= line_lead(*e, *cfg, *w));
    out
}

fn meta_chars(e: &Entry, w: &Widths, user: &String, group: &String) -> (r: Vec<char>)
    ensures
        r@ == line_meta(*e, *w, user@, group@),
{
    let mut out = mode_chars(e.meta.mode);
    out.push(' ');
    push_padded_left(&mut out, &decimal_chars(e.meta.nlink), w.nlink);
    out.push(' ');
    push_padded_left(&mut out, &chars_of(user.as_str()), NAME_WIDTH);
    out.push(' ');
    push_padded_left(&mut out, &chars_of(group.as_str()), NAME_WIDTH);
    out.push(' ');
    assert(out@ =~= line_meta(*e, *w, user@, group@));
    out
}

fn target_chars(e: &Entry) -> (r: Vec<char>)
    ensures
        r@ == target_text(*e),
{
    match &e.symlink_target {
        Some(t) => {
            let mut out = vec![' ', '-', '>', ' '];
            push_all(&mut out, &chars_of(t.as_str()));
            assert(out@ =~= target_text(*e));
            out
        },
        None => {
            let out: Vec<char> = Vec::new();
            assert(out@ =~= target_text(*e));
            out
        },
    }
}

fn tail_chars(e: &Entry, cfg: &Config, use_color: bool, w: &Widths, stamp: &String) -> (r: Vec<char>)
    ensures
        r@ == line_tail(*e, *cfg, use_color, *w, stamp@),
{
    let mut out: Vec<char> = Vec::new();
    push_padded_left(&mut out, &size_or_device(e, cfg.human_readable), w.size);
    out.push(' ');
    push_all(&mut out, &chars_of(stamp.as_str()));
    out.push(' ');
    push_all(&mut out, &decorate(e.name.as_str(), e.meta.mode, cfg, use_color));
    push_all(&mut out, &target_chars(e));
    out.push('\n');
    assert(out@ =~= line_tail(*e, *cfg, use_color, *w, stamp@));
    out
}

fn push_long_line(
    out: &mut Vec<char>,
    e: &Entry,
    cfg: &Config,
    use_color: bool,
    w: &Widths,
    user: &String,
    group: &String,
    stamp: &String,
)
    ensures
        final(out)@ == old(out)@ + long_line(*e, *cfg, use_color, *w, user@, group@, stamp@),
{
    let ghost start = out@;
    push_all(out, &lead_chars(e, cfg, w));
    push_all(out, &meta_chars(e, w, user, group));
    push_all(out, &tail_chars(e, cfg, use_color, w, stamp));
    assert(out@ =~= start + long_line(*e, *cfg, use_color, *w, user@, group@, stamp@));
}

/// The long listing of `entries`; `users[i]`, `groups[i]` and `stamps[i]`
/// are the owner name, group name and time stamp of `entries[i]`.
pub fn render_long(
    entries: &Vec<Entry>,
    cfg: &Config,
    use_color: bool,
    users: &Vec<String>,
    groups: &Vec<String>,
    stamps: &Vec<String>,
) -> (r: Vec<char>)
    requires
        users@.len() == entries@.len(),
        groups@.len() == entries@.len(),
        stamps@.len() == entries@.len(),
    ensures
        r@ == long_text(entries@, *cfg, use_color, users@, groups@, stamps@),
{
    let w = column_widths(entries, cfg.human_readable);
    let mut out: Vec<char> = Vec::new();
    let mut i: usize = 0;
    while i < entries.len()
        invariant
            i <= entries@.len(),
            users@.len() == entries@.len(),
            groups@.len() == entries@.len(),
            stamps@.len() == entries@.len(),
            widths_fit(w, entries@, cfg.human_readable),
            out@ == long_lines(entries@, *cfg, use_color, w, users@, groups@, stamps@, i as nat),
        decreases entries@.len() - i,
    {
        push_long_line(&mut out, &entries[i], cfg, use_color, &w, &users[i], &groups[i], &stamps[i]);
        i = i + 1;
    }
    out
}

} // verus!
