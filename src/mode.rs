//! What the mode word says: the ten-character mode string, the type
//! indicator, the color, and the decorated name built from them.

use vstd::prelude::*;
use crate::text::{chars_of, push_all, text_of};
use crate::entry::Config;

verus! {

pub const TYPE_MASK: u32 = 0o170000;
pub const DIR: u32 = 0o040000;
pub const SYMLINK: u32 = 0o120000;
pub const CHAR_DEV: u32 = 0o020000;
pub const BLOCK_DEV: u32 = 0o060000;
pub const FIFO: u32 = 0o010000;
pub const SOCKET: u32 = 0o140000;
pub const ANY_EXEC: u32 = 0o111;

/// The file-type bits of a mode word.
pub open spec fn kind(mode: u32) -> u32 {
    mode & TYPE_MASK
}

pub open spec fn is_dir_mode(mode: u32) -> bool {
    kind(mode) == DIR
}

pub open spec fn is_device_mode(mode: u32) -> bool {
    kind(mode) == CHAR_DEV || kind(mode) == BLOCK_DEV
}

pub open spec fn any_exec(mode: u32) -> bool {
    mode & ANY_EXEC != 0
}

/// The type character that leads the mode string.
pub open spec fn type_char(mode: u32) -> char {
    if kind(mode) == DIR { 'd' }
    else if kind(mode) == SYMLINK { 'l' }
    else if kind(mode) == CHAR_DEV { 'c' }
    else if kind(mode) == BLOCK_DEV { 'b' }
    else if kind(mode) == FIFO { 'p' }
    else if kind(mode) == SOCKET { 's' }
    else { '-' }
}

pub open spec fn perm_char(mode: u32, bit: u32, c: char) -> char {
    if mode & bit != 0 { c } else { '-' }
}

/// The type character, then read/write/execute for owner, group and others.
pub open spec fn mode_string(mode: u32) -> Seq<char> {
    seq![
        type_char(mode),
        perm_char(mode, 0o400, 'r'),
        perm_char(mode, 0o200, 'w'),
        perm_char(mode, 0o100, 'x'),
        perm_char(mode, 0o040, 'r'),
        perm_char(mode, 0o020, 'w'),
        perm_char(mode, 0o010, 'x'),
        perm_char(mode, 0o004, 'r'),
        perm_char(mode, 0o002, 'w'),
        perm_char(mode, 0o001, 'x'),
    ]
}

/// The suffix that marks an entry's type: `/` for a directory under either
/// flag; `@`, `=`, `|` and `*` only when classifying.
pub open spec fn indicator(mode: u32, classify: bool) -> Seq<char> {
    if kind(mode) == DIR {
        seq!['/']
    } else if !classify {
        Seq::empty()
    } else if kind(mode) == SYMLINK {
        seq!['@']
    } else if kind(mode) == SOCKET {
        seq!['=']
    } else if kind(mode) == FIFO {
        seq!['|']
    } else if any_exec(mode) {
        seq!['*']
    } else {
        Seq::empty()
    }
}

pub open spec fn color_start(code: char) -> Seq<char> {
    seq!['\x1b', '[', '3', code, 'm']
}

pub open spec fn color_end() -> Seq<char> {
    seq!['\x1b', '[', '0', 'm']
}

/// `s` wrapped in the color of its type: blue for a directory, cyan for a
/// symbolic link, green for an executable, none otherwise.
pub open spec fn colorized(s: Seq<char>, mode: u32) -> Seq<char> {
    if kind(mode) == DIR {
        color_start('4') + s + color_end()
    } else if kind(mode) == SYMLINK {
        color_start('6') + s + color_end()
    } else if any_exec(mode) {
        color_start('2') + s + color_end()
    } else {
        s
    }
}

/// The name as shown: indicator appended when asked for, then colored.
pub open spec fn decorated(name: Seq<char>, mode: u32, classify: bool, slash: bool, color: bool) -> Seq<char> {
    let marked = if classify || slash { name + indicator(mode, classify) } else { name };
    if color { colorized(marked, mode) } else { marked }
}

fn perm(mode: u32, bit: u32, c: char) -> (r: char)
    ensures
        r == perm_char(mode, bit, c),
{
    if mode & bit != 0 { c } else { '-' }
}

pub fn get_type_char(mode: u32) -> (r: char)
    ensures
        r == type_char(mode),
{
    let k = mode & TYPE_MASK;
    if k == DIR { 'd' }
    else if k == SYMLINK { 'l' }
    else if k == CHAR_DEV { 'c' }
    else if k == BLOCK_DEV { 'b' }
    else if k == FIFO { 'p' }
    else if k == SOCKET { 's' }
    else { '-' }
}

/// The ten-character mode string, such as `drwxr-xr-x`.
pub fn format_mode(mode: u32) -> (r: String)
    ensures
        r@ == mode_string(mode),
{
    let v = mode_chars(mode);
    text_of(&v)
}

pub fn mode_chars(mode: u32) -> (r: Vec<char>)
    ensures
        r@ == mode_string(mode),
{
    let r = vec![
        get_type_char(mode),
        perm(mode, 0o400, 'r'),
        perm(mode, 0o200, 'w'),
        perm(mode, 0o100, 'x'),
        perm(mode, 0o040, 'r'),
        perm(mode, 0o020, 'w'),
        perm(mode, 0o010, 'x'),
        perm(mode, 0o004, 'r'),
        perm(mode, 0o002, 'w'),
        perm(mode, 0o001, 'x'),
    ];
    assert(r@ =~= mode_string(mode));
    r
}

/// The type indicator of an entry with this mode.
pub fn get_indicator(mode: u32, classify: bool) -> (r: Vec<char>)
    ensures
        r@ == indicator(mode, classify),
{
    let k = mode & TYPE_MASK;
    let r = if k == DIR {
        vec!['/']
    } else if !classify {
        Vec::new()
    } else if k == SYMLINK {
        vec!['@']
    } else if k == SOCKET {
        vec!['=']
    } else if k == FIFO {
        vec!['|']
    } else if mode & ANY_EXEC != 0 {
        vec!['*']
    } else {
        Vec::new()
    };
    assert(r@ =~= indicator(mode, classify));
    r
}

/// Wraps `s` in the color of its type.
pub fn colorize(s: &Vec<char>, mode: u32) -> (r: Vec<char>)
    ensures
        r@ == colorized(s@, mode),
{
    let k = mode & TYPE_MASK;
    let code = if k == DIR {
        '4'
    } else if k == SYMLINK {
        '6'
    } else if mode & ANY_EXEC != 0 {
        '2'
    } else {
        let r = copy_chars(s);
        return r;
    };
    let mut r = vec!['\x1b', '[', '3', code, 'm'];
    push_all(&mut r, s);
    push_all(&mut r, &vec!['\x1b', '[', '0', 'm']);
    assert(r@ =~= colorized(s@, mode));
    r
}

fn copy_chars(s: &Vec<char>) -> (r: Vec<char>)
    ensures
        r@ == s@,
{
    let mut r: Vec<char> = Vec::new();
    push_all(&mut r, s);
    assert(r@ =~= s@);
    r
}

/// The decorated name of an entry: its name, the indicator where the
/// configuration asks for one, and the color where `use_color` holds.
pub fn decorate(name: &str, mode: u32, cfg: &Config, use_color: bool) -> (r: Vec<char>)
    ensures
        r@ == decorated(name@, mode, cfg.classify, cfg.slash, use_color),
{
    let mut n = chars_of(name);
    if cfg.classify || cfg.slash {
        let ind = get_indicator(mode, cfg.classify);
        push_all(&mut n, &ind);
    }
    if use_color {
        colorize(&n, mode)
    } else {
        n
    }
}

} // verus!
