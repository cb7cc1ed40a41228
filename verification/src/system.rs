//! The platform the launcher runs on, and the path rules that depend on it.

use vstd::prelude::*;
use crate::text::{
    chars_eq, copy_range, ends_with, extend_chars, split_char, split_char_exec, views,
};

verus! {

/// Operating systems the launcher knows about.
#[allow(non_camel_case_types)]
#[derive(Debug, Clone, Copy, PartialEq, Eq, Structural)]
pub enum OperatingSystem {
    WINDOWS,
    LINUX,
    OSX,
    UNKNOWN,
}

/// Processor architectures the launcher knows about.
#[allow(non_camel_case_types)]
#[derive(Debug, Clone, Copy, PartialEq, Eq, Structural)]
pub enum Architecture {
    X86,
    X64,
    ARM,
    AARCH64,
    UNKNOWN,
}

/// The character between classpath entries: `;` on Windows, `:` elsewhere.
pub open spec fn spec_classpath_separator(os: OperatingSystem) -> char {
    if os == OperatingSystem::WINDOWS {
        ';'
    } else {
        ':'
    }
}

/// The character that `PathBuf::push` puts between components: `\` on
/// Windows, `/` elsewhere.
pub open spec fn spec_main_separator(os: OperatingSystem) -> char {
    if os == OperatingSystem::WINDOWS {
        '\\'
    } else {
        '/'
    }
}

/// Whether `c` separates path components on `os`.
pub open spec fn is_separator(os: OperatingSystem, c: char) -> bool {
    c == '/' || (os == OperatingSystem::WINDOWS && c == '\\')
}

/// The classpath separator of `os`.
pub fn classpath_separator(os: OperatingSystem) -> (r: char)
    ensures
        r == spec_classpath_separator(os),
{
    if os == OperatingSystem::WINDOWS {
        ';'
    } else {
        ':'
    }
}

/// The classpath separator of `os`, as a one-character string.
pub fn get_path_separator(os: OperatingSystem) -> (r: String)
    ensures
        r@ == seq![spec_classpath_separator(os)],
{
    let v = vec![classpath_separator(os)];
    crate::text::from_chars(v.as_slice())
}

/// The path separator of `os`.
pub fn main_separator(os: OperatingSystem) -> (r: char)
    ensures
        r == spec_main_separator(os),
{
    if os == OperatingSystem::WINDOWS {
        '\\'
    } else {
        '/'
    }
}

/// Whether `path` starts a new path when pushed onto another one: it begins
/// with a separator, or, on Windows, with a drive letter and a colon.
pub open spec fn replaces_base(os: OperatingSystem, path: Seq<char>) -> bool {
    ||| (path.len() > 0 && is_separator(os, path[0]))
    ||| (os == OperatingSystem::WINDOWS && path.len() >= 2 && path[1] == ':' && (('a' <= path[0]
        && path[0] <= 'z') || ('A' <= path[0] && path[0] <= 'Z')))
}

/// `base` joined with `child` (`Path::join`): a child that starts a new
/// path replaces the base; otherwise a separator goes between them unless
/// the base is empty or already ends with one.
pub open spec fn join_path(os: OperatingSystem, base: Seq<char>, child: Seq<char>) -> Seq<char> {
    if replaces_base(os, child) {
        child
    } else if base.len() == 0 || is_separator(os, base.last()) {
        base + child
    } else {
        base + seq![spec_main_separator(os)] + child
    }
}

/// Computes `join_path(os, base, child)`.
pub fn join_path_exec(os: OperatingSystem, base: &[char], child: &[char]) -> (r: Vec<char>)
    ensures
        r@ == join_path(os, base@, child@),
{
    let child_replaces = (child.len() > 0 && (child[0] == '/' || (os == OperatingSystem::WINDOWS
        && child[0] == '\\'))) || (os == OperatingSystem::WINDOWS && child.len() >= 2 && child[1]
        == ':' && (('a' <= child[0] && child[0] <= 'z') || ('A' <= child[0] && child[0] <= 'Z')));
    if child_replaces {
        return copy_range(child, 0, child.len());
    }
    let mut r = copy_range(base, 0, base.len());
    assert(base@.subrange(0, base@.len() as int) =~= base@);
    let ends_sep = base.len() > 0 && (base[base.len() - 1] == '/' || (os == OperatingSystem::WINDOWS
        && base[base.len() - 1] == '\\'));
    if !(base.len() == 0 || ends_sep) {
        r.push(main_separator(os));
    }
    extend_chars(&mut r, child);
    r
}

/// `path` with every component separator of `os` written as `/`.
pub open spec fn normalize_separators(os: OperatingSystem, path: Seq<char>) -> Seq<char> {
    path.map_values(|c: char| if is_separator(os, c) { '/' } else { c })
}

/// `path` without a Windows drive prefix such as `C:`.
pub open spec fn strip_drive(os: OperatingSystem, path: Seq<char>) -> Seq<char> {
    if os == OperatingSystem::WINDOWS && path.len() >= 2 && path[1] == ':' && (('a' <= path[0]
        && path[0] <= 'z') || ('A' <= path[0] && path[0] <= 'Z')) {
        path.subrange(2, path.len() as int)
    } else {
        path
    }
}

/// The last component of `segs` that is neither empty nor `.`.
pub open spec fn last_component(segs: Seq<Seq<char>>) -> Option<Seq<char>>
    decreases segs.len(),
{
    if segs.len() == 0 {
        None
    } else if segs.last().len() == 0 || segs.last() == seq!['.'] {
        last_component(segs.drop_last())
    } else {
        Some(segs.last())
    }
}

/// The final component of `path` when it names a file or directory
/// (`Path::file_name`): empty and `.` components are skipped, and a path
/// that ends in `..` or has no such component has none.
pub open spec fn file_name(os: OperatingSystem, path: Seq<char>) -> Option<Seq<char>> {
    match last_component(split_char(normalize_separators(os, strip_drive(os, path)), '/')) {
        Some(c) => if c == seq!['.', '.'] {
            None
        } else {
            Some(c)
        },
        None => None,
    }
}

/// Computes `file_name(os, path)`.
pub fn file_name_exec(os: OperatingSystem, path: &[char]) -> (r: Option<Vec<char>>)
    ensures
        match r {
            Some(v) => file_name(os, path@) == Some(v@),
            None => file_name(os, path@) is None,
        },
{
    let start: usize = if os == OperatingSystem::WINDOWS && path.len() >= 2 && path[1] == ':' && ((
    'a' <= path[0] && path[0] <= 'z') || ('A' <= path[0] && path[0] <= 'Z')) {
        2
    } else {
        0
    };
    let ghost stripped = strip_drive(os, path@);
    assert(stripped =~= path@.subrange(start as int, path@.len() as int));
    let mut norm: Vec<char> = Vec::new();
    let mut i = start;
    while i < path.len()
        invariant
            start <= i <= path@.len(),
            stripped == path@.subrange(start as int, path@.len() as int),
            norm@ == normalize_separators(os, stripped).subrange(0, i - start),
        decreases path.len() - i,
    {
        let c = path[i];
        if c == '/' || (os == OperatingSystem::WINDOWS && c == '\\') {
            norm.push('/');
        } else {
            norm.push(c);
        }
        assert(norm@ =~= normalize_separators(os, stripped).subrange(0, i + 1 - start));
        i += 1;
    }
    assert(norm@ =~= normalize_separators(os, stripped));
    let segs = split_char_exec(norm.as_slice(), '/');
    let dot = vec!['.'];
    let dotdot = vec!['.', '.'];
    let mut n = segs.len();
    assert(views(segs@).subrange(0, segs@.len() as int) =~= views(segs@));
    while n > 0 && (segs[n - 1].len() == 0 || chars_eq(segs[n - 1].as_slice(), dot.as_slice()))
        invariant
            n <= segs@.len(),
            dot@ == seq!['.'],
            last_component(views(segs@)) == last_component(views(segs@).subrange(0, n as int)),
        decreases n,
    {
        proof {
            let t = views(segs@).subrange(0, n as int);
            assert(t.last() == segs@[n - 1]@);
            assert(t.drop_last() =~= views(segs@).subrange(0, n - 1));
        }
        n -= 1;
    }
    assert(views(segs@).subrange(0, segs@.len() as int) =~= views(segs@));
    if n == 0 {
        assert(views(segs@).subrange(0, 0) =~= Seq::<Seq<char>>::empty());
        return None;
    }
    proof {
        let t = views(segs@).subrange(0, n as int);
        assert(t.last() == segs@[n - 1]@);
    }
    if chars_eq(segs[n - 1].as_slice(), dotdot.as_slice()) {
        return None;
    }
    let last = &segs[n - 1];
    let r = copy_range(last.as_slice(), 0, last.len());
    assert(last@.subrange(0, last@.len() as int) =~= last@);
    Some(r)
}

} // verus!
