//! Paths as text, on Windows and elsewhere.
use vstd::prelude::*;
use vstd::string::*;

use crate::text::{
    chars_of, law_pieces_make_the_text, law_pieces_of_two_texts, replace_char, replaced, segments,
    split, str_eq, string_of, views,
};

verus! {

/// Whether a character separates the components of a path. On Windows both
/// slashes do.
pub open spec fn is_separator(c: char, windows: bool) -> bool {
    c == '/' || windows && c == '\\'
}

/// The separator that paths are written with.
pub open spec fn main_separator(windows: bool) -> char {
    if windows {
        '\\'
    } else {
        '/'
    }
}

/// Whether a text starts with the letter of a drive and a colon.
pub open spec fn starts_with_drive(s: Seq<char>) -> bool {
    s.len() >= 2 && ('a' <= s[0] <= 'z' || 'A' <= s[0] <= 'Z') && s[1] == ':'
}

/// Whether a Windows path is taken as it is written: only `\` separates its
/// components, and `.` is one of them.
pub open spec fn is_verbatim(s: Seq<char>) -> bool {
    s.len() >= 4 && s[0] == '\\' && s[1] == '\\' && s[2] == '?' && s[3] == '\\'
}

/// Whether a verbatim path is that of a share, `\\?\UNC\server\share`.
pub open spec fn is_verbatim_share(s: Seq<char>) -> bool {
    &&& is_verbatim(s) && s.len() >= 8
    &&& s[4] == 'U' && s[5] == 'N' && s[6] == 'C' && is_separator(s[7], true)
}

/// Whether a verbatim path is on a drive, `\\?\C:`.
pub open spec fn is_verbatim_drive(s: Seq<char>) -> bool {
    &&& is_verbatim(s) && starts_with_drive(s.skip(4))
    &&& s.len() == 6 || is_separator(s[6], true)
}

/// The position of the first separator from `from` on, or the end.
pub open spec fn piece_end(s: Seq<char>, from: int, verbatim: bool) -> int
    decreases s.len() - from,
{
    if from < 0 || from >= s.len() || s[from] == '\\' || !verbatim && s[from] == '/' {
        from
    } else {
        piece_end(s, from + 1, verbatim)
    }
}

/// How long the prefix of a Windows path is: a drive, `C:`; a share,
/// `\\server\share`; a device, `\\.\device`; or one of a verbatim path.
pub open spec fn windows_prefix_len(s: Seq<char>) -> int {
    if s.len() >= 2 && is_separator(s[0], true) && is_separator(s[1], true) {
        if is_verbatim_share(s) {
            let server = piece_end(s, 8, true);
            let share = piece_end(s, server + 1, true);
            if share > server + 1 {
                share
            } else {
                server
            }
        } else if is_verbatim_drive(s) {
            6
        } else if is_verbatim(s) {
            piece_end(s, 4, true)
        } else if s.len() >= 4 && s[2] == '.' && is_separator(s[3], true) {
            piece_end(s, 4, false)
        } else {
            let server = piece_end(s, 2, false);
            let share = piece_end(s, server + 1, false);
            if server > 2 && share > server + 1 {
                share
            } else {
                0
            }
        }
    } else if starts_with_drive(s) {
        2
    } else {
        0
    }
}

/// How long the prefix of a path is. Only Windows paths have one.
pub open spec fn prefix_len(s: Seq<char>, windows: bool) -> int {
    if windows {
        windows_prefix_len(s)
    } else {
        0
    }
}

/// Whether a separator follows the prefix.
pub open spec fn has_written_root(s: Seq<char>, windows: bool) -> bool {
    let n = prefix_len(s, windows);
    0 <= n < s.len() && is_separator(s[n], windows)
}

/// Whether a path starts at a root. One on a share or a device does even if no
/// separator follows its prefix.
pub open spec fn has_root(s: Seq<char>, windows: bool) -> bool {
    ||| has_written_root(s, windows)
    ||| prefix_len(s, windows) > 0 && is_separator(s[0], true) && !is_verbatim(s)
}

/// The prefix and the root of a path, as far as it has them.
pub open spec fn head(s: Seq<char>, windows: bool) -> Seq<Seq<char>> {
    let n = prefix_len(s, windows);
    let prefix = if n > 0 {
        seq![s.take(n)]
    } else {
        seq![]
    };
    if has_root(s, windows) {
        prefix.push(seq![main_separator(windows)])
    } else {
        prefix
    }
}

/// The position behind the prefix and the root.
pub open spec fn body_start(s: Seq<char>, windows: bool) -> int {
    if has_written_root(s, windows) {
        prefix_len(s, windows) + 1
    } else {
        prefix_len(s, windows)
    }
}

/// What follows the prefix and the root, with one kind of separator.
pub open spec fn body(s: Seq<char>, windows: bool) -> Seq<char> {
    let rest = s.skip(body_start(s, windows));
    if windows && !is_verbatim(s) {
        replaced(rest, '/', '\\')
    } else {
        rest
    }
}

/// The pieces of a path between the separators, behind its prefix and root.
pub open spec fn body_pieces(s: Seq<char>, windows: bool) -> Seq<Seq<char>> {
    segments(body(s, windows), main_separator(windows))
}

/// Whether a piece between two separators names a component of its own:
/// repeated separators and, but in a verbatim path, `.` pieces do not.
pub open spec fn is_kept(piece: Seq<char>, verbatim: bool) -> bool {
    piece.len() > 0 && (verbatim || piece != seq!['.'])
}

/// A `.` at the very front of a path, which is a component.
pub open spec fn leading_dot(s: Seq<char>, windows: bool) -> Seq<Seq<char>> {
    if head(s, windows).len() == 0 && body_pieces(s, windows)[0] == seq!['.'] {
        seq![seq!['.']]
    } else {
        seq![]
    }
}

/// The components of a path: its prefix, its root, a `.` at its front, and its
/// names and `..` pieces.
pub open spec fn components(s: Seq<char>, windows: bool) -> Seq<Seq<char>> {
    head(s, windows) + leading_dot(s, windows) + body_pieces(s, windows).filter(
        |p: Seq<char>| is_kept(p, windows && is_verbatim(s)),
    )
}

/// Whether a character separates the components of a path.
pub fn separates(c: char, windows: bool) -> (r: bool)
    ensures
        r == is_separator(c, windows),
{
    c == '/' || windows && c == '\\'
}

fn drive_at(text: &Vec<char>, from: usize) -> (r: bool)
    ensures
        r == (from <= text@.len() && starts_with_drive(text@.skip(from as int))),
{
    if text.len() < 2 || from > text.len() - 2 {
        return false;
    }
    let letter = text[from];
    assert(text@.skip(from as int)[0] == letter);
    assert(text@.skip(from as int)[1] == text@[from + 1]);
    ('a' <= letter && letter <= 'z' || 'A' <= letter && letter <= 'Z') && text[from + 1] == ':'
}

fn verbatim(text: &Vec<char>) -> (r: bool)
    ensures
        r == is_verbatim(text@),
{
    text.len() >= 4 && text[0] == '\\' && text[1] == '\\' && text[2] == '?' && text[3] == '\\'
}

fn end_of_piece(text: &Vec<char>, from: usize, verbatim: bool) -> (r: usize)
    requires
        from <= text@.len(),
    ensures
        r == piece_end(text@, from as int, verbatim),
        from <= r <= text@.len(),
{
    let mut n: usize = from;
    while n < text.len() && text[n] != '\\' && (verbatim || text[n] != '/')
        invariant
            from <= n <= text@.len(),
            piece_end(text@, from as int, verbatim) == piece_end(text@, n as int, verbatim),
        decreases text@.len() - n,
    {
        n = n + 1;
    }
    n
}

/// The end of the piece behind the separator at `at`, where that is not empty.
fn end_of_next(text: &Vec<char>, at: usize, verbatim: bool) -> (r: Option<usize>)
    requires
        at <= text@.len(),
    ensures
        ({
            let end = piece_end(text@, at + 1, verbatim);
            match r {
                Some(n) => n == end && at + 1 < n <= text@.len(),
                None => end <= at + 1,
            }
        }),
{
    if at == text.len() {
        return None;
    }
    let end = end_of_piece(text, at + 1, verbatim);
    if end > at + 1 {
        Some(end)
    } else {
        None
    }
}

fn prefix_end(text: &Vec<char>, windows: bool) -> (r: usize)
    ensures
        r == prefix_len(text@, windows),
        r <= text@.len(),
{
    if !windows {
        return 0;
    }
    assert(text@.skip(0) =~= text@);
    if text.len() < 2 || !separates(text[0], true) || !separates(text[1], true) {
        return if drive_at(text, 0) {
            2
        } else {
            0
        };
    }
    if verbatim(text) {
        if text.len() >= 8 && text[4] == 'U' && text[5] == 'N' && text[6] == 'C' && separates(
            text[7],
            true,
        ) {
            let server = end_of_piece(text, 8, true);
            return match end_of_next(text, server, true) {
                Some(share) => share,
                None => server,
            };
        }
        if drive_at(text, 4) && (text.len() == 6 || separates(text[6], true)) {
            return 6;
        }
        return end_of_piece(text, 4, true);
    }
    if text.len() >= 4 && text[2] == '.' && separates(text[3], true) {
        return end_of_piece(text, 4, false);
    }
    let server = end_of_piece(text, 2, false);
    match end_of_next(text, server, false) {
        Some(share) => if server > 2 {
            share
        } else {
            0
        },
        None => 0,
    }
}

fn text_of(c: char) -> (r: String)
    ensures
        r@ == seq![c],
{
    let mut r = String::new();
    r.push(c);
    assert(r@ =~= seq![c]);
    r
}

/// The separator that paths are written with.
fn written_separator(windows: bool) -> (r: char)
    ensures
        r == main_separator(windows),
{
    if windows {
        '\\'
    } else {
        '/'
    }
}

fn head_of(text: &Vec<char>, windows: bool) -> (r: Vec<String>)
    ensures
        views(r@) == head(text@, windows),
{
    let mut out: Vec<String> = Vec::new();
    let n = prefix_end(text, windows);
    if n > 0 {
        out.push(string_of(text, 0, n));
        assert(text@.subrange(0, n as int) =~= text@.take(n as int));
    }
    let ghost prefix = views(out@);
    assert(prefix =~= if n > 0 {
        seq![text@.take(n as int)]
    } else {
        seq![]
    });
    if n < text.len() && separates(text[n], windows) || n > 0 && separates(text[0], true)
        && !verbatim(text) {
        out.push(text_of(written_separator(windows)));
        assert(views(out@) =~= prefix.push(seq![main_separator(windows)]));
    }
    out
}

fn pieces_of(text: &Vec<char>, windows: bool) -> (r: Vec<String>)
    ensures
        views(r@) == body_pieces(text@, windows),
{
    let n = prefix_end(text, windows);
    let start: usize = if n < text.len() && separates(text[n], windows) {
        n + 1
    } else {
        n
    };
    let rest = string_of(text, start, text.len());
    assert(rest@ =~= text@.skip(start as int));
    if windows && !verbatim(text) {
        let rest = replace_char(rest.as_str(), '/', '\\');
        split(rest.as_str(), written_separator(windows))
    } else {
        split(rest.as_str(), written_separator(windows))
    }
}

/// The components of a path.
pub fn path_components(s: &str, windows: bool) -> (r: Vec<String>)
    ensures
        views(r@) == components(s@, windows),
{
    proof {
        reveal_strlit(".");
        assert("."@ =~= seq!['.']);
    }
    let text = chars_of(s);
    let keep_dots = windows && verbatim(&text);
    let pieces = pieces_of(&text, windows);
    let mut out = head_of(&text, windows);
    let ghost keep = |p: Seq<char>| is_kept(p, keep_dots);
    let ghost all = views(pieces@);
    assert(all.len() > 0);
    assert(all[0] == pieces@[0]@);
    assert(views(out@).len() == out@.len());
    let ghost first = views(out@);
    if out.len() == 0 && str_eq(pieces[0].as_str(), ".") {
        out.push(".".to_owned());
        assert(views(out@) =~= first.push("."@));
    }
    let ghost front = head(s@, windows) + leading_dot(s@, windows);
    assert(views(out@) =~= front);
    let mut i: usize = 0;
    assert(all.take(0) =~= Seq::<Seq<char>>::empty());
    assert(all.take(0).filter(keep) =~= Seq::<Seq<char>>::empty()) by {
        reveal(Seq::filter);
    }
    assert(views(out@) =~= front + all.take(0).filter(keep));
    while i < pieces.len()
        invariant
            i <= pieces@.len(),
            all == views(pieces@),
            keep == (|p: Seq<char>| is_kept(p, keep_dots)),
            "."@ == seq!['.'],
            views(out@) == front + all.take(i as int).filter(keep),
        decreases pieces@.len() - i,
    {
        let ghost before = out@;
        assert(all[i as int] == pieces@[i as int]@);
        assert(all.take(i + 1).drop_last() == all.take(i as int));
        assert(all.take(i + 1).last() == all[i as int]);
        reveal(Seq::filter);
        if !pieces[i].as_str().is_empty() && (keep_dots || !str_eq(pieces[i].as_str(), ".")) {
            out.push(pieces[i].clone());
            assert(views(out@) =~= views(before).push(all[i as int]));
        }
        i = i + 1;
    }
    assert(all.take(all.len() as int) == all);
    out
}

/// The position behind the prefix and the root of a path, and how many components
/// they make.
pub fn path_front(s: &str, windows: bool) -> (r: (usize, usize))
    ensures
        r.0 == body_start(s@, windows),
        r.0 <= s@.len(),
        r.1 == head(s@, windows).len(),
{
    let text = chars_of(s);
    let n = prefix_end(&text, windows);
    let front = head_of(&text, windows);
    assert(views(front@).len() == front@.len());
    if n < text.len() && separates(text[n], windows) {
        (n + 1, front.len())
    } else {
        (n, front.len())
    }
}

/// The upper-case form of an ASCII letter; any other character is kept.
pub open spec fn upper_letter(c: char) -> char {
    if 'a' <= c <= 'z' {
        (c as u32 - 32) as u8 as char
    } else {
        c
    }
}

/// A prefix as it is compared: the case of a drive's letter does not count, and
/// neither does which slashes are written.
pub open spec fn prefix_key(s: Seq<char>) -> Seq<char> {
    let prefix = s.take(prefix_len(s, true));
    if is_verbatim_share(s) {
        prefix.update(7, '\\')
    } else if is_verbatim_drive(s) {
        prefix.update(4, upper_letter(s[4]))
    } else if is_verbatim(s) {
        prefix
    } else if starts_with_drive(s) {
        prefix.update(0, upper_letter(s[0]))
    } else {
        replaced(prefix, '/', '\\')
    }
}

/// The components of a path as they are compared with those of another.
pub open spec fn keys(s: Seq<char>, windows: bool) -> Seq<Seq<char>> {
    if prefix_len(s, windows) > 0 {
        components(s, windows).update(0, prefix_key(s))
    } else {
        components(s, windows)
    }
}

/// Whether two texts are the same path.
pub open spec fn same_path(a: Seq<char>, b: Seq<char>, windows: bool) -> bool {
    keys(a, windows) == keys(b, windows)
}

/// Whether the components of `prefix` stand at the front of those of `path`.
pub open spec fn under(path: Seq<char>, prefix: Seq<char>, windows: bool) -> bool {
    keys(prefix, windows).is_prefix_of(keys(path, windows))
}

fn with_char(text: &Vec<char>, n: usize, at: usize, c: char) -> (r: String)
    requires
        at < n <= text@.len(),
    ensures
        r@ == text@.take(n as int).update(at as int, c),
{
    let mut chars: Vec<char> = Vec::new();
    let mut i: usize = 0;
    while i < n
        invariant
            i <= n <= text@.len(),
            chars@ == text@.take(i as int),
        decreases n - i,
    {
        chars.push(text[i]);
        i = i + 1;
        assert(text@.take(i as int) =~= text@.take(i - 1).push(text@[i - 1]));
    }
    chars.set(at, c);
    let r = string_of(&chars, 0, n);
    assert(r@ =~= chars@);
    r
}

fn upper(c: char) -> (r: char)
    ensures
        r == upper_letter(c),
{
    if 'a' <= c && c <= 'z' {
        let code: u32 = c as u32 - 32;
        code as u8 as char
    } else {
        c
    }
}

fn key_of_prefix(text: &Vec<char>, n: usize) -> (r: String)
    requires
        n == prefix_len(text@, true),
        0 < n <= text@.len(),
    ensures
        r@ == prefix_key(text@),
{
    assert(text@.skip(0) =~= text@);
    if verbatim(text) {
        if text.len() >= 8 && text[4] == 'U' && text[5] == 'N' && text[6] == 'C' && separates(
            text[7],
            true,
        ) {
            let _ = end_of_piece(text, 8, true);
            return with_char(text, n, 7, '\\');
        }
        if drive_at(text, 4) && (text.len() == 6 || separates(text[6], true)) {
            return with_char(text, n, 4, upper(text[4]));
        }
        let prefix = string_of(text, 0, n);
        assert(prefix@ =~= text@.take(n as int));
        return prefix;
    }
    if drive_at(text, 0) {
        return with_char(text, n, 0, upper(text[0]));
    }
    let prefix = string_of(text, 0, n);
    assert(prefix@ =~= text@.take(n as int));
    replace_char(prefix.as_str(), '/', '\\')
}

/// The components of a path as they are compared with those of another.
pub fn path_keys(s: &str, windows: bool) -> (r: Vec<String>)
    ensures
        views(r@) == keys(s@, windows),
{
    let text = chars_of(s);
    let n = prefix_end(&text, windows);
    let mut parts = path_components(s, windows);
    if n > 0 {
        let key = key_of_prefix(&text, n);
        let ghost before = parts@;
        assert(views(before).len() == before.len());
        assert(head(s@, windows).len() > 0);
        parts.set(0, key);
        assert(views(parts@) =~= views(before).update(0, key@));
    }
    parts
}

/// Whether the first components are those of `prefix`.
pub fn has_component_prefix(path: &Vec<String>, prefix: &Vec<String>) -> (r: bool)
    ensures
        r == views(prefix@).is_prefix_of(views(path@)),
{
    if prefix.len() > path.len() {
        return false;
    }
    let mut i: usize = 0;
    while i < prefix.len()
        invariant
            i <= prefix@.len() <= path@.len(),
            forall|j: int| 0 <= j < i ==> views(prefix@)[j] == views(path@)[j],
        decreases prefix@.len() - i,
    {
        if !str_eq(prefix[i].as_str(), path[i].as_str()) {
            assert(views(prefix@)[i as int] != views(path@).take(prefix@.len() as int)[i as int]);
            return false;
        }
        i = i + 1;
    }
    assert(views(prefix@) =~= views(path@).take(prefix@.len() as int));
    true
}

/// Whether two texts are the same path.
pub fn paths_equal(a: &str, b: &str, windows: bool) -> (r: bool)
    ensures
        r == same_path(a@, b@, windows),
{
    let left = path_keys(a, windows);
    let right = path_keys(b, windows);
    assert(views(left@).len() == left@.len());
    assert(views(right@).len() == right@.len());
    assert(views(right@).take(right@.len() as int) =~= views(right@));
    left.len() == right.len() && has_component_prefix(&right, &left)
}

/// Whether a component behind the prefix is a name, and not the root, `.` or
/// `..`.
pub open spec fn is_name(c: Seq<char>, windows: bool) -> bool {
    c != seq![main_separator(windows)] && c != seq!['.'] && c != seq!['.', '.']
}

/// How many components the prefix of a path makes.
pub open spec fn prefix_parts(s: Seq<char>, windows: bool) -> int {
    if prefix_len(s, windows) > 0 {
        1
    } else {
        0
    }
}

/// The last component of a path, where it is a name.
pub open spec fn file_name(s: Seq<char>, windows: bool) -> Option<Seq<char>> {
    let c = components(s, windows);
    if c.len() > prefix_parts(s, windows) && is_name(c.last(), windows) {
        Some(c.last())
    } else {
        None
    }
}

/// The name of the directory that holds the last component.
pub open spec fn parent_name(s: Seq<char>, windows: bool) -> Option<Seq<char>> {
    let c = components(s, windows);
    if c.len() > prefix_parts(s, windows) + 1 && c.last() != seq![main_separator(windows)]
        && is_name(c[c.len() - 2], windows) {
        Some(c[c.len() - 2])
    } else {
        None
    }
}

/// Whether a path is a root of the file system, or a drive, a share or a device
/// with nothing behind it.
pub open spec fn is_root(s: Seq<char>, windows: bool) -> bool {
    head(s, windows).len() > 0 && components(s, windows) == head(s, windows)
}

/// The position of the last `.` in `s`, or -1.
pub open spec fn last_dot(s: Seq<char>) -> int
    decreases s.len(),
{
    if s.len() == 0 {
        -1
    } else if s.last() == '.' {
        s.len() - 1
    } else {
        last_dot(s.drop_last())
    }
}

/// What follows the last `.` of a file name, where something precedes it.
pub open spec fn name_extension(name: Seq<char>) -> Option<Seq<char>> {
    if last_dot(name) > 0 {
        Some(name.skip(last_dot(name) + 1))
    } else {
        None
    }
}

/// The extension of a path's file name.
pub open spec fn extension(s: Seq<char>, windows: bool) -> Option<Seq<char>> {
    match file_name(s, windows) {
        Some(name) => name_extension(name),
        None => None,
    }
}

/// The view of an optional string.
pub open spec fn opt_view(s: Option<String>) -> Option<Seq<char>> {
    match s {
        Some(t) => Some(t@),
        None => None,
    }
}

fn component_is_name(c: &str, windows: bool) -> (r: bool)
    ensures
        r == is_name(c@, windows),
{
    proof {
        reveal_strlit(".");
        reveal_strlit("..");
        assert("."@ =~= seq!['.']);
        assert(".."@ =~= seq!['.', '.']);
    }
    let root = text_of(written_separator(windows));
    !str_eq(c, root.as_str()) && !str_eq(c, ".") && !str_eq(c, "..")
}

fn has_prefix(s: &str, windows: bool) -> (r: bool)
    ensures
        r == (prefix_len(s@, windows) > 0),
{
    let text = chars_of(s);
    prefix_end(&text, windows) > 0
}

/// The last component of a path, where it is a name.
pub fn path_file_name(s: &str, windows: bool) -> (r: Option<String>)
    ensures
        opt_view(r) == file_name(s@, windows),
{
    let parts = path_components(s, windows);
    let n = parts.len();
    assert(views(parts@).len() == n);
    if n == 0 || n == 1 && has_prefix(s, windows) {
        return None;
    }
    assert(views(parts@).last() == parts@[n - 1]@);
    if component_is_name(parts[n - 1].as_str(), windows) {
        Some(parts[n - 1].clone())
    } else {
        None
    }
}

/// The name of the directory that holds the last component.
pub fn path_parent_name(s: &str, windows: bool) -> (r: Option<String>)
    ensures
        opt_view(r) == parent_name(s@, windows),
{
    let parts = path_components(s, windows);
    let n = parts.len();
    assert(views(parts@).len() == n);
    if n < 2 || n == 2 && has_prefix(s, windows) {
        return None;
    }
    proof {
        assert(views(parts@)[n - 1] == parts@[n - 1]@);
        assert(views(parts@)[n - 2] == parts@[n - 2]@);
    }
    let root = text_of(written_separator(windows));
    if !str_eq(parts[n - 1].as_str(), root.as_str()) && component_is_name(
        parts[n - 2].as_str(),
        windows,
    ) {
        Some(parts[n - 2].clone())
    } else {
        None
    }
}

/// The extension of a path's file name.
pub fn path_extension(s: &str, windows: bool) -> (r: Option<String>)
    ensures
        opt_view(r) == extension(s@, windows),
{
    let name = match path_file_name(s, windows) {
        Some(name) => name,
        None => return None,
    };
    let text = chars_of(name.as_str());
    let mut i: usize = text.len();
    assert(text@.take(i as int) == text@);
    while i > 0 && text[i - 1] != '.'
        invariant
            i <= text@.len(),
            last_dot(text@) == last_dot(text@.take(i as int)),
        decreases i,
    {
        assert(text@.take(i as int).drop_last() == text@.take(i - 1));
        i = i - 1;
    }
    proof {
        if i > 0 {
            assert(text@.take(i as int).last() == '.');
            assert(text@.skip(i as int) == text@.subrange(i as int, text@.len() as int));
        }
    }
    if i > 1 {
        Some(string_of(&text, i, text.len()))
    } else {
        None
    }
}

/// Components written in a row: a separator follows each but the root.
pub open spec fn written(parts: Seq<Seq<char>>, windows: bool) -> Seq<char>
    decreases parts.len(),
{
    if parts.len() == 0 {
        seq![]
    } else {
        let before = parts.drop_last();
        let root = seq![main_separator(windows)];
        if before.len() == 0 || before.last() == root || parts.last() == root {
            written(before, windows) + parts.last()
        } else {
            written(before, windows).push(main_separator(windows)) + parts.last()
        }
    }
}

/// The components of a verbatim path once it is extended by `c`: a root leads
/// back to the prefix, and `..` to the folder above.
pub open spec fn extended(parts: Seq<Seq<char>>, c: Seq<char>) -> Seq<Seq<char>> {
    if c == seq!['\\'] {
        if parts.len() > 1 {
            parts.take(1).push(c)
        } else {
            parts.push(c)
        }
    } else if c == seq!['.'] {
        parts
    } else if c == seq!['.', '.'] {
        if parts.len() > 1 && is_name(parts.last(), true) {
            parts.drop_last()
        } else {
            parts
        }
    } else {
        parts.push(c)
    }
}

/// The components of a verbatim path once it is extended by all of `more`.
pub open spec fn extended_by(parts: Seq<Seq<char>>, more: Seq<Seq<char>>) -> Seq<Seq<char>>
    decreases more.len(),
{
    if more.len() == 0 {
        parts
    } else {
        extended(extended_by(parts, more.drop_last()), more.last())
    }
}

/// `base` extended by `sub`. An absolute `sub` takes its place; on Windows, one
/// with a prefix does, and one with a root alone leaves only the prefix. A
/// verbatim path is written anew.
pub open spec fn joined_path(base: Seq<char>, sub: Seq<char>, windows: bool) -> Seq<char> {
    if prefix_len(sub, windows) > 0 {
        sub
    } else if windows && is_verbatim(base) && sub.len() > 0 {
        written(extended_by(components(base, true), components(sub, true)), true)
    } else if has_written_root(sub, windows) {
        base.take(prefix_len(base, windows)) + sub
    } else if base.len() > 0 && !is_separator(base.last(), windows) && !(windows && base.len() == 2
        && starts_with_drive(base)) {
        base.push(main_separator(windows)) + sub
    } else {
        base + sub
    }
}

/// Components written in a row.
pub fn write_parts(parts: &Vec<String>, windows: bool) -> (r: String)
    ensures
        r@ == written(views(parts@), windows),
{
    let root = text_of(written_separator(windows));
    let ghost all = views(parts@);
    let mut out = String::new();
    let mut i: usize = 0;
    assert(all.take(0) =~= Seq::<Seq<char>>::empty());
    while i < parts.len()
        invariant
            i <= parts@.len(),
            all == views(parts@),
            root@ == seq![main_separator(windows)],
            out@ == written(all.take(i as int), windows),
        decreases parts@.len() - i,
    {
        proof {
            assert(all.take(i + 1).drop_last() =~= all.take(i as int));
            assert(all.take(i + 1).last() == parts@[i as int]@);
            if i > 0 {
                assert(all.take(i as int).last() == parts@[i - 1]@);
            }
        }
        if i > 0 && !str_eq(parts[i - 1].as_str(), root.as_str()) && !str_eq(
            parts[i].as_str(),
            root.as_str(),
        ) {
            out.push(written_separator(windows));
        }
        out.append(parts[i].as_str());
        i = i + 1;
    }
    assert(all.take(all.len() as int) =~= all);
    out
}

fn extend_by(parts: Vec<String>, more: &Vec<String>) -> (r: Vec<String>)
    ensures
        views(r@) == extended_by(views(parts@), views(more@)),
{
    proof {
        reveal_strlit("\\");
        reveal_strlit(".");
        reveal_strlit("..");
        assert("\\"@ =~= seq!['\\']);
        assert("."@ =~= seq!['.']);
        assert(".."@ =~= seq!['.', '.']);
    }
    let ghost first = views(parts@);
    let ghost all = views(more@);
    let mut out = parts;
    let mut i: usize = 0;
    assert(all.take(0) =~= Seq::<Seq<char>>::empty());
    while i < more.len()
        invariant
            i <= more@.len(),
            all == views(more@),
            "\\"@ == seq!['\\'],
            "."@ == seq!['.'],
            ".."@ == seq!['.', '.'],
            views(out@) == extended_by(first, all.take(i as int)),
        decreases more@.len() - i,
    {
        let ghost before = out@;
        let c = more[i].as_str();
        proof {
            assert(all.take(i + 1).drop_last() =~= all.take(i as int));
            assert(all.take(i + 1).last() == c@);
            assert(views(before).len() == before.len());
        }
        if str_eq(c, "\\") {
            out.truncate(1);
            let ghost short = out@;
            assert(views(short) =~= if before.len() > 1 {
                views(before).take(1)
            } else {
                views(before)
            });
            out.push(more[i].clone());
            assert(views(out@) =~= views(short).push(c@));
        } else if str_eq(c, ".") {
        } else if str_eq(c, "..") {
            let n = out.len();
            if n > 1 {
                assert(views(before).last() == before[n - 1]@);
                if component_is_name(out[n - 1].as_str(), true) {
                    let _ = out.pop();
                    assert(views(out@) =~= views(before).drop_last());
                }
            }
        } else {
            out.push(more[i].clone());
            assert(views(out@) =~= views(before).push(c@));
        }
        i = i + 1;
    }
    assert(all.take(all.len() as int) =~= all);
    out
}

/// `base` extended by `sub`.
pub fn join_path(base: &str, sub: &str, windows: bool) -> (r: String)
    ensures
        r@ == joined_path(base@, sub@, windows),
{
    let text = chars_of(base);
    let tail = chars_of(sub);
    if prefix_end(&tail, windows) > 0 {
        return sub.to_owned();
    }
    if windows && verbatim(&text) && tail.len() > 0 {
        let parts = path_components(base, true);
        let more = path_components(sub, true);
        let parts = extend_by(parts, &more);
        return write_parts(&parts, true);
    }
    if tail.len() > 0 && separates(tail[0], windows) {
        let n = prefix_end(&text, windows);
        let mut out = string_of(&text, 0, n);
        assert(text@.subrange(0, n as int) =~= text@.take(n as int));
        out.append(sub);
        return out;
    }
    let mut out = base.to_owned();
    assert(text@.skip(0) =~= text@);
    if text.len() > 0 && !separates(text[text.len() - 1], windows) && !(windows && text.len() == 2
        && drive_at(&text, 0)) {
        out.push(written_separator(windows));
    }
    out.append(sub);
    out
}

proof fn lemma_piece_end(s: Seq<char>, n: int, from: int, verbatim: bool)
    requires
        0 <= from <= n <= s.len(),
    ensures
        from <= piece_end(s, from, verbatim) <= s.len(),
        piece_end(s.take(n), from, verbatim) == if piece_end(s, from, verbatim) < n {
            piece_end(s, from, verbatim)
        } else {
            n
        },
    decreases s.len() - from,
{
    if from < n {
        assert(s.take(n)[from] == s[from]);
        if !(s[from] == '\\' || !verbatim && s[from] == '/') {
            lemma_piece_end(s, n, from + 1, verbatim);
        }
    } else {
        lemma_piece_end_bound(s, from, verbatim);
    }
}

proof fn lemma_piece_end_bound(s: Seq<char>, from: int, verbatim: bool)
    requires
        0 <= from <= s.len(),
    ensures
        from <= piece_end(s, from, verbatim) <= s.len(),
        forall|i: int|
            from <= i < piece_end(s, from, verbatim) ==> s[i] != '\\' && (verbatim || s[i] != '/'),
        piece_end(s, from, verbatim) < s.len() ==> is_separator(
            s[piece_end(s, from, verbatim)],
            true,
        ),
    decreases s.len() - from,
{
    if from < s.len() && !(s[from] == '\\' || !verbatim && s[from] == '/') {
        lemma_piece_end_bound(s, from + 1, verbatim);
    }
}

/// The prefix of a verbatim path holds at least what makes it one.
pub proof fn lemma_verbatim_prefix(s: Seq<char>)
    requires
        is_verbatim(s),
    ensures
        4 <= prefix_len(s, true) <= s.len(),
{
    lemma_piece_end_bound(s, 4, true);
    if is_verbatim_share(s) {
        lemma_piece_end_bound(s, 8, true);
        let server = piece_end(s, 8, true);
        if server < s.len() {
            lemma_piece_end_bound(s, server + 1, true);
        }
    }
}

/// A part of a path that holds its prefix has that prefix.
pub proof fn lemma_same_prefix(s: Seq<char>, n: int, windows: bool)
    requires
        prefix_len(s, windows) <= n <= s.len(),
        0 <= n,
    ensures
        0 <= prefix_len(s, windows),
        prefix_len(s.take(n), windows) == prefix_len(s, windows),
        prefix_len(s, windows) > 0 ==> prefix_key(s.take(n)) == prefix_key(s),
{
    if windows {
        let t = s.take(n);
        assert forall|i: int| 0 <= i < n implies t[i] == s[i] by {}
        if s.len() >= 4 {
            lemma_piece_end_bound(s, 4, true);
            lemma_piece_end_bound(s, 4, false);
            assert(starts_with_drive(s.skip(4)) ==> s.len() >= 6 && s.skip(4)[0] == s[4]
                && s.skip(4)[1] == s[5]);
            if s.len() >= 6 {
                assert(s.skip(4)[0] == s[4] && s.skip(4)[1] == s[5]);
            }
        }
        if n >= 4 {
            lemma_piece_end(s, n, 4, true);
            lemma_piece_end(s, n, 4, false);
            if n >= 6 {
                assert(t.skip(4)[0] == s[4] && t.skip(4)[1] == s[5]);
            }
        }
        if s.len() >= 8 {
            lemma_piece_end_bound(s, 8, true);
            let server = piece_end(s, 8, true);
            if server < s.len() {
                lemma_piece_end_bound(s, server + 1, true);
            }
            if n >= 8 {
                lemma_piece_end(s, n, 8, true);
                if server < n {
                    lemma_piece_end(s, n, server + 1, true);
                }
            }
        }
        if s.len() >= 2 {
            lemma_piece_end_bound(s, 2, false);
            let server = piece_end(s, 2, false);
            if server < s.len() {
                lemma_piece_end_bound(s, server + 1, false);
            }
            if n >= 2 {
                lemma_piece_end(s, n, 2, false);
                if server < n {
                    lemma_piece_end(s, n, server + 1, false);
                }
            }
        }
        let len = prefix_len(s, true);
        assert(prefix_len(t, true) == len);
        assert(t.take(len) =~= s.take(len));
    }
}

/// Paths are separated by slashes, and on Windows by backslashes too. What is written is a
/// backslash on Windows and a slash elsewhere.
pub proof fn law_what_separates_paths(c: char, windows: bool)
    ensures
        is_separator('/', windows),
        is_separator('\\', true),
        !is_separator('\\', false),
        c != '/' && c != '\\' ==> !is_separator(c, windows),
        main_separator(true) == '\\',
        main_separator(false) == '/',
{
}

/// Only on Windows does a path start with a drive or a share. A drive is a letter and a
/// colon.
pub proof fn law_what_drives_look_like(s: Seq<char>)
    ensures
        prefix_len(s, false) == 0,
        s.len() >= 2 && ('a' <= s[0] <= 'z' || 'A' <= s[0] <= 'Z') && s[1] == ':' ==> prefix_len(
            s,
            true,
        ) == 2,
        s.len() >= 1 && !is_separator(s[0], true) && prefix_len(s, true) > 0 ==> s.len() >= 2 && s[1]
            == ':' && ('a' <= s[0] <= 'z' || 'A' <= s[0] <= 'Z'),
        s.len() < 2 ==> prefix_len(s, true) == 0,
        s.len() >= 2 && is_separator(s[0], true) && !is_separator(s[1], true) ==> prefix_len(
            s,
            true,
        ) == 0,
{
}

proof fn lemma_piece_end_at(s: Seq<char>, from: int, to: int, verbatim: bool)
    requires
        0 <= from <= to <= s.len(),
        forall|k: int|
            from <= k < to ==> #[trigger] s[k] != '\\' && (verbatim || s[k] != '/'),
        to < s.len() ==> s[to] == '\\' || !verbatim && s[to] == '/',
    ensures
        piece_end(s, from, verbatim) == to,
    decreases to - from,
{
    if from < to {
        lemma_piece_end_at(s, from + 1, to, verbatim);
    }
}

/// A share on Windows is named by its server and by its own name behind it, and all of
/// that is where the path starts.
pub proof fn law_what_shares_look_like(server: Seq<char>, share: Seq<char>, rest: Seq<char>)
    requires
        server.len() > 1,
        share.len() > 0,
        forall|k: int| 0 <= k < server.len() ==> !is_separator(#[trigger] server[k], true),
        forall|k: int| 0 <= k < share.len() ==> !is_separator(#[trigger] share[k], true),
        rest.len() > 0 ==> is_separator(rest[0], true),
    ensures
        ({
            let s = seq!['\\', '\\'] + server + seq!['\\'] + share + rest;
            &&& prefix_len(s, true) == 2 + server.len() + 1 + share.len()
            &&& has_root(s, true)
        }),
{
    let s = seq!['\\', '\\'] + server + seq!['\\'] + share + rest;
    let a = 2 + server.len() as int;
    let b = a + 1 + share.len();
    assert(s[0] == '\\' && s[1] == '\\');
    assert(s[2] == server[0]);
    assert(s[3] == server[1]);
    assert forall|k: int| 2 <= k < a implies #[trigger] s[k] != '\\' && (false || s[k] != '/') by {
        assert(s[k] == server[k - 2]);
    }
    assert(s[a] == '\\');
    assert forall|k: int| a + 1 <= k < b implies #[trigger] s[k] != '\\' && (false || s[k]
        != '/') by {
        assert(s[k] == share[k - a - 1]);
    }
    if b < s.len() {
        assert(s[b] == rest[0]);
    }
    lemma_piece_end_at(s, 2, a, false);
    lemma_piece_end_at(s, a + 1, b, false);
    assert(!is_verbatim(s));
}

/// Elsewhere than on Windows a path has a root exactly if it starts with a slash, and on
/// Windows a path on a drive has one exactly if a separator follows the drive.
pub proof fn law_which_paths_have_a_root(s: Seq<char>)
    ensures
        has_root(s, false) <==> s.len() > 0 && s[0] == '/',
        has_root(s, false) ==> head(s, false) == seq![seq!['/']],
        !has_root(s, false) ==> head(s, false).len() == 0,
        starts_with_drive(s) ==> (has_root(s, true) <==> s.len() > 2 && (s[2] == '\\' || s[2]
            == '/')),
        starts_with_drive(s) ==> head(s, true).len() == if has_root(s, true) {
            2nat
        } else {
            1nat
        },
        starts_with_drive(s) ==> head(s, true)[0] == s.take(2),
{
    if has_root(s, false) {
        assert(head(s, false) =~= seq![seq!['/']]);
    }
}

proof fn lemma_kept_filter(a: Seq<Seq<char>>, b: Seq<Seq<char>>)
    ensures
        (a + b).filter(|p: Seq<char>| is_kept(p, false)) == a.filter(
            |p: Seq<char>| is_kept(p, false),
        ) + b.filter(|p: Seq<char>| is_kept(p, false)),
{
    Seq::filter_distributes_over_add(a, b, |p: Seq<char>| is_kept(p, false));
}

/// A name behind a path is one more part of it, and a slash at the end adds nothing.
pub proof fn law_names_are_parts(a: Seq<char>, name: Seq<char>)
    requires
        a.len() > 0,
        !name.contains('/'),
    ensures
        name.len() > 0 && name != seq!['.'] ==> components(a.push('/') + name, false)
            == components(a, false).push(name),
        components(a.push('/'), false) == components(a, false),
    decreases name.len(),
{
    let all = a.push('/') + name;
    let kept = |p: Seq<char>| is_kept(p, false);
    assert(all[0] == a[0]);
    let start = body_start(a, false);
    assert(body_start(all, false) == start);
    assert(all.skip(start) =~= a.skip(start).push('/') + name);
    law_pieces_of_two_texts(a.skip(start), name, '/');
    law_pieces_of_two_texts(name, seq![], '/');
    law_pieces_make_the_text(a.skip(start), '/');
    assert(body_pieces(all, false) == body_pieces(a, false) + seq![name]);
    assert(body_pieces(all, false)[0] == body_pieces(a, false)[0]);
    assert(head(all, false) == head(a, false));
    assert(leading_dot(all, false) == leading_dot(a, false));
    let one = seq![name];
    Seq::filter_distributes_over_add(
        body_pieces(a, false),
        one,
        |p: Seq<char>| is_kept(p, false && is_verbatim(all)),
    );
    assert(components(all, false) =~= components(a, false) + one.filter(kept)) by {
        lemma_same_filter(body_pieces(all, false), is_verbatim(all));
        lemma_same_filter(body_pieces(a, false), is_verbatim(a));
        lemma_kept_filter(body_pieces(a, false), one);
    }
    reveal(Seq::filter);
    assert(one.drop_last() =~= seq![]);
    assert(one.last() == name);
    if name.len() > 0 && name != seq!['.'] {
        assert(one.filter(kept) =~= one);
        assert(components(all, false) =~= components(a, false).push(name));
    }
    if name.len() == 0 {
        assert(all =~= a.push('/'));
        assert(one.filter(kept) =~= seq![]);
        assert(components(all, false) =~= components(a, false));
    } else {
        law_names_are_parts(a, seq![]);
    }
}

proof fn lemma_same_filter(pieces: Seq<Seq<char>>, verbatim: bool)
    ensures
        pieces.filter(|p: Seq<char>| is_kept(p, false && verbatim)) == pieces.filter(
            |p: Seq<char>| is_kept(p, false),
        ),
    decreases pieces.len(),
{
    reveal(Seq::filter);
    if pieces.len() > 0 {
        lemma_same_filter(pieces.drop_last(), verbatim);
    }
}

/// The name of a file in a folder is the name that it was given there, and the folder that
/// it lies in is named as the folder is.
pub proof fn law_files_have_their_names(dir: Seq<char>, name: Seq<char>)
    requires
        dir.len() > 0,
        name.len() > 0,
        !name.contains('/'),
        name != seq!['.'],
        name != seq!['.', '.'],
    ensures
        file_name(dir.push('/') + name, false) == Some(name),
        file_name(dir.push('/'), false) == file_name(dir, false),
        parent_name(dir.push('/') + name, false) == file_name(dir, false),
        !dir.contains('/') && dir != seq!['.'] && dir != seq!['.', '.'] ==> file_name(dir, false)
            == Some(dir),
{
    law_names_are_parts(dir, name);
    let c = components(dir.push('/') + name, false);
    let d = components(dir, false);
    assert(c.last() == name);
    assert(name != seq!['/']) by {
        if name == seq!['/'] {
            assert(name[0] == '/');
            assert(name.contains('/'));
        }
    }
    if d.len() > 0 {
        assert(c[c.len() - 2] == d.last());
    }
    if !dir.contains('/') && dir != seq!['.'] && dir != seq!['.', '.'] {
        assert(dir[0] != '/') by {
            assert(dir.contains(dir[0]));
        }
        assert(dir != seq!['/']) by {
            if dir == seq!['/'] {
                assert(dir[0] == '/');
            }
        }
        assert(dir.skip(0) =~= dir);
        law_pieces_of_two_texts(dir, seq![], '/');
        assert(body_pieces(dir, false) == seq![dir]);
        let one = seq![dir];
        lemma_same_filter(one, is_verbatim(dir));
        reveal(Seq::filter);
        assert(one.drop_last() =~= seq![]);
        assert(one.last() == dir);
        assert(one.filter(|p: Seq<char>| is_kept(p, false)) =~= one);
        assert(leading_dot(dir, false).len() == 0);
        assert(head(dir, false).len() == 0);
        assert(d =~= one);
    }
}

/// The extension of a name is what follows its last dot, unless the name starts with that
/// dot or has none.
pub proof fn law_what_follows_the_last_dot(stem: Seq<char>, ext: Seq<char>)
    requires
        !ext.contains('.'),
    ensures
        stem.len() > 0 ==> name_extension(stem.push('.') + ext) == Some(ext),
        name_extension(seq!['.'] + ext) is None,
        name_extension(ext) is None,
{
    lemma_last_dot(stem.push('.') + ext, stem.len() as int);
    assert((stem.push('.') + ext).skip(stem.len() + 1int) =~= ext);
    lemma_last_dot(seq!['.'] + ext, 0);
    lemma_last_dot(ext, -1);
}

proof fn lemma_last_dot(s: Seq<char>, n: int)
    requires
        -1 <= n < s.len(),
        n >= 0 ==> s[n] == '.',
        !s.skip(n + 1).contains('.'),
    ensures
        last_dot(s) == n,
    decreases s.len(),
{
    if s.len() > 0 {
        let rest = s.skip(n + 1);
        if n == s.len() - 1 {
        } else {
            assert(s.last() != '.') by {
                assert(rest[s.len() - n - 2] == s.last());
                assert(rest.contains(rest[s.len() - n - 2]));
            }
            let init = s.drop_last();
            let shorter = init.skip(n + 1);
            assert(!shorter.contains('.')) by {
                if shorter.contains('.') {
                    let k = choose|k: int| 0 <= k < shorter.len() && shorter[k] == '.';
                    assert(rest[k] == '.');
                    assert(rest.contains(rest[k]));
                }
            }
            lemma_last_dot(init, n);
        }
    }
}

/// A path that starts at the root replaces what it is joined to. Any other is written
/// behind it, with a separator between the two where none is.
pub proof fn law_how_paths_are_joined(base: Seq<char>, sub: Seq<char>)
    ensures
        sub.len() > 0 && sub[0] == '/' ==> joined_path(base, sub, false) == sub,
        sub.len() == 0 || sub[0] != '/' ==> {
            &&& base.len() == 0 ==> joined_path(base, sub, false) == sub
            &&& base.len() > 0 && base.last() == '/' ==> joined_path(base, sub, false) == base + sub
            &&& base.len() > 0 && base.last() != '/' ==> joined_path(base, sub, false)
                == base.push('/') + sub
        },
        prefix_len(sub, true) > 0 ==> joined_path(base, sub, true) == sub,
        prefix_len(sub, true) == 0 && !is_verbatim(base) && (sub.len() == 0 || !is_separator(
            sub[0],
            true,
        )) ==> {
            &&& base.len() == 0 ==> joined_path(base, sub, true) == sub
            &&& base.len() > 0 && is_separator(base.last(), true) ==> joined_path(base, sub, true)
                == base + sub
            &&& base.len() == 2 && starts_with_drive(base) ==> joined_path(base, sub, true) == base
                + sub
            &&& base.len() > 0 && !is_separator(base.last(), true) && !(base.len() == 2
                && starts_with_drive(base)) ==> joined_path(base, sub, true) == base.push('\\')
                + sub
        },
        prefix_len(sub, true) == 0 && !is_verbatim(base) && sub.len() > 0 && is_separator(
            sub[0],
            true,
        ) ==> joined_path(base, sub, true) == base.take(prefix_len(base, true)) + sub,
{
    assert(base.take(0) + sub =~= sub);
    if base.len() == 0 {
        assert(base + sub =~= sub);
    }
}

/// On Windows a drive is the same whether its letter is small or large.
pub proof fn law_drive_letters_have_no_case(lower: char, upper: char, rest: Seq<char>)
    requires
        'a' <= lower <= 'z',
        upper as int == lower as int - 32,
    ensures
        same_path(seq![lower, ':'] + rest, seq![upper, ':'] + rest, true),
{
    let a = seq![lower, ':'] + rest;
    let b = seq![upper, ':'] + rest;
    assert('A' <= upper <= 'Z');
    assert(a[0] == lower && a[1] == ':' && b[0] == upper && b[1] == ':');
    assert(prefix_len(a, true) == 2 && prefix_len(b, true) == 2);
    if a.len() > 2 {
        assert(a[2] == b[2]);
    }
    assert(body_start(a, true) == body_start(b, true));
    assert(a.skip(body_start(a, true)) =~= b.skip(body_start(b, true)));
    assert(body_pieces(a, true) == body_pieces(b, true));
    let ka = components(a, true).update(0, prefix_key(a));
    let kb = components(b, true).update(0, prefix_key(b));
    assert(!is_verbatim(a) && !is_verbatim(b));
    assert(upper_letter(lower) == upper);
    assert(upper_letter(upper) == upper);
    assert(prefix_key(a) =~= prefix_key(b));
    assert(head(a, true).len() == head(b, true).len());
    lemma_filter_of_flag(body_pieces(a, true), true && is_verbatim(a), true && is_verbatim(b));
    assert(components(a, true).len() == components(b, true).len());
    assert(leading_dot(a, true).len() == 0 && leading_dot(b, true).len() == 0);
    assert(ka =~= kb);
}

proof fn lemma_filter_of_flag(pieces: Seq<Seq<char>>, a: bool, b: bool)
    requires
        a == b,
    ensures
        pieces.filter(|p: Seq<char>| is_kept(p, a)) == pieces.filter(|p: Seq<char>| is_kept(p, b)),
{
}

/// Where a path is taken literally, what is joined to it is worked off part by part: a
/// name is added, staying in place adds nothing, and stepping out takes the last name
/// off again but never what the path starts with.
pub proof fn law_literal_paths_are_worked_off(parts: Seq<Seq<char>>, name: Seq<char>)
    requires
        name != seq!['\\'],
        name != seq!['.'],
        name != seq!['.', '.'],
    ensures
        extended(parts, name) == parts.push(name),
        extended(parts, seq!['.']) == parts,
        parts.len() > 0 ==> extended(extended(parts, name), seq!['.', '.']) == parts,
        parts.len() <= 1 ==> extended(parts, seq!['.', '.']) == parts,
        parts.len() > 1 ==> extended(parts, seq!['\\']) == seq![parts[0], seq!['\\']],
        extended_by(parts, seq![]) == parts,
{
    assert(seq!['.'].len() == 1 && seq!['.', '.'].len() == 2 && seq!['\\'].len() == 1);
    assert(seq!['.'][0] == '.' && seq!['\\'][0] == '\\');
    assert(parts.push(name).drop_last() =~= parts);
    if parts.len() > 1 {
        assert(parts.take(1).push(seq!['\\']) =~= seq![parts[0], seq!['\\']]);
    }
}

/// Parts are written with one separator between each two, except beside the root, which is
/// one itself.
pub proof fn law_how_parts_are_written(parts: Seq<Seq<char>>, name: Seq<char>, windows: bool)
    requires
        name != seq![main_separator(windows)],
    ensures
        written(seq![], windows) == Seq::<char>::empty(),
        written(seq![name], windows) == name,
        parts.len() > 0 && parts.last() != seq![main_separator(windows)] ==> written(
            parts.push(name),
            windows,
        ) == written(parts, windows).push(main_separator(windows)) + name,
        parts.len() > 0 && parts.last() == seq![main_separator(windows)] ==> written(
            parts.push(name),
            windows,
        ) == written(parts, windows) + name,
{
    assert(parts.push(name).drop_last() =~= parts);
    let one = seq![name];
    assert(one.drop_last() =~= seq![]);
    assert(written(one.drop_last(), windows) + one.last() =~= name);
}

} // verus!
