//! The folders of an instance, and the folders above them.
use vstd::prelude::*;

use crate::content::file::ProjectType;
use crate::names::NameSet;
use crate::paths::{
    body, body_pieces, body_start, components, extended_by, file_name, has_root, has_written_root,
    head, is_kept, is_root, is_separator, is_verbatim, join_path, joined_path, keys,
    lemma_same_prefix, lemma_verbatim_prefix, main_separator, path_components, path_file_name,
    path_front, prefix_len, starts_with_drive, under, written,
};
use crate::text::{
    chars_of, contains_char, first_index, lemma_first_index, lemma_first_index_unique, replaced,
    segments, string_of, views,
};

verus! {

/// The folders watched for an instance at `root`, and `root` itself last.
pub open spec fn watch_paths(root: Seq<char>, windows: bool) -> Seq<Seq<char>> {
    seq![
        joined_path(root, ProjectType::Mod.folder(), windows),
        joined_path(root, ProjectType::DataPack.folder(), windows),
        joined_path(root, ProjectType::ResourcePack.folder(), windows),
        joined_path(root, ProjectType::ShaderPack.folder(), windows),
        joined_path(root, ProjectType::World.folder(), windows),
        joined_path(root, "crash-reports"@, windows),
        root,
    ]
}

/// Every path that is watched for an instance, so that all of them can be
/// released again. The worlds are in a folder of their own kind of content, so
/// that no folder comes twice.
pub fn instance_watch_paths(full_instance_path: &str, windows: bool) -> (r: Vec<String>)
    ensures
        views(r@) == watch_paths(full_instance_path@, windows),
{
    let mut paths: Vec<String> = Vec::new();
    paths.push(join_path(full_instance_path, ProjectType::Mod.get_folder(), windows));
    paths.push(join_path(full_instance_path, ProjectType::DataPack.get_folder(), windows));
    paths.push(join_path(full_instance_path, ProjectType::ResourcePack.get_folder(), windows));
    paths.push(join_path(full_instance_path, ProjectType::ShaderPack.get_folder(), windows));
    paths.push(join_path(full_instance_path, ProjectType::World.get_folder(), windows));
    paths.push(join_path(full_instance_path, "crash-reports", windows));
    paths.push(full_instance_path.to_owned());
    assert(views(paths@) =~= watch_paths(full_instance_path@, windows));
    paths
}

/// Whether a text is a name that means the same on every system.
pub open spec fn is_plain_name(sub: Seq<char>) -> bool {
    &&& sub.len() > 0
    &&& forall|k: int|
        0 <= k < sub.len() ==> #[trigger] sub[k] != '/' && sub[k] != '\\' && sub[k] != ':' && sub[k]
            != '.'
}

/// What stands before a name that a path is extended by.
pub open spec fn base_for(root: Seq<char>, windows: bool) -> Seq<char> {
    if windows && is_verbatim(root) {
        let parts = components(root, true);
        if parts.len() > 0 && parts.last() != seq!['\\'] {
            written(parts, true).push('\\')
        } else {
            written(parts, true)
        }
    } else if root.len() > 0 && !is_separator(root.last(), windows) && !(windows && root.len() == 2
        && starts_with_drive(root)) {
        root.push(main_separator(windows))
    } else {
        root
    }
}

proof fn lemma_no_separator(s: Seq<char>, sep: char)
    requires
        !s.contains(sep),
    ensures
        segments(s, sep) == seq![s],
{
    lemma_first_index(s, sep);
    let n = first_index(s, sep);
    if n < s.len() {
        assert(s.contains(s[n]));
    }
}

proof fn lemma_plain_name_is_one_component(sub: Seq<char>)
    requires
        is_plain_name(sub),
    ensures
        prefix_len(sub, true) == 0,
        !has_written_root(sub, true),
        !has_written_root(sub, false),
        components(sub, true) == seq![sub],
{
    assert(sub[0] != '/' && sub[0] != '\\' && sub[0] != '.');
    if sub.len() >= 2 {
        assert(sub[1] != ':');
    }
    assert(body(sub, true) =~= sub) by {
        assert(sub.skip(0) =~= sub);
        assert(replaced(sub, '/', '\\') =~= sub);
    }
    lemma_no_separator(sub, '\\');
    let pieces = seq![sub];
    let keep = |p: Seq<char>| is_kept(p, true && is_verbatim(sub));
    assert(!is_verbatim(sub));
    assert(sub != seq!['.']) by {
        assert(seq!['.'][0] == '.');
    }
    assert(pieces.filter(keep) =~= pieces) by {
        reveal(Seq::filter);
        assert(pieces.drop_last() =~= Seq::<Seq<char>>::empty());
        assert(pieces.drop_last().filter(keep) =~= Seq::<Seq<char>>::empty());
    }
    assert(components(sub, true) =~= pieces);
}

/// A path is extended by a name at its end, and is another path then.
proof fn lemma_joined_name(root: Seq<char>, sub: Seq<char>, windows: bool)
    requires
        is_plain_name(sub),
    ensures
        joined_path(root, sub, windows) == base_for(root, windows) + sub,
        joined_path(root, sub, windows) != root,
{
    lemma_plain_name_is_one_component(sub);
    let all = joined_path(root, sub, windows);
    if windows && is_verbatim(root) {
        let parts = components(root, true);
        let more = seq![sub];
        assert(more.drop_last() =~= Seq::<Seq<char>>::empty());
        assert(sub[0] != '\\' && sub[0] != '.');
        assert(seq!['\\'][0] == '\\' && seq!['.'][0] == '.' && seq!['.', '.'][0] == '.');
        assert(extended_by(parts, more.drop_last()) == parts);
        assert(extended_by(parts, more) == parts.push(sub));
        let longer = parts.push(sub);
        assert(longer.drop_last() =~= parts);
        assert(longer.last() == sub);
        assert(written(seq![], true) =~= seq![]);
        assert(all =~= base_for(root, true) + sub);
        lemma_verbatim_paths_grow(root, sub);
    } else {
        assert(all.len() > root.len());
    }
}

proof fn lemma_segments_of_longer(s: Seq<char>, piece: Seq<char>, sep: char)
    requires
        !piece.contains(sep),
    ensures
        segments(s.push(sep) + piece, sep) == segments(s, sep).push(piece),
    decreases s.len(),
{
    let all = s.push(sep) + piece;
    lemma_first_index(s, sep);
    let n = first_index(s, sep);
    assert forall|j: int| 0 <= j < n implies all[j] != sep by {
        assert(all[j] == s[j]);
    }
    assert(all[n] == sep);
    lemma_first_index_unique(all, sep, n);
    assert(all.take(n) =~= s.take(n));
    if n < s.len() {
        assert(all.skip(n + 1) =~= s.skip(n + 1).push(sep) + piece);
        lemma_segments_of_longer(s.skip(n + 1), piece, sep);
        assert(segments(all, sep) =~= segments(s, sep).push(piece));
    } else {
        assert(s.take(n) =~= s);
        assert(all.skip(n + 1) =~= piece);
        lemma_no_separator(piece, sep);
        assert(segments(all, sep) =~= segments(s, sep).push(piece));
    }
}

proof fn lemma_segments_hold_no_separator(s: Seq<char>, sep: char)
    ensures
        forall|i: int|
            0 <= i < segments(s, sep).len() ==> !(#[trigger] segments(s, sep)[i]).contains(sep),
    decreases s.len(),
{
    lemma_first_index(s, sep);
    let n = first_index(s, sep);
    if n < s.len() {
        lemma_segments_hold_no_separator(s.skip(n + 1), sep);
        assert forall|i: int| 0 <= i < segments(s, sep).len() implies !(#[trigger] segments(
            s,
            sep,
        )[i]).contains(sep) by {
            if i > 0 {
                assert(segments(s, sep)[i] == segments(s.skip(n + 1), sep)[i - 1]);
            }
        }
    }
}

/// Whether these are pieces between separators, none of them empty.
spec fn are_pieces(parts: Seq<Seq<char>>) -> bool {
    forall|i: int|
        0 <= i < parts.len() ==> (#[trigger] parts[i]).len() > 0 && !parts[i].contains('\\')
}

proof fn lemma_written_pieces(parts: Seq<Seq<char>>)
    requires
        are_pieces(parts),
        parts.len() > 0,
    ensures
        segments(written(parts, true), '\\') == parts,
    decreases parts.len(),
{
    let last = parts.last();
    let before = parts.drop_last();
    assert(last == parts[parts.len() - 1]);
    assert(seq!['\\'].contains('\\')) by {
        assert(seq!['\\'][0] == '\\');
    }
    assert(written(seq![], true) =~= seq![]);
    if before.len() == 0 {
        assert(before =~= seq![]);
        assert(written(parts, true) =~= last);
        lemma_no_separator(last, '\\');
        assert(parts =~= seq![last]);
    } else {
        assert(before.last() == parts[parts.len() - 2]);
        assert forall|i: int| 0 <= i < before.len() implies (#[trigger] before[i]).len() > 0
            && !before[i].contains('\\') by {
            assert(before[i] == parts[i]);
        }
        lemma_written_pieces(before);
        lemma_segments_of_longer(written(before, true), last, '\\');
        assert(parts =~= before.push(last));
    }
}

/// What is written behind a prefix and a root are the pieces, and nothing else.
proof fn lemma_written_behind(prefix: Seq<char>, root: bool, parts: Seq<Seq<char>>)
    requires
        are_pieces(parts),
        prefix != seq!['\\'],
        parts.len() > 0,
    ensures
        ({
            let front = if root {
                seq![prefix, seq!['\\']]
            } else {
                seq![prefix]
            };
            written(front + parts, true) == prefix.push('\\') + written(parts, true)
        }),
    decreases parts.len(),
{
    let front = if root {
        seq![prefix, seq!['\\']]
    } else {
        seq![prefix]
    };
    let all = front + parts;
    let before = parts.drop_last();
    assert(all.drop_last() =~= front + before);
    assert(all.last() == parts.last());
    assert(parts.last() == parts[parts.len() - 1]);
    assert(seq!['\\'].contains('\\')) by {
        assert(seq!['\\'][0] == '\\');
    }
    assert(written(seq![], true) =~= seq![]);
    if before.len() == 0 {
        assert(before =~= seq![]);
        assert(front + before =~= front);
        assert(seq![prefix].drop_last() =~= seq![]);
        assert(written(seq![prefix], true) =~= prefix);
        if root {
            assert(front.drop_last() =~= seq![prefix]);
            assert(written(front, true) =~= prefix.push('\\'));
        }
        assert(written(parts, true) =~= parts.last());
        assert(written(all, true) =~= prefix.push('\\') + written(parts, true));
    } else {
        assert(before.last() == parts[parts.len() - 2]);
        assert((front + before).last() == before.last());
        assert forall|i: int| 0 <= i < before.len() implies (#[trigger] before[i]).len() > 0
            && !before[i].contains('\\') by {
            assert(before[i] == parts[i]);
        }
        lemma_written_behind(prefix, root, before);
        assert(written(all, true) =~= prefix.push('\\') + written(parts, true));
    }
}

proof fn lemma_nothing_is_dropped(parts: Seq<Seq<char>>)
    requires
        are_pieces(parts),
    ensures
        parts.filter(|p: Seq<char>| is_kept(p, true)) == parts,
    decreases parts.len(),
{
    reveal(Seq::filter);
    if parts.len() > 0 {
        let before = parts.drop_last();
        assert forall|i: int| 0 <= i < before.len() implies (#[trigger] before[i]).len() > 0
            && !before[i].contains('\\') by {
            assert(before[i] == parts[i]);
        }
        lemma_nothing_is_dropped(before);
        assert(parts.last() == parts[parts.len() - 1]);
        assert(parts =~= before.push(parts.last()));
    }
}

proof fn lemma_verbatim_paths_grow(root: Seq<char>, sub: Seq<char>)
    requires
        is_plain_name(sub),
        is_verbatim(root),
    ensures
        written(components(root, true).push(sub), true) != root,
{
    let n = prefix_len(root, true);
    lemma_verbatim_prefix(root);
    let prefix = root.take(n);
    assert(prefix.len() >= 4);
    let rooted = has_root(root, true);
    let front = head(root, true);
    let kept = body_pieces(root, true).filter(|p: Seq<char>| is_kept(p, true));
    assert(components(root, true) =~= front + kept);
    lemma_segments_hold_no_separator(body(root, true), '\\');
    assert forall|i: int| 0 <= i < kept.len() implies (#[trigger] kept[i]).len() > 0
        && !kept[i].contains('\\') by {
        body_pieces(root, true).lemma_filter_pred(|p: Seq<char>| is_kept(p, true), i);
        assert(kept.contains(kept[i]));
        body_pieces(root, true).lemma_filter_contains_rev(|p: Seq<char>| is_kept(p, true), kept[i]);
    }
    let longer = kept.push(sub);
    assert(are_pieces(longer)) by {
        assert forall|i: int| 0 <= i < longer.len() implies (#[trigger] longer[i]).len() > 0
            && !longer[i].contains('\\') by {
            if i < kept.len() {
                assert(longer[i] == kept[i]);
            }
        }
    }
    assert(front =~= if rooted {
        seq![prefix, seq!['\\']]
    } else {
        seq![prefix]
    });
    assert(components(root, true).push(sub) =~= front + longer);
    lemma_written_behind(prefix, rooted, longer);
    let rest = written(longer, true);
    lemma_written_pieces(longer);
    lemma_nothing_is_dropped(longer);
    let all = prefix.push('\\') + rest;
    if all == root {
        assert(root[n] == '\\');
        assert(root.skip(n + 1) =~= rest);
        assert(kept.len() == longer.len());
    }
}

/// No path is watched twice for an instance, and its root comes last, so that
/// watching and releasing go hand in hand.
pub proof fn law_watch_paths_are_distinct(root: Seq<char>, windows: bool)
    ensures
        watch_paths(root, windows).no_duplicates(),
        watch_paths(root, windows).last() == root,
{
    reveal_strlit("mods");
    reveal_strlit("datapacks");
    reveal_strlit("resourcepacks");
    reveal_strlit("shaderpacks");
    reveal_strlit("saves");
    reveal_strlit("crash-reports");
    let subs = seq![
        "mods"@,
        "datapacks"@,
        "resourcepacks"@,
        "shaderpacks"@,
        "saves"@,
        "crash-reports"@,
    ];
    assert("mods"@[0] == 'm' && "datapacks"@[0] == 'd' && "resourcepacks"@[0] == 'r'
        && "shaderpacks"@[1] == 'h' && "saves"@[1] == 'a' && "crash-reports"@[0] == 'c'
        && "shaderpacks"@[0] == 's' && "saves"@[0] == 's');
    assert forall|i: int| 0 <= i < 6 implies is_plain_name(#[trigger] subs[i]) by {
        let sub = subs[i];
        assert forall|k: int| 0 <= k < sub.len() implies sub[k] != '/' && sub[k] != '\\' && sub[k]
            != ':' && sub[k] != '.' by {}
    }
    let paths = watch_paths(root, windows);
    assert forall|i: int, j: int| 0 <= i < paths.len() && 0 <= j < paths.len() && i
        != j implies paths[i] != paths[j] by {
        if i < 6 {
            assert(paths[i] == joined_path(root, subs[i], windows));
            lemma_joined_name(root, subs[i], windows);
        }
        if j < 6 {
            assert(paths[j] == joined_path(root, subs[j], windows));
            lemma_joined_name(root, subs[j], windows);
        }
        if i < 6 && j < 6 {
            let base = base_for(root, windows);
            assert(subs[i] != subs[j]);
            assert(subs[i] =~= (base + subs[i]).skip(base.len() as int));
            assert(subs[j] =~= (base + subs[j]).skip(base.len() as int));
        }
    }
}

/// The least `n`, from `from` on, for which the first `n` characters of a path
/// have these components.
pub open spec fn prefix_with(
    s: Seq<char>,
    parts: Seq<Seq<char>>,
    from: int,
    windows: bool,
) -> Option<int>
    decreases s.len() + 1 - from,
{
    if from < 0 || from > s.len() {
        None
    } else if components(s.take(from), windows) == parts {
        Some(from)
    } else {
        prefix_with(s, parts, from + 1, windows)
    }
}

/// The path above `s`: the shortest part of `s` that lacks its last component and
/// keeps its prefix and root.
pub open spec fn parent(s: Seq<char>, windows: bool) -> Option<Seq<char>> {
    let c = components(s, windows);
    if c.len() <= head(s, windows).len() {
        None
    } else {
        match prefix_with(s, c.drop_last(), body_start(s, windows), windows) {
            Some(n) => Some(s.take(n)),
            None => None,
        }
    }
}

fn same_but_last(a: &Vec<String>, b: &Vec<String>) -> (r: bool)
    requires
        b@.len() > 0,
    ensures
        r == (views(a@) == views(b@).drop_last()),
{
    assert(views(a@).len() == a@.len());
    assert(views(b@).drop_last().len() == b@.len() - 1);
    if a.len() != b.len() - 1 {
        return false;
    }
    let mut i: usize = 0;
    while i < a.len()
        invariant
            i <= a@.len(),
            a@.len() == b@.len() - 1,
            forall|j: int| 0 <= j < i ==> views(a@)[j] == views(b@)[j],
        decreases a@.len() - i,
    {
        assert(views(a@)[i as int] == a@[i as int]@);
        assert(views(b@)[i as int] == b@[i as int]@);
        if a[i] != b[i] {
            assert(views(b@).drop_last()[i as int] == views(b@)[i as int]);
            return false;
        }
        i = i + 1;
    }
    assert(views(a@) =~= views(b@).drop_last());
    true
}

/// The path above `s`.
pub fn path_parent(s: &str, windows: bool) -> (r: Option<String>)
    ensures
        match r {
            Some(p) => parent(s@, windows) == Some(p@),
            None => parent(s@, windows) is None,
        },
{
    let parts = path_components(s, windows);
    let (start, front) = path_front(s, windows);
    assert(views(parts@).len() == parts@.len());
    if parts.len() <= front {
        return None;
    }
    let chars = chars_of(s);
    let ghost wanted = components(s@, windows).drop_last();
    let mut n: usize = start;
    loop
        invariant
            start <= n <= chars@.len(),
            chars@ == s@,
            start == body_start(s@, windows),
            parts@.len() > head(s@, windows).len(),
            views(parts@) == components(s@, windows),
            wanted == components(s@, windows).drop_last(),
            prefix_with(s@, wanted, start as int, windows) == prefix_with(
                s@,
                wanted,
                n as int,
                windows,
            ),
        decreases chars@.len() - n,
    {
        let start = string_of(&chars, 0, n);
        assert(start@ =~= s@.take(n as int));
        let found = path_components(start.as_str(), windows);
        if same_but_last(&found, &parts) {
            return Some(start);
        }
        if n == chars.len() {
            assert(prefix_with(s@, wanted, n + 1, windows) is None);
            return None;
        }
        n = n + 1;
    }
}

/// The folders above `s` that may be watched, the closest first. A root of the
/// file system is none, be it `/` or a drive or share of Windows, nor is anything
/// above one.
pub open spec fn ancestors(s: Seq<char>, windows: bool) -> Seq<Seq<char>>
    decreases s.len(),
{
    match parent(s, windows) {
        Some(p) => if p.len() < s.len() && file_name(p, windows) is Some {
            seq![p] + ancestors(p, windows)
        } else {
            seq![]
        },
        None => seq![],
    }
}

/// The folders above `path` that may be watched, the closest first.
pub fn watchable_ancestors(path: &str, windows: bool) -> (r: Vec<String>)
    ensures
        views(r@) == ancestors(path@, windows),
{
    let mut found: Vec<String> = Vec::new();
    let mut at = path.to_owned();
    loop
        invariant
            views(found@) + ancestors(at@, windows) == ancestors(path@, windows),
        decreases at@.len(),
    {
        let above = match path_parent(at.as_str(), windows) {
            Some(above) => above,
            None => {
                assert(views(found@) =~= ancestors(path@, windows));
                return found;
            },
        };
        if path_file_name(above.as_str(), windows).is_none() {
            assert(views(found@) =~= ancestors(path@, windows));
            return found;
        }
        let shorter = chars_of(above.as_str()).len() < chars_of(at.as_str()).len();
        if !shorter {
            assert(views(found@) =~= ancestors(path@, windows));
            return found;
        }
        let ghost before = found@;
        found.push(above.clone());
        proof {
            assert(views(found@) =~= views(before).push(above@));
            assert(views(found@) + ancestors(above@, windows) =~= views(before) + (seq![above@] + ancestors(
                above@,
                windows,
            )));
        }
        at = above;
    }
}

/// The first of `paths` that is in `directories`.
pub open spec fn first_in(paths: Seq<Seq<char>>, directories: Set<Seq<char>>) -> Option<Seq<char>>
    decreases paths.len(),
{
    if paths.len() == 0 {
        None
    } else if directories.contains(paths[0]) {
        Some(paths[0])
    } else {
        first_in(paths.drop_first(), directories)
    }
}

/// The closest folder above `path` that exists and may be watched. `directories`
/// are those of the folders above that exist.
pub fn nearest_existing_ancestor(path: &str, directories: &NameSet, windows: bool) -> (r: Option<
    String,
>)
    ensures
        match r {
            Some(p) => {
                &&& first_in(ancestors(path@, windows), directories@) == Some(p@)
                &&& !is_root(p@, windows)
            },
            None => first_in(ancestors(path@, windows), directories@) is None,
        },
{
    let candidates = watchable_ancestors(path, windows);
    let ghost all = views(candidates@);
    let mut n: usize = 0;
    assert(all.skip(0) =~= all);
    while n < candidates.len()
        invariant
            n <= candidates@.len(),
            all == views(candidates@),
            all == ancestors(path@, windows),
            first_in(all.skip(n as int), directories@) == first_in(all, directories@),
        decreases candidates@.len() - n,
    {
        assert(all.skip(n as int)[0] == candidates@[n as int]@);
        if directories.contains(candidates[n].as_str()) {
            proof {
                law_roots_are_never_watched(path@, n as int, windows);
            }
            return Some(candidates[n].clone());
        }
        assert(all.skip(n as int).drop_first() =~= all.skip(n + 1));
        n = n + 1;
    }
    None
}

/// A folder that may be watched for what appears below it is never a root of the
/// file system: neither `/` nor, on Windows, a drive or a share.
pub proof fn law_roots_are_never_watched(s: Seq<char>, i: int, windows: bool)
    requires
        0 <= i < ancestors(s, windows).len(),
    ensures
        file_name(ancestors(s, windows)[i], windows) is Some,
        !is_root(ancestors(s, windows)[i], windows),
    decreases s.len(),
{
    let p = parent(s, windows)->0;
    if i > 0 {
        law_roots_are_never_watched(p, i - 1, windows);
        assert(ancestors(s, windows)[i] == ancestors(p, windows)[i - 1]);
    } else if is_root(p, windows) {
        let front = head(p, windows);
        assert(front.len() > 1 ==> front.last() == seq![main_separator(windows)]);
    }
}

proof fn lemma_prefix_with(s: Seq<char>, parts: Seq<Seq<char>>, from: int, windows: bool)
    requires
        prefix_with(s, parts, from, windows) is Some,
    ensures
        from <= prefix_with(s, parts, from, windows)->0 <= s.len(),
        components(s.take(prefix_with(s, parts, from, windows)->0), windows) == parts,
    decreases s.len() + 1 - from,
{
    if components(s.take(from), windows) != parts {
        lemma_prefix_with(s, parts, from + 1, windows);
    }
}

/// The folders above a path that may be watched lie above it, each one level
/// further up than the one before.
pub proof fn law_ancestors_lie_above(s: Seq<char>, i: int, windows: bool)
    requires
        0 <= i < ancestors(s, windows).len(),
    ensures
        components(ancestors(s, windows)[i], windows).len() == components(s, windows).len() - 1 - i,
        under(s, ancestors(s, windows)[i], windows),
    decreases s.len(),
{
    let p = parent(s, windows)->0;
    let from = body_start(s, windows);
    lemma_same_prefix(s, s.len() as int, windows);
    lemma_prefix_with(s, components(s, windows).drop_last(), from, windows);
    let n = prefix_with(s, components(s, windows).drop_last(), from, windows)->0;
    lemma_same_prefix(s, n, windows);
    let k = keys(s, windows);
    assert(keys(p, windows) =~= k.drop_last());
    if i > 0 {
        law_ancestors_lie_above(p, i - 1, windows);
        assert(ancestors(s, windows)[i] == ancestors(p, windows)[i - 1]);
        let above = keys(ancestors(p, windows)[i - 1], windows);
        assert(above =~= k.take(above.len() as int));
    } else {
        assert(keys(p, windows) =~= k.take(k.len() - 1));
    }
}

/// What lies at the path of an instance.
#[derive(Clone, Copy, Debug, PartialEq, Eq, Structural)]
pub enum RootProbe {
    Missing,
    NotADirectory,
    Directory,
}

/// How an instance is watched.
#[derive(Clone, Copy, Debug, PartialEq, Eq, Structural)]
pub enum WatchRoute {
    /// It is not.
    Nothing,
    /// Its root is registered, and a folder above is watched until it appears.
    Pending,
    /// Its root is watched with everything below, unless it is already.
    Linked,
    /// Its folders are made and watched, and then its root alone.
    Managed,
}

/// How an instance is watched. `create_missing_dirs` is false for one whose
/// files belong to an external launcher: nothing is ever made there.
pub fn watch_route(probe: RootProbe, create_missing_dirs: bool) -> (r: WatchRoute)
    ensures
        r == match probe {
            RootProbe::Missing => if create_missing_dirs {
                WatchRoute::Nothing
            } else {
                WatchRoute::Pending
            },
            RootProbe::NotADirectory => WatchRoute::Nothing,
            RootProbe::Directory => if create_missing_dirs {
                WatchRoute::Managed
            } else {
                WatchRoute::Linked
            },
        },
{
    match probe {
        RootProbe::Missing => if create_missing_dirs {
            WatchRoute::Nothing
        } else {
            WatchRoute::Pending
        },
        RootProbe::NotADirectory => WatchRoute::Nothing,
        RootProbe::Directory => if create_missing_dirs {
            WatchRoute::Managed
        } else {
            WatchRoute::Linked
        },
    }
}

/// What went wrong while an instance was about to be watched.
#[derive(Clone, Copy, Debug, PartialEq, Eq, Structural)]
pub enum WatchFailure {
    /// A folder of a managed instance could not be made.
    FolderNotMade,
    /// A folder of a managed instance could not be watched.
    FolderNotWatched,
    /// The root of a managed instance could not be watched.
    RootNotWatched,
    /// A linked root could not be watched.
    LinkedRootNotWatched,
}

/// Whether an instance is registered although something went wrong: one whose
/// folders are not all there and watched is not.
pub fn registers_despite(failure: WatchFailure) -> (r: bool)
    ensures
        r == (failure == WatchFailure::RootNotWatched || failure
            == WatchFailure::LinkedRootNotWatched),
{
    match failure {
        WatchFailure::FolderNotMade | WatchFailure::FolderNotWatched => false,
        WatchFailure::RootNotWatched | WatchFailure::LinkedRootNotWatched => true,
    }
}

/// The folders of a managed instance that are watched with everything below.
pub fn managed_subfolders(full_instance_path: &str, windows: bool) -> (r: Vec<String>)
    ensures
        views(r@) == watch_paths(full_instance_path@, windows).drop_last(),
{
    let mut paths = instance_watch_paths(full_instance_path, windows);
    let ghost all = paths@;
    assert(views(all).len() == all.len());
    let _ = paths.pop();
    assert(views(paths@) =~= views(all).drop_last());
    paths
}

/// Whether a folder of a managed instance is made: nothing is there, not even a
/// dangling link, and its name is not that of a file.
pub fn makes_folder(full_path: &str, exists: bool, is_symlink: bool, windows: bool) -> (r: bool)
    ensures
        r == (!exists && !is_symlink && !(file_name(full_path@, windows) matches Some(name)
            && name.contains('.'))),
{
    let dotted = match path_file_name(full_path, windows) {
        Some(name) => contains_char(name.as_str(), '.'),
        None => false,
    };
    !exists && !is_symlink && !dotted
}

/// Of an instance its folders of mods, data packs, resource packs, shader packs, worlds
/// and crash reports are watched, and the folder that they lie in, and nothing else.
pub proof fn law_what_is_watched(root: Seq<char>, windows: bool)
    ensures
        watch_paths(root, windows).len() == 7,
        watch_paths(root, windows).contains(joined_path(root, "mods"@, windows)),
        watch_paths(root, windows).contains(joined_path(root, "datapacks"@, windows)),
        watch_paths(root, windows).contains(joined_path(root, "resourcepacks"@, windows)),
        watch_paths(root, windows).contains(joined_path(root, "shaderpacks"@, windows)),
        watch_paths(root, windows).contains(joined_path(root, "saves"@, windows)),
        watch_paths(root, windows).contains(joined_path(root, "crash-reports"@, windows)),
        watch_paths(root, windows).contains(root),
{
    let w = watch_paths(root, windows);
    assert(w.contains(w[0]));
    assert(w.contains(w[1]));
    assert(w.contains(w[2]));
    assert(w.contains(w[3]));
    assert(w.contains(w[4]));
    assert(w.contains(w[5]));
    assert(w.contains(w[6]));
}

/// Of several paths the first that is a directory is taken.
pub proof fn law_the_first_directory_is_taken(
    paths: Seq<Seq<char>>,
    directories: Set<Seq<char>>,
)
    ensures
        first_in(paths, directories) is None <==> forall|i: int|
            0 <= i < paths.len() ==> !directories.contains(#[trigger] paths[i]),
        first_in(paths, directories) is Some ==> exists|i: int|
            {
                &&& 0 <= i < paths.len()
                &&& #[trigger] paths[i] == first_in(paths, directories)->0
                &&& directories.contains(paths[i])
                &&& forall|j: int| 0 <= j < i ==> !directories.contains(#[trigger] paths[j])
            },
    decreases paths.len(),
{
    if paths.len() > 0 {
        if directories.contains(paths[0]) {
            assert(paths[0] == first_in(paths, directories)->0);
        } else {
            let rest = paths.drop_first();
            law_the_first_directory_is_taken(rest, directories);
            if first_in(rest, directories) is None {
                assert forall|i: int| 0 <= i < paths.len() implies !directories.contains(
                    #[trigger] paths[i],
                ) by {
                    if i > 0 {
                        assert(rest[i - 1] == paths[i]);
                    }
                }
            } else {
                let i = choose|i: int|
                    {
                        &&& 0 <= i < rest.len()
                        &&& #[trigger] rest[i] == first_in(rest, directories)->0
                        &&& directories.contains(rest[i])
                        &&& forall|j: int| 0 <= j < i ==> !directories.contains(#[trigger] rest[j])
                    };
                assert(paths[i + 1] == rest[i]);
                assert forall|j: int| 0 <= j < i + 1 implies !directories.contains(
                    #[trigger] paths[j],
                ) by {
                    if j > 0 {
                        assert(rest[j - 1] == paths[j]);
                    }
                }
            }
        }
    }
}

/// The folder above a path is what the path starts with, without its last part. What
/// stands at the top has none above it.
pub proof fn law_the_parent_lies_right_above(s: Seq<char>, windows: bool)
    ensures
        parent(s, windows) matches Some(p) ==> {
            &&& p.is_prefix_of(s)
            &&& p.len() < s.len()
            &&& components(p, windows) == components(s, windows).drop_last()
        },
        components(s, windows) == head(s, windows) ==> parent(s, windows) is None,
{
    let c = components(s, windows);
    if let Some(p) = parent(s, windows) {
        lemma_prefix_with(s, c.drop_last(), body_start(s, windows), windows);
        if p.len() == s.len() {
            assert(p =~= s);
            assert(c.len() == c.drop_last().len() + 1);
        }
    }
}

/// The folders above a path follow each other upwards: the first is right above the path,
/// the rest are those above it, and they end where a folder has no name.
pub proof fn law_folders_above_follow_each_other(s: Seq<char>, windows: bool)
    ensures
        match parent(s, windows) {
            Some(p) => if file_name(p, windows) is Some {
                ancestors(s, windows) == seq![p] + ancestors(p, windows)
            } else {
                ancestors(s, windows).len() == 0
            },
            None => ancestors(s, windows).len() == 0,
        },
{
    law_the_parent_lies_right_above(s, windows);
}

} // verus!
