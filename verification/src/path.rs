//! Paths as sequences of components.
//!
//! A path is text in which `/` separates segments. Its components are the
//! segments that name something: empty segments (repeated or trailing
//! separators) and `.` segments are passed over, except for a `.` that opens
//! the path; a leading `/` gives the root component.

use vstd::prelude::*;
use vstd::string::*;
use crate::text::{chars_of, same_text};

verus! {

/// The root component, `/`.
pub open spec fn root() -> Seq<char> {
    seq!['/']
}

/// The component `.`, the current directory.
pub open spec fn cur_dir() -> Seq<char> {
    seq!['.']
}

/// The component `..`, the parent directory.
pub open spec fn up_dir() -> Seq<char> {
    seq!['.', '.']
}

/// The views of a list of strings.
pub open spec fn names(list: Seq<String>) -> Seq<Seq<char>> {
    Seq::new(list.len(), |i: int| list[i]@)
}

/// The segments of `path`: the pieces between its separators, empty ones
/// included. A path without separator is its own single segment.
pub open spec fn segments(path: Seq<char>) -> Seq<Seq<char>>
    decreases path.len(),
{
    if path.len() == 0 {
        seq![Seq::empty()]
    } else {
        let before = segments(path.drop_last());
        if path.last() == '/' {
            before.push(Seq::empty())
        } else {
            before.drop_last().push(before.last().push(path.last()))
        }
    }
}

/// Whether the segment `segment`, which is the first of its path if `first`,
/// names a component.
pub open spec fn is_named(segment: Seq<char>, first: bool) -> bool {
    segment.len() > 0 && (segment != cur_dir() || first)
}

/// The segments among `segs` that name a component.
pub open spec fn named_segments(segs: Seq<Seq<char>>) -> Seq<Seq<char>>
    decreases segs.len(),
{
    if segs.len() == 0 {
        Seq::empty()
    } else if is_named(segs.last(), segs.len() == 1) {
        named_segments(segs.drop_last()).push(segs.last())
    } else {
        named_segments(segs.drop_last())
    }
}

/// Whether `path` starts at the root.
pub open spec fn is_absolute(path: Seq<char>) -> bool {
    path.len() > 0 && path[0] == '/'
}

/// The components of `path`, the root first where the path is absolute.
pub open spec fn components_of(path: Seq<char>) -> Seq<Seq<char>> {
    if is_absolute(path) {
        seq![root()] + named_segments(segments(path))
    } else {
        named_segments(segments(path))
    }
}

/// `parts` written with a separator between neighbours.
pub open spec fn joined(parts: Seq<Seq<char>>) -> Seq<char>
    decreases parts.len(),
{
    if parts.len() == 0 {
        Seq::empty()
    } else if parts.len() == 1 {
        parts[0]
    } else {
        joined(parts.drop_last()) + seq!['/'] + parts.last()
    }
}

/// The path that has the components `parts`.
pub open spec fn rendered(parts: Seq<Seq<char>>) -> Seq<char> {
    if parts.len() > 0 && parts[0] == root() {
        root() + joined(parts.skip(1))
    } else {
        joined(parts)
    }
}

/// Whether `part` is a name: not empty and without separator.
pub open spec fn is_name(part: Seq<char>) -> bool {
    part.len() > 0 && forall|j: int| 0 <= j < part.len() ==> part[j] != '/'
}

/// Whether `part` can stand between separators as it is: it is a name, and
/// not `.`.
pub open spec fn is_plain(part: Seq<char>) -> bool {
    is_name(part) && part != cur_dir()
}

/// Whether `component` is an ordinary name: not the root, `.` or `..`.
pub open spec fn is_normal(component: Seq<char>) -> bool {
    component != root() && component != cur_dir() && component != up_dir()
}

/// The name of the file or directory that `path` leads to: its last
/// component, where that is an ordinary name.
pub open spec fn file_name_of(path: Seq<char>) -> Option<Seq<char>> {
    let parts = components_of(path);
    if parts.len() > 0 && is_normal(parts.last()) {
        Some(parts.last())
    } else {
        None
    }
}

/// The greatest index at which `c` stands in `s`.
pub open spec fn last_index_of(s: Seq<char>, c: char) -> Option<int>
    decreases s.len(),
{
    if s.len() == 0 {
        None
    } else if s.last() == c {
        Some(s.len() - 1)
    } else {
        last_index_of(s.drop_last(), c)
    }
}

/// The extension of the file name `name`: what follows its last dot, unless
/// the name has no dot or only the one that opens it.
pub open spec fn extension_of_name(name: Seq<char>) -> Option<Seq<char>> {
    match last_index_of(name, '.') {
        Some(dot) => if dot > 0 {
            Some(name.skip(dot + 1))
        } else {
            None
        },
        None => None,
    }
}

/// The extension of the file name of `path`.
pub open spec fn extension_of(path: Seq<char>) -> Option<Seq<char>> {
    match file_name_of(path) {
        Some(name) => extension_of_name(name),
        None => None,
    }
}

/// The components of the directory that holds what `parts` lead to: all but
/// the last. The empty path and the root have none.
pub open spec fn parent_of(parts: Seq<Seq<char>>) -> Option<Seq<Seq<char>>> {
    if parts.len() == 0 || parts.last() == root() {
        None
    } else {
        Some(parts.drop_last())
    }
}

/// `parts` as seen from `base`: without the components of `base` where they
/// open `parts`, and unchanged where they do not.
pub open spec fn relative_to(parts: Seq<Seq<char>>, base: Seq<Seq<char>>) -> Seq<Seq<char>> {
    if base.is_prefix_of(parts) {
        parts.skip(base.len() as int)
    } else {
        parts
    }
}

/// Splitting at the separators loses nothing: the segments, joined again, are
/// the path, and no segment holds a separator.
pub proof fn lemma_segments_rejoin(path: Seq<char>)
    ensures
        segments(path).len() >= 1,
        joined(segments(path)) == path,
        forall|i: int, j: int|
            0 <= i < segments(path).len() && 0 <= j < segments(path)[i].len()
                ==> segments(path)[i][j] != '/',
    decreases path.len(),
{
    if path.len() > 0 {
        let shorter = path.drop_last();
        lemma_segments_rejoin(shorter);
        let before = segments(shorter);
        let after = segments(path);
        if path.last() == '/' {
            assert(after.drop_last() =~= before);
        } else if before.len() > 1 {
            assert(after.drop_last() =~= before.drop_last());
            assert(joined(after) =~= joined(before).push(path.last()));
        }
    }
}

/// A piece of text without separator is its own single segment.
proof fn lemma_segments_of_piece(piece: Seq<char>)
    requires
        forall|j: int| 0 <= j < piece.len() ==> piece[j] != '/',
    ensures
        segments(piece) == seq![piece],
    decreases piece.len(),
{
    if piece.len() > 0 {
        lemma_segments_of_piece(piece.drop_last());
        assert(piece.drop_last().push(piece.last()) =~= piece);
    } else {
        assert(piece =~= Seq::<char>::empty());
    }
}

/// A separator and a piece without separator, put behind a path, add the
/// piece to its segments.
proof fn lemma_segments_with_piece(path: Seq<char>, piece: Seq<char>)
    requires
        forall|j: int| 0 <= j < piece.len() ==> piece[j] != '/',
    ensures
        segments(path + seq!['/'] + piece) == segments(path).push(piece),
    decreases piece.len(),
{
    let whole = path + seq!['/'] + piece;
    if piece.len() == 0 {
        assert(whole.drop_last() =~= path);
        assert(piece =~= Seq::<char>::empty());
    } else {
        let shorter = piece.drop_last();
        lemma_segments_with_piece(path, shorter);
        assert(whole.drop_last() =~= path + seq!['/'] + shorter);
        assert(shorter.push(piece.last()) =~= piece);
    }
}

/// A piece without separator, put behind a path, lengthens the last segment
/// of the path.
pub proof fn lemma_segments_with_tail(path: Seq<char>, tail: Seq<char>)
    requires
        forall|j: int| 0 <= j < tail.len() ==> tail[j] != '/',
    ensures
        segments(path).len() >= 1,
        segments(path + tail) == segments(path).drop_last().push(segments(path).last() + tail),
    decreases tail.len(),
{
    lemma_segments_rejoin(path);
    let whole = path + tail;
    if tail.len() > 0 {
        let shorter = tail.drop_last();
        lemma_segments_with_tail(path, shorter);
        assert(whole.drop_last() =~= path + shorter);
        assert((segments(path).last() + shorter).push(tail.last()) =~= segments(path).last()
            + tail);
    }
}

/// Parts without separator are the segments of the path that joins them.
proof fn lemma_segments_of_joined(parts: Seq<Seq<char>>)
    requires
        parts.len() > 0,
        forall|i: int, j: int| 0 <= i < parts.len() && 0 <= j < parts[i].len() ==> parts[i][j] != '/',
    ensures
        segments(joined(parts)) == parts,
    decreases parts.len(),
{
    if parts.len() == 1 {
        lemma_segments_of_piece(parts[0]);
    } else {
        lemma_segments_of_joined(parts.drop_last());
        lemma_segments_with_piece(joined(parts.drop_last()), parts.last());
    }
}

/// Plain parts all name a component.
proof fn lemma_plain_parts_are_named(parts: Seq<Seq<char>>)
    requires
        forall|i: int| 0 <= i < parts.len() ==> is_plain(#[trigger] parts[i]),
    ensures
        named_segments(parts) == parts,
    decreases parts.len(),
{
    if parts.len() > 0 {
        lemma_plain_parts_are_named(parts.drop_last());
    }
}

/// A path joined from parts starts as its first part does.
proof fn lemma_joined_starts_with_first(parts: Seq<Seq<char>>)
    requires
        parts.len() > 0,
        parts[0].len() > 0,
    ensures
        joined(parts).len() > 0,
        joined(parts)[0] == parts[0][0],
    decreases parts.len(),
{
    if parts.len() > 1 {
        lemma_joined_starts_with_first(parts.drop_last());
    }
}

/// Joining plain parts gives a path in normal form: its components are the
/// parts again.
pub proof fn lemma_components_of_joined(parts: Seq<Seq<char>>)
    requires
        parts.len() > 0,
        forall|i: int| 0 <= i < parts.len() ==> is_plain(#[trigger] parts[i]),
    ensures
        components_of(joined(parts)) == parts,
{
    lemma_segments_of_joined(parts);
    lemma_plain_parts_are_named(parts);
    lemma_joined_starts_with_first(parts);
}

/// The segments that name a component are not empty, and come from the
/// segments given.
proof fn lemma_named_segments_are_segments(segs: Seq<Seq<char>>)
    ensures
        forall|i: int|
            0 <= i < named_segments(segs).len() ==> (#[trigger] named_segments(segs)[i]).len() > 0
                && segs.contains(named_segments(segs)[i]),
    decreases segs.len(),
{
    if segs.len() > 0 {
        let shorter = segs.drop_last();
        lemma_named_segments_are_segments(shorter);
        assert forall|i: int| 0 <= i < named_segments(segs).len() implies (
        #[trigger] named_segments(segs)[i]).len() > 0 && segs.contains(named_segments(segs)[i]) by {
            // the element comes from `shorter`, or is the last of `segs`
            assert(i < named_segments(shorter).len() || named_segments(segs)[i] == segs.last());
        }
    }
}

/// The components of a path are names, but for the root that opens an
/// absolute path.
pub proof fn lemma_components_are_names(path: Seq<char>)
    ensures
        forall|i: int|
            0 <= i < components_of(path).len() ==> if i == 0 && is_absolute(path) {
                #[trigger] components_of(path)[i] == root()
            } else {
                is_name(components_of(path)[i])
            },
{
    lemma_segments_rejoin(path);
    lemma_named_segments_are_segments(segments(path));
}

/// Closes the segment of `path` that runs from `start` to `end`: it joins
/// `parts` if it names a component.
fn close_segment(
    parts: &mut Vec<String>,
    path: &str,
    chars: &Vec<char>,
    start: usize,
    end: usize,
)
    requires
        chars@ == path@,
        start <= end <= chars.len(),
    ensures
        names(final(parts)@) == if is_named(path@.subrange(start as int, end as int), start == 0) {
            names(old(parts)@).push(path@.subrange(start as int, end as int))
        } else {
            names(old(parts)@)
        },
{
    let ghost segment = path@.subrange(start as int, end as int);
    let is_cur_dir = end - start == 1 && chars[start] == '.';
    assert(is_cur_dir == (segment == cur_dir())) by {
        if is_cur_dir {
            assert(segment =~= cur_dir());
        } else if segment.len() == 1 {
            assert(segment[0] != cur_dir()[0]);
        }
    }
    if end > start && (!is_cur_dir || start == 0) {
        let piece = path.substring_char(start, end);
        parts.push(piece.to_owned());
    }
}

/// The components of `path`.
pub fn components(path: &str) -> (parts: Vec<String>)
    ensures
        names(parts@) == components_of(path@),
{
    let chars = chars_of(path);
    let n = chars.len();
    let mut parts: Vec<String> = Vec::new();
    let ghost lead: Seq<Seq<char>> = Seq::empty();
    if n > 0 && chars[0] == '/' {
        proof {
            reveal_strlit("/");
            lead = seq![root()];
        }
        let slash = "/";
        assert(slash@ =~= root());
        parts.push(slash.to_owned());
    }
    let mut start: usize = 0;
    let mut i: usize = 0;
    while i < n
        invariant
            chars@ == path@,
            n == chars.len(),
            start <= i <= n,
            segments(path@.take(i as int)).len() >= 1,
            segments(path@.take(i as int)).last() == path@.subrange(start as int, i as int),
            (segments(path@.take(i as int)).len() == 1) == (start == 0),
            names(parts@) == lead + named_segments(segments(path@.take(i as int)).drop_last()),
        decreases n - i,
    {
        let ghost seen = segments(path@.take(i as int));
        let ghost next = segments(path@.take(i + 1));
        assert(path@.take(i + 1).drop_last() =~= path@.take(i as int));
        if chars[i] == '/' {
            close_segment(&mut parts, path, &chars, start, i);
            proof {
                assert(next.drop_last() =~= seen);
            }
            start = i + 1;
        } else {
            proof {
                assert(next.drop_last() =~= seen.drop_last());
            }
        }
        i += 1;
    }
    assert(path@.take(n as int) =~= path@);
    close_segment(&mut parts, path, &chars, start, n);
    parts
}

/// Whether `component` is an ordinary name.
pub fn is_normal_component(component: &str) -> (r: bool)
    ensures
        r == is_normal(component@),
{
    let chars = chars_of(component);
    let n = chars.len();
    let special = (n == 1 && (chars[0] == '/' || chars[0] == '.')) || (n == 2 && chars[0] == '.'
        && chars[1] == '.');
    proof {
        let c = component@;
        if n == 1 && chars[0] == '/' {
            assert(c =~= root());
        } else if n == 1 && chars[0] == '.' {
            assert(c =~= cur_dir());
        } else if n == 2 && chars[0] == '.' && chars[1] == '.' {
            assert(c =~= up_dir());
        }
    }
    !special
}

/// The name of the file or directory that `path` leads to.
pub fn file_name(path: &str) -> (name: Option<String>)
    ensures
        match name {
            Some(n) => file_name_of(path@) == Some(n@),
            None => file_name_of(path@) is None,
        },
{
    let mut parts = components(path);
    match parts.pop() {
        Some(last) => {
            if is_normal_component(last.as_str()) {
                Some(last)
            } else {
                None
            }
        },
        None => None,
    }
}

/// The extension of the file name `name`.
pub fn extension_of_file_name(name: &str) -> (ext: Option<String>)
    ensures
        match ext {
            Some(e) => extension_of_name(name@) == Some(e@),
            None => extension_of_name(name@) is None,
        },
{
    let chars = chars_of(name);
    let n = chars.len();
    let mut i: usize = n;
    assert(name@.take(n as int) =~= name@);
    while i > 0 && chars[i - 1] != '.'
        invariant
            i <= n,
            n == chars.len(),
            chars@ == name@,
            last_index_of(name@, '.') == last_index_of(name@.take(i as int), '.'),
        decreases i,
    {
        assert(name@.take(i as int).drop_last() =~= name@.take(i - 1));
        i -= 1;
    }
    if i > 1 {
        Some(name.substring_char(i, n).to_owned())
    } else {
        None
    }
}

/// The extension of the file name of `path`.
pub fn extension(path: &str) -> (ext: Option<String>)
    ensures
        match ext {
            Some(e) => extension_of(path@) == Some(e@),
            None => extension_of(path@) is None,
        },
{
    match file_name(path) {
        Some(name) => extension_of_file_name(name.as_str()),
        None => None,
    }
}

/// The components of the directory that holds what `parts` lead to.
pub fn parent(parts: Vec<String>) -> (dir: Option<Vec<String>>)
    ensures
        match dir {
            Some(d) => parent_of(names(parts@)) == Some(names(d@)),
            None => parent_of(names(parts@)) is None,
        },
{
    let mut rest = parts;
    match rest.pop() {
        Some(last) => {
            if is_root_component(last.as_str()) {
                None
            } else {
                Some(rest)
            }
        },
        None => None,
    }
}

/// Whether the components `base` open the components `parts`.
pub fn starts_with(parts: &Vec<String>, base: &Vec<String>) -> (r: bool)
    ensures
        r == names(base@).is_prefix_of(names(parts@)),
{
    if base.len() > parts.len() {
        return false;
    }
    let mut i: usize = 0;
    while i < base.len()
        invariant
            i <= base.len() <= parts.len(),
            forall|j: int| 0 <= j < i ==> names(base@)[j] == names(parts@)[j],
        decreases base.len() - i,
    {
        if !same_text(parts[i].as_str(), base[i].as_str()) {
            assert(names(parts@).subrange(0, base@.len() as int)[i as int] != names(base@)[i as int]);
            return false;
        }
        i += 1;
    }
    true
}

/// `parts` as seen from `base`.
pub fn relative(parts: &Vec<String>, base: &Vec<String>) -> (rel: Vec<String>)
    ensures
        names(rel@) == relative_to(names(parts@), names(base@)),
{
    let from: usize = if starts_with(parts, base) {
        base.len()
    } else {
        0
    };
    let mut rel: Vec<String> = Vec::new();
    let mut i: usize = from;
    while i < parts.len()
        invariant
            from <= i <= parts.len(),
            rel@.len() == i - from,
            names(rel@) == names(parts@).subrange(from as int, i as int),
        decreases parts.len() - i,
    {
        let part = parts[i].clone();
        rel.push(part);
        i += 1;
    }
    rel
}

/// The path that has the components `parts`.
pub fn render(parts: &Vec<String>) -> (path: String)
    ensures
        path@ == rendered(names(parts@)),
{
    proof {
        reveal_strlit("/");
    }
    let mut path = String::new();
    let mut from: usize = 0;
    if parts.len() > 0 && is_root_component(parts[0].as_str()) {
        path.append("/");
        from = 1;
    }
    let ghost lead = path@;
    let ghost rest = names(parts@).skip(from as int);
    let mut i: usize = from;
    while i < parts.len()
        invariant
            from <= i <= parts.len(),
            rest == names(parts@).skip(from as int),
            "/"@ == seq!['/'],
            path@ == lead + joined(rest.take(i - from)),
        decreases parts.len() - i,
    {
        let ghost before = rest.take(i - from);
        let ghost after = rest.take(i + 1 - from);
        assert(after.drop_last() =~= before);
        if i > from {
            path.append("/");
        }
        path.append(parts[i].as_str());
        i += 1;
    }
    assert(rest.take(parts.len() - from) =~= rest);
    proof {
        if from == 0 {
            assert(rest =~= names(parts@));
        }
    }
    path
}

/// Whether `component` is the root.
pub fn is_root_component(component: &str) -> (r: bool)
    ensures
        r == (component@ == root()),
{
    let chars = chars_of(component);
    let r = chars.len() == 1 && chars[0] == '/';
    proof {
        if r {
            assert(component@ =~= root());
        }
    }
    r
}

} // verus!
