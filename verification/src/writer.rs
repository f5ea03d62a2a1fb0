//! The archive writer: from a set of files to the members of a tar stream,
//! each under its name inside the archive, and on to the compressed archive.

use vstd::prelude::*;
use crate::codec::{bzip2_encoded, gzip_encoded, pack_archive};
use crate::error::ArchiveError;
use crate::kind::{archive_suffix, output_file_name, ArchiveType};
use crate::path::{
    components,
    components_of,
    cur_dir,
    is_name,
    is_normal,
    is_normal_component,
    is_plain,
    is_root_component,
    joined,
    lemma_components_are_names,
    lemma_components_of_joined,
    names,
    parent,
    parent_of,
    relative,
    relative_to,
    render,
    root,
    up_dir,
};
use crate::text::{same_text, trim, trimmed};

verus! {

broadcast use vstd::std_specs::vec::axiom_vec_index_decreases;

/// The mode that every member of a new archive is given.
pub const FILE_MODE: u32 = 0o644;

/// A file or a directory as it was found on disk.
#[derive(Debug, PartialEq, Eq)]
pub enum FsNode {
    /// A file, with the bytes it holds.
    File { path: String, content: Vec<u8> },
    /// A directory, with what it holds, in the order in which it was read.
    Dir { path: String, children: Vec<FsNode> },
}

/// A file to archive: its path on disk and its bytes.
pub struct FileView {
    pub path: Seq<char>,
    pub content: Seq<u8>,
}

/// The path of a node.
pub open spec fn node_path(node: FsNode) -> Seq<char> {
    match node {
        FsNode::File { path, content } => path@,
        FsNode::Dir { path, children } => path@,
    }
}

/// The files at and below `node`: the node itself if it is a file, else the
/// files of its children, child by child in their order. A directory gives
/// no file of its own.
pub open spec fn files_under(node: FsNode) -> Seq<FileView>
    decreases node, 0nat,
{
    match node {
        FsNode::File { path, content } => seq![FileView { path: path@, content: content@ }],
        FsNode::Dir { path, children } => files_among(children@, children@.len()),
    }
}

/// The files at and below the first `count` of `nodes`.
pub open spec fn files_among(nodes: Seq<FsNode>, count: nat) -> Seq<FileView>
    decreases nodes, count,
{
    if count == 0 || count > nodes.len() {
        Seq::empty()
    } else {
        files_among(nodes, (count - 1) as nat) + files_under(nodes[count - 1])
    }
}

/// The files of a whole file set, in the order in which they are archived.
pub open spec fn all_files(files: Seq<FsNode>) -> Seq<FileView> {
    files_among(files, files.len())
}

/// The components of the directory against which the paths of a file set are
/// taken: the parent of the first path, and nothing for an empty set or a
/// first path without parent.
pub open spec fn base_of(files: Seq<FsNode>) -> Seq<Seq<char>> {
    if files.len() == 0 {
        Seq::empty()
    } else {
        match parent_of(components_of(node_path(files[0]))) {
            Some(dir) => dir,
            None => Seq::empty(),
        }
    }
}

/// A member of an archive: its name inside the archive and its bytes.
pub struct MemberView {
    pub name: Seq<char>,
    pub data: Seq<u8>,
}

/// `parts` without the components `.`.
pub open spec fn without_cur_dir(parts: Seq<Seq<char>>) -> Seq<Seq<char>>
    decreases parts.len(),
{
    if parts.len() == 0 {
        Seq::empty()
    } else if parts.last() == cur_dir() {
        without_cur_dir(parts.drop_last())
    } else {
        without_cur_dir(parts.drop_last()).push(parts.last())
    }
}

/// The components of the place of the file at `path` inside an archive
/// whose root folder has the components `folder`: the folder, then the path
/// as seen from `base`. A path that stays absolute takes the folder's place.
pub open spec fn member_parts(
    folder: Seq<Seq<char>>,
    base: Seq<Seq<char>>,
    path: Seq<char>,
) -> Seq<Seq<char>> {
    let rel = relative_to(components_of(path), base);
    if rel.len() > 0 && rel[0] == root() {
        rel
    } else {
        folder + rel
    }
}

/// Whether a file with the components `parts` can be stored: they name
/// something, and none is the root or `..`.
pub open spec fn storable(parts: Seq<Seq<char>>) -> bool {
    without_cur_dir(parts).len() > 0 && forall|i: int|
        0 <= i < parts.len() ==> #[trigger] parts[i] != root() && parts[i] != up_dir()
}

/// The name under which a file with the components `parts` is stored.
pub open spec fn stored_name(parts: Seq<Seq<char>>) -> Seq<char> {
    joined(without_cur_dir(parts))
}

/// Whether `name` can be given to a member as it is: it is a relative path
/// of ordinary names, in normal form.
pub open spec fn is_member_name(name: Seq<char>) -> bool {
    let parts = components_of(name);
    parts.len() > 0 && name == joined(parts) && forall|i: int|
        0 <= i < parts.len() ==> is_normal(#[trigger] parts[i])
}

/// Whether every component of `parts` is the root or a name.
pub open spec fn are_components(parts: Seq<Seq<char>>) -> bool {
    forall|i: int| 0 <= i < parts.len() ==> #[trigger] parts[i] == root() || is_name(parts[i])
}

/// Whether every one of `files` can be stored.
pub open spec fn all_storable(
    files: Seq<FileView>,
    folder: Seq<Seq<char>>,
    base: Seq<Seq<char>>,
) -> bool {
    forall|i: int|
        0 <= i < files.len() ==> storable(member_parts(folder, base, (#[trigger] files[i]).path))
}

/// The members that `files` become, in their order.
pub open spec fn members_of(
    files: Seq<FileView>,
    folder: Seq<Seq<char>>,
    base: Seq<Seq<char>>,
) -> Seq<MemberView> {
    Seq::new(
        files.len(),
        |i: int|
            MemberView {
                name: stored_name(member_parts(folder, base, files[i].path)),
                data: files[i].content,
            },
    )
}

/// The components of the root folder inside an archive made under the base
/// name `filename`: those of the name without the white space around it.
pub open spec fn folder_of(filename: Seq<char>) -> Seq<Seq<char>> {
    components_of(trimmed(filename))
}

/// Whether the files of `files` can all be stored in an archive made under
/// `filename`.
pub open spec fn can_store(files: Seq<FsNode>, filename: Seq<char>) -> bool {
    all_storable(all_files(files), folder_of(filename), base_of(files))
}

/// The members of an archive made of `files` under `filename`.
pub open spec fn planned_members(files: Seq<FsNode>, filename: Seq<char>) -> Seq<MemberView> {
    members_of(all_files(files), folder_of(filename), base_of(files))
}

/// A member that is planned for an archive.
#[derive(Debug, PartialEq, Eq)]
pub struct Member<'a> {
    /// The name inside the archive.
    pub name: String,
    /// The bytes of the file.
    pub data: &'a Vec<u8>,
}

impl<'a> View for Member<'a> {
    type V = MemberView;

    open spec fn view(&self) -> MemberView {
        MemberView { name: self.name@, data: self.data@ }
    }
}

/// The views of a list of members.
pub open spec fn member_views(members: Seq<Member>) -> Seq<MemberView> {
    Seq::new(members.len(), |i: int| members[i]@)
}

/// The names of a list of members.
pub open spec fn member_names(members: Seq<MemberView>) -> Seq<Seq<char>> {
    Seq::new(members.len(), |i: int| members[i].name)
}

/// Whether every one of `members` has a name that can be given as it is.
pub open spec fn well_named(members: Seq<Member>) -> bool {
    forall|i: int| 0 <= i < members.len() ==> is_member_name((#[trigger] members[i]).name@)
}

/// `members` as they are written: each with the mode of new members.
pub open spec fn with_mode(members: Seq<MemberView>) -> Seq<(Seq<char>, u32, Seq<u8>)> {
    Seq::new(members.len(), |i: int| (members[i].name, FILE_MODE, members[i].data))
}

/// A tar stream that is being built.
#[verifier::external_body]
pub struct TarWriter {
    inner: tar::Builder<Vec<u8>>,
}

/// The members written to `writer` so far, each with its name, its mode and
/// its bytes, in the order in which they were written.
pub uninterp spec fn written(writer: TarWriter) -> Seq<(Seq<char>, u32, Seq<u8>)>;

/// The tar stream that `tar` makes of `members`, written one after the
/// other to an empty archive and closed; nothing where closing fails.
pub uninterp spec fn tar_image(members: Seq<(Seq<char>, u32, Seq<u8>)>) -> Option<Seq<u8>>;

/// Whether `tar` takes a member under the name `name`.
pub uninterp spec fn tar_takes(name: Seq<char>) -> bool;

/// Calls `tar::Builder::new` on an empty buffer. Trusted: nothing has been
/// written to the new archive.
#[verifier::external_body]
fn new_writer() -> (writer: TarWriter)
    ensures
        written(writer) == Seq::<(Seq<char>, u32, Seq<u8>)>::empty(),
{
    TarWriter { inner: tar::Builder::new(Vec::new()) }
}

/// Calls `tar::Builder::append_data` with a fresh GNU header that holds the
/// size of `data` and `mode`. Trusted: where the call succeeds, the archive
/// has one member more, the last, stored under `name` with these bytes.
/// The name has to be a relative path of ordinary names in normal form: such
/// a name `tar` stores byte for byte, in the header or, where it is too long
/// for that, in a long-name entry before it. Whether the call succeeds
/// depends on the name alone, as `tar_takes` says: the header is fresh, and
/// neither reading the bytes nor writing to the buffer can fail.
#[verifier::external_body]
fn append_member(writer: &mut TarWriter, name: &str, mode: u32, data: &[u8]) -> (r: Result<
    (),
    std::io::Error,
>)
    requires
        is_member_name(name@),
    ensures
        r is Ok == tar_takes(name@),
        r is Ok ==> written(*final(writer)) == written(*old(writer)).push((name@, mode, data@)),
{
    let mut header = tar::Header::new_gnu();
    header.set_size(data.len() as u64);
    header.set_mode(mode);
    writer.inner.append_data(&mut header, name, data)
}

/// Calls `tar::Builder::into_inner`, which closes the archive and hands out
/// the buffer. Trusted: the bytes depend on the members written alone, and
/// are those that `tar_image` names.
#[verifier::external_body]
fn finish_writer(writer: TarWriter) -> (r: Result<Vec<u8>, std::io::Error>)
    ensures
        match r {
            Ok(image) => tar_image(written(writer)) == Some(image@),
            Err(_) => tar_image(written(writer)) is None,
        },
{
    writer.inner.into_inner()
}

/// What is reported while an archive is created.
#[derive(Debug, PartialEq, Eq)]
pub enum Notice {
    /// A file is added under the name `name`.
    Adding { name: String },
    /// The archive was written to `file`.
    Created { file: String },
}

/// A notice as contracts see it.
pub enum NoticeView {
    Adding { name: Seq<char> },
    Created { file: Seq<char> },
}

impl View for Notice {
    type V = NoticeView;

    open spec fn view(&self) -> NoticeView {
        match *self {
            Notice::Adding { name } => NoticeView::Adding { name: name@ },
            Notice::Created { file } => NoticeView::Created { file: file@ },
        }
    }
}

/// The views of a list of notices.
pub open spec fn notice_views(notices: Seq<Notice>) -> Seq<NoticeView> {
    Seq::new(notices.len(), |i: int| notices[i]@)
}

/// The notices of a creation: for a verbose one, each member as it is added,
/// in their order, and the archive at the end; none otherwise.
pub open spec fn notices_for(names: Seq<Seq<char>>, file: Seq<char>, verbose: bool) -> Seq<
    NoticeView,
> {
    if verbose {
        Seq::new(names.len(), |i: int| NoticeView::Adding { name: names[i] }).push(
            NoticeView::Created { file },
        )
    } else {
        Seq::empty()
    }
}

/// An archive that was created.
#[derive(Debug, PartialEq, Eq)]
pub struct CreatedArchive {
    /// The name of the file to hold the archive.
    pub output_file: String,
    /// The bytes of the archive.
    pub bytes: Vec<u8>,
    /// The names of the members, in the order in which they were written.
    pub members: Vec<String>,
    /// What to report of the creation, in order.
    pub notices: Vec<Notice>,
}

/// Whether the tar writer takes every one of `members`.
pub open spec fn all_taken(members: Seq<MemberView>) -> bool {
    forall|i: int| 0 <= i < members.len() ==> tar_takes((#[trigger] members[i]).name)
}

/// The tar stream of `members`: nothing where the tar writer does not take
/// one of them, or cannot close the stream.
pub open spec fn image_of(members: Seq<MemberView>) -> Option<Seq<u8>> {
    if all_taken(members) {
        tar_image(with_mode(members))
    } else {
        None
    }
}

/// Whether `bytes` are the archive of kind `kind` that holds `members`: the
/// tar stream of the members, packed by the encoder of the kind. Of an xz
/// archive only the tar stream is known.
pub open spec fn holds_members(bytes: Seq<u8>, kind: ArchiveType, members: Seq<MemberView>) -> bool {
    match image_of(members) {
        Some(image) => match kind {
            ArchiveType::Gz => gzip_encoded(image) == Some(bytes),
            ArchiveType::Bz2 => bzip2_encoded(image) == Some(bytes),
            ArchiveType::Xz => true,
            ArchiveType::Unknown => false,
        },
        None => false,
    }
}

/// Whether an archive of kind `kind` that holds `members` cannot be written
/// out: the tar writer or the encoder of the kind fails. Of an xz archive
/// this is left open.
pub open spec fn fails_to_write(kind: ArchiveType, members: Seq<MemberView>) -> bool {
    match image_of(members) {
        Some(image) => match kind {
            ArchiveType::Gz => gzip_encoded(image) is None,
            ArchiveType::Bz2 => bzip2_encoded(image) is None,
            _ => true,
        },
        None => true,
    }
}

/// Whether `archive` is the archive of `members`, of kind `kind`, made under
/// the base name `filename`.
pub open spec fn created_as(
    archive: CreatedArchive,
    filename: Seq<char>,
    kind: ArchiveType,
    members: Seq<MemberView>,
    verbose: bool,
) -> bool {
    &&& archive.output_file@ == filename + archive_suffix(kind)
    &&& names(archive.members@) == member_names(members)
    &&& notice_views(archive.notices@) == notices_for(
        member_names(members),
        archive.output_file@,
        verbose,
    )
    &&& holds_members(archive.bytes@, kind, members)
}

/// Leaving out `.` goes part by part.
proof fn lemma_without_cur_dir_of_sum(front: Seq<Seq<char>>, back: Seq<Seq<char>>)
    ensures
        without_cur_dir(front + back) == without_cur_dir(front) + without_cur_dir(back),
    decreases back.len(),
{
    if back.len() > 0 {
        lemma_without_cur_dir_of_sum(front, back.drop_last());
        assert((front + back).drop_last() =~= front + back.drop_last());
    }
}

/// The files of two lists can all be stored where those of each list can.
proof fn lemma_all_storable_of_sum(
    front: Seq<FileView>,
    back: Seq<FileView>,
    folder: Seq<Seq<char>>,
    base: Seq<Seq<char>>,
)
    ensures
        all_storable(front + back, folder, base) == (all_storable(front, folder, base)
            && all_storable(back, folder, base)),
        members_of(front + back, folder, base) == members_of(front, folder, base) + members_of(
            back,
            folder,
            base,
        ),
{
    let whole = front + back;
    if all_storable(whole, folder, base) {
        assert forall|i: int| 0 <= i < front.len() implies storable(
            member_parts(folder, base, (#[trigger] front[i]).path),
        ) by {
            assert(whole[i] == front[i]);
        }
        assert forall|i: int| 0 <= i < back.len() implies storable(
            member_parts(folder, base, (#[trigger] back[i]).path),
        ) by {
            assert(whole[i + front.len()] == back[i]);
        }
    }
}

/// The files below the first nodes of a list open the files below more of
/// them.
proof fn lemma_files_among_grows(nodes: Seq<FsNode>, fewer: nat, more: nat)
    requires
        fewer <= more <= nodes.len(),
    ensures
        exists|rest: Seq<FileView>| files_among(nodes, more) == files_among(nodes, fewer) + rest,
    decreases more - fewer,
{
    if fewer == more {
        assert(files_among(nodes, more) =~= files_among(nodes, fewer) + Seq::<FileView>::empty());
    } else {
        lemma_files_among_grows(nodes, fewer, (more - 1) as nat);
        let rest = choose|rest: Seq<FileView>|
            files_among(nodes, (more - 1) as nat) == files_among(nodes, fewer) + rest;
        assert(files_among(nodes, more) =~= files_among(nodes, fewer) + (rest + files_under(
            nodes[more - 1],
        )));
    }
}

/// Whether `component` is `.`.
fn same_dot(component: &str) -> (r: bool)
    ensures
        r == (component@ == cur_dir()),
{
    proof {
        reveal_strlit(".");
    }
    let dot = ".";
    assert(dot@ =~= cur_dir());
    same_text(component, dot)
}

/// Adds the components of `parts` to `kept`, but for `.`. Answers whether
/// all of them can be stored: none is the root or `..`.
fn keep_parts(kept: &mut Vec<String>, parts: &Vec<String>) -> (clean: bool)
    requires
        are_components(names(parts@)),
        forall|i: int| 0 <= i < old(kept)@.len() ==> is_plain(#[trigger] names(old(kept)@)[i]),
        forall|i: int| 0 <= i < old(kept)@.len() ==> is_normal(#[trigger] names(old(kept)@)[i]),
    ensures
        clean == forall|i: int|
            0 <= i < parts@.len() ==> #[trigger] names(parts@)[i] != root() && names(parts@)[i]
                != up_dir(),
        clean ==> names(final(kept)@) == names(old(kept)@) + without_cur_dir(names(parts@)),
        clean ==> forall|i: int|
            0 <= i < final(kept)@.len() ==> is_plain(#[trigger] names(final(kept)@)[i]),
        clean ==> forall|i: int|
            0 <= i < final(kept)@.len() ==> is_normal(#[trigger] names(final(kept)@)[i]),
{
    let ghost given = names(parts@);
    let mut i: usize = 0;
    while i < parts.len()
        invariant
            i <= parts.len(),
            given == names(parts@),
            are_components(given),
            forall|j: int| 0 <= j < i ==> #[trigger] given[j] != root() && given[j] != up_dir(),
            names(kept@) == names(old(kept)@) + without_cur_dir(given.take(i as int)),
            forall|j: int| 0 <= j < kept@.len() ==> is_plain(#[trigger] names(kept@)[j]),
            forall|j: int| 0 <= j < kept@.len() ==> is_normal(#[trigger] names(kept@)[j]),
        decreases parts.len() - i,
    {
        let part = &parts[i];
        assert(part@ == given[i as int]);
        let ghost before = names(kept@);
        proof {
            assert(given.take(i + 1).drop_last() =~= given.take(i as int));
        }
        if is_normal_component(part.as_str()) {
            kept.push(part.clone());
            proof {
                assert(names(kept@) =~= before.push(part@));
            }
        } else if !same_dot(part.as_str()) {
            return false;
        } else {
            assert(cur_dir()[0] != root()[0]);
        }
        i += 1;
    }
    assert(given.take(parts@.len() as int) =~= given);
    true
}

/// The name inside the archive of the file at `path`, where it can be
/// stored.
fn member_name(folder: &Vec<String>, base: &Vec<String>, path: &str) -> (name: Option<String>)
    requires
        are_components(names(folder@)),
    ensures
        match name {
            Some(n) => storable(member_parts(names(folder@), names(base@), path@)) && n@
                == stored_name(member_parts(names(folder@), names(base@), path@))
                && is_member_name(n@),
            None => !storable(member_parts(names(folder@), names(base@), path@)),
        },
{
    let ghost parts = member_parts(names(folder@), names(base@), path@);
    let whole = components(path);
    let rel = relative(&whole, base);
    proof {
        lemma_components_are_names(path@);
    }
    let mut kept: Vec<String> = Vec::new();
    let rooted = rel.len() > 0 && is_root_component(rel[0].as_str());
    let mut clean = true;
    if !rooted {
        clean = keep_parts(&mut kept, folder);
        if !clean {
            proof {
                let i = choose|i: int|
                    0 <= i < folder@.len() && !(#[trigger] names(folder@)[i] != root() && names(
                        folder@,
                    )[i] != up_dir());
                assert(parts[i] == names(folder@)[i]);
            }
            return None;
        }
    }
    clean = keep_parts(&mut kept, &rel);
    if !clean {
        proof {
            let i = choose|i: int|
                0 <= i < rel@.len() && !(#[trigger] names(rel@)[i] != root() && names(rel@)[i]
                    != up_dir());
            if !rooted {
                assert(parts[i + folder@.len()] == names(rel@)[i]);
            }
        }
        return None;
    }
    proof {
        if !rooted {
            lemma_without_cur_dir_of_sum(names(folder@), names(rel@));
        }
    }
    if kept.len() == 0 {
        return None;
    }
    let name = render(&kept);
    proof {
        lemma_components_of_joined(names(kept@));
    }
    Some(name)
}

/// Plans the members for the files at and below `node`, in their order, and
/// adds them to `members`. A directory is given no member of its own: its
/// children are taken one after the other. Fails where a file cannot be
/// stored.
fn add_files_recursively<'a>(
    members: &mut Vec<Member<'a>>,
    node: &'a FsNode,
    base: &Vec<String>,
    folder: &Vec<String>,
) -> (r: Result<(), ArchiveError>)
    requires
        are_components(names(folder@)),
        well_named(old(members)@),
    ensures
        match r {
            Ok(()) => all_storable(files_under(*node), names(folder@), names(base@))
                && member_views(final(members)@) == member_views(old(members)@) + members_of(
                files_under(*node),
                names(folder@),
                names(base@),
            ) && well_named(final(members)@),
            Err(e) => e == ArchiveError::InvalidMemberPath && !all_storable(
                files_under(*node),
                names(folder@),
                names(base@),
            ),
        },
    decreases node,
{
    let ghost f = names(folder@);
    let ghost b = names(base@);
    match node {
        FsNode::File { path, content } => {
            let ghost file = FileView { path: path@, content: content@ };
            match member_name(folder, base, path.as_str()) {
                Some(name) => {
                    members.push(Member { name, data: content });
                    Ok(())
                },
                None => {
                    assert(!storable(member_parts(f, b, seq![file][0].path)));
                    Err(ArchiveError::InvalidMemberPath)
                },
            }
        },
        FsNode::Dir { path, children } => {
            let mut i: usize = 0;
            while i < children.len()
                invariant
                    i <= children.len(),
                    *node is Dir,
                    node->children == *children,
                    f == names(folder@),
                    b == names(base@),
                    are_components(f),
                    well_named(members@),
                    all_storable(files_among(children@, i as nat), f, b),
                    member_views(members@) == member_views(old(members)@) + members_of(
                        files_among(children@, i as nat),
                        f,
                        b,
                    ),
                decreases children.len() - i,
            {
                let ghost done = files_among(children@, i as nat);
                let ghost more = files_under(children@[i as int]);
                proof {
                    lemma_all_storable_of_sum(done, more, f, b);
                }
                match add_files_recursively(members, &children[i], base, folder) {
                    Ok(()) => {},
                    Err(e) => {
                        proof {
                            lemma_files_among_grows(children@, (i + 1) as nat, children@.len());
                            let all = files_among(children@, children@.len());
                            let rest = choose|rest: Seq<FileView>| all == (done + more) + rest;
                            lemma_all_storable_of_sum(done + more, rest, f, b);
                        }
                        return Err(e);
                    },
                }
                i += 1;
            }
            Ok(())
        },
    }
}

/// The components of the directory against which the paths of `files` are
/// taken.
pub fn base_components(files: &Vec<FsNode>) -> (base: Vec<String>)
    ensures
        names(base@) == base_of(files@),
{
    if files.len() == 0 {
        return Vec::new();
    }
    let first = match &files[0] {
        FsNode::File { path, content } => path,
        FsNode::Dir { path, children } => path,
    };
    match parent(components(first.as_str())) {
        Some(dir) => dir,
        None => Vec::new(),
    }
}

/// Plans the members of an archive made of `files` under the base name
/// `filename`.
///
/// Every file at or below a node of `files` becomes one member, in the order
/// of the nodes and, below a directory, of its children. Its name is the
/// root folder, which is `filename` without the white space around it,
/// followed by the file's path as seen from the parent directory of the
/// first node. The planning fails if and only if one of the files cannot be
/// stored: its place would be absolute, hold `..`, or name nothing.
pub fn plan_members<'a>(files: &'a Vec<FsNode>, filename: &str) -> (r: Result<
    Vec<Member<'a>>,
    ArchiveError,
>)
    ensures
        match r {
            Ok(members) => can_store(files@, filename@) && member_views(members@)
                == planned_members(files@, filename@) && well_named(members@),
            Err(e) => e == ArchiveError::InvalidMemberPath && !can_store(files@, filename@),
        },
{
    let folder = components(trim(filename));
    let base = base_components(files);
    let ghost f = names(folder@);
    let ghost b = names(base@);
    proof {
        lemma_components_are_names(trimmed(filename@));
    }
    let mut members: Vec<Member<'a>> = Vec::new();
    let mut i: usize = 0;
    while i < files.len()
        invariant
            i <= files.len(),
            f == names(folder@),
            b == names(base@),
            f == folder_of(filename@),
            b == base_of(files@),
            are_components(f),
            well_named(members@),
            all_storable(files_among(files@, i as nat), f, b),
            member_views(members@) == members_of(files_among(files@, i as nat), f, b),
        decreases files.len() - i,
    {
        let ghost done = files_among(files@, i as nat);
        let ghost more = files_under(files@[i as int]);
        proof {
            lemma_all_storable_of_sum(done, more, f, b);
        }
        match add_files_recursively(&mut members, &files[i], &base, &folder) {
            Ok(()) => {},
            Err(e) => {
                proof {
                    lemma_files_among_grows(files@, (i + 1) as nat, files@.len());
                    let all = files_among(files@, files@.len());
                    let rest = choose|rest: Seq<FileView>| all == (done + more) + rest;
                    lemma_all_storable_of_sum(done + more, rest, f, b);
                }
                return Err(e);
            },
        }
        i += 1;
    }
    Ok(members)
}

/// Writes `members` to a new tar stream, one after the other, and closes
/// it.
fn write_members(members: &Vec<Member>) -> (r: Result<Vec<u8>, ArchiveError>)
    requires
        well_named(members@),
    ensures
        match r {
            Ok(image) => image_of(member_views(members@)) == Some(image@),
            Err(e) => e == ArchiveError::WriteFailed && image_of(member_views(members@)) is None,
        },
{
    let mut writer = new_writer();
    let ghost views = with_mode(member_views(members@));
    let mut i: usize = 0;
    while i < members.len()
        invariant
            i <= members.len(),
            well_named(members@),
            views == with_mode(member_views(members@)),
            written(writer) == views.take(i as int),
            forall|j: int| 0 <= j < i ==> tar_takes((#[trigger] member_views(members@)[j]).name),
        decreases members.len() - i,
    {
        let member = &members[i];
        match append_member(&mut writer, member.name.as_str(), FILE_MODE, member.data.as_slice()) {
            Ok(()) => {},
            Err(_) => {
                assert(!tar_takes(member_views(members@)[i as int].name));
                return Err(ArchiveError::WriteFailed);
            },
        }
        assert(member_views(members@)[i as int].name == member.name@);
        i += 1;
    }
    assert(views.take(members@.len() as int) =~= views);
    match finish_writer(writer) {
        Ok(image) => Ok(image),
        Err(_) => Err(ArchiveError::WriteFailed),
    }
}

/// Puts together the result of a creation: the archive `bytes`, to be
/// written to `output_file`, with the names of `members` and the notices.
pub fn created_archive(
    output_file: String,
    bytes: Vec<u8>,
    members: &Vec<Member>,
    verbose: bool,
) -> (archive: CreatedArchive)
    ensures
        archive.output_file == output_file,
        archive.bytes == bytes,
        names(archive.members@) == member_names(member_views(members@)),
        notice_views(archive.notices@) == notices_for(
            member_names(member_views(members@)),
            output_file@,
            verbose,
        ),
{
    let ghost wanted = member_names(member_views(members@));
    let mut listed: Vec<String> = Vec::new();
    let mut notices: Vec<Notice> = Vec::new();
    let mut i: usize = 0;
    while i < members.len()
        invariant
            i <= members.len(),
            wanted == member_names(member_views(members@)),
            listed@.len() == i,
            names(listed@) == wanted.take(i as int),
            verbose ==> notices@.len() == i,
            !verbose ==> notices@.len() == 0,
            verbose ==> notice_views(notices@) == Seq::new(
                i as nat,
                |k: int| NoticeView::Adding { name: wanted[k] },
            ),
        decreases members.len() - i,
    {
        let ghost before = notices@;
        let name = members[i].name.clone();
        if verbose {
            notices.push(Notice::Adding { name: name.clone() });
            assert forall|k: int| 0 <= k < i + 1 implies notice_views(notices@)[k]
                == (NoticeView::Adding { name: wanted[k] }) by {
                if k < i {
                    assert(notice_views(before)[k] == (NoticeView::Adding { name: wanted[k] }));
                }
            }
        }
        listed.push(name);
        i += 1;
    }
    if verbose {
        notices.push(Notice::Created { file: output_file.clone() });
    }
    CreatedArchive { output_file, bytes, members: listed, notices }
}

/// Creates an archive of kind `archive_type` from `files`, under the base
/// name `filename`.
///
/// The archive is to be written to the file named `filename` with the
/// suffix of the kind. The members are those planned by `plan_members`: they
/// stand below a root folder named like `filename`. An empty file set gives
/// an archive without members.
///
/// Nothing is produced with an unknown kind, nor where a file cannot be
/// stored; the error says which. On all other inputs the archive is
/// created, unless the tar writer or the encoder reports a failure: for a
/// gzip or bzip2 archive the contract says when that is, for an xz archive it
/// leaves it open.
pub fn create_archive_from_files(
    files: &Vec<FsNode>,
    filename: &str,
    verbose: bool,
    archive_type: ArchiveType,
) -> (r: Result<CreatedArchive, ArchiveError>)
    ensures
        match r {
            Ok(archive) => archive_type != ArchiveType::Unknown && can_store(files@, filename@)
                && created_as(
                archive,
                filename@,
                archive_type,
                planned_members(files@, filename@),
                verbose,
            ),
            Err(e) => if archive_type == ArchiveType::Unknown {
                e == ArchiveError::UnknownArchiveType
            } else if !can_store(files@, filename@) {
                e == ArchiveError::InvalidMemberPath
            } else {
                e == ArchiveError::WriteFailed && fails_to_write(
                    archive_type,
                    planned_members(files@, filename@),
                )
            },
        },
{
    let output_file = match output_file_name(filename, archive_type) {
        Ok(name) => name,
        Err(e) => {
            return Err(e);
        },
    };
    let members = match plan_members(files, filename) {
        Ok(members) => members,
        Err(e) => {
            return Err(e);
        },
    };
    let image = match write_members(&members) {
        Ok(image) => image,
        Err(e) => {
            return Err(e);
        },
    };
    match pack_archive(image.as_slice(), archive_type) {
        Ok(bytes) => Ok(created_archive(output_file, bytes, &members, verbose)),
        Err(_) => Err(ArchiveError::WriteFailed),
    }
}

/// A file below the root folder keeps its path: where the directory that
/// paths are taken from is the root folder itself, and its components open
/// those of `path`, the file at `path` is stored at the components of its
/// own path.
pub proof fn lemma_member_keeps_path(folder: Seq<char>, path: Seq<char>)
    requires
        components_of(folder).is_prefix_of(components_of(path)),
    ensures
        member_parts(components_of(folder), components_of(folder), path) == components_of(path),
{
    let base = components_of(folder);
    let whole = components_of(path);
    let rel = relative_to(whole, base);
    lemma_components_are_names(path);
    if rel.len() > 0 && rel[0] == root() {
        assert(root()[0] == '/');
    }
}

/// An archive can be made of nothing: an empty file set has no file that
/// cannot be stored, and its archive has no member, whatever its name.
pub proof fn lemma_empty_file_set(filename: Seq<char>)
    ensures
        can_store(Seq::<FsNode>::empty(), filename),
        planned_members(Seq::<FsNode>::empty(), filename) == Seq::<MemberView>::empty(),
{
}

} // verus!
