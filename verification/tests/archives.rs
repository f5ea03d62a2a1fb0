use star::codec::{archive_from, open_archive, pack_archive, packed_from, Archive};
use star::error::ArchiveError;
use star::extract::{extract_files, Step};
use star::kind::ArchiveType;
use star::reader::{list_archive_contents, list_entries, list_paths, ArchiveEntry, Listing};
use star::writer::{
    create_archive_from_files, created_archive, plan_members, CreatedArchive, FsNode, Member,
    Notice,
};

const KINDS: [ArchiveType; 3] = [ArchiveType::Gz, ArchiveType::Xz, ArchiveType::Bz2];

fn file(path: &str, content: &[u8]) -> FsNode {
    FsNode::File { path: path.to_string(), content: content.to_vec() }
}

fn dir(path: &str, children: Vec<FsNode>) -> FsNode {
    FsNode::Dir { path: path.to_string(), children }
}

fn project() -> Vec<FsNode> {
    vec![
        file("project/readme.md", b"# project\n"),
        dir(
            "project/src",
            vec![
                file("project/src/main.rs", b"fn main() {}\n"),
                dir("project/src/empty", vec![]),
                dir("project/src/util", vec![file("project/src/util/mod.rs", &[0u8, 159, 255])]),
            ],
        ),
        file("project/zero", b""),
    ]
}

fn project_names() -> Vec<String> {
    vec![
        "project/readme.md".to_string(),
        "project/src/main.rs".to_string(),
        "project/src/util/mod.rs".to_string(),
        "project/zero".to_string(),
    ]
}

fn suffix(kind: ArchiveType) -> &'static str {
    match kind {
        ArchiveType::Gz => ".tar.gz",
        ArchiveType::Xz => ".tar.xz",
        ArchiveType::Bz2 => ".tar.bz2",
        ArchiveType::Unknown => "",
    }
}

fn created(files: &Vec<FsNode>, filename: &str, kind: ArchiveType) -> CreatedArchive {
    create_archive_from_files(files, filename, false, kind).unwrap()
}

#[test]
fn a_created_archive_extracts_to_the_same_files() {
    for kind in KINDS {
        let files = project();
        let archive = created(&files, "project", kind);
        assert_eq!(archive.output_file, format!("project{}", suffix(kind)));
        let opened = open_archive(&archive.bytes, kind).unwrap();
        let plan = extract_files(opened, false);
        assert_eq!(plan.failure, None);
        let expected = vec![
            ArchiveEntry {
                path: "project/readme.md".to_string(),
                is_dir: false,
                content: b"# project\n".to_vec(),
            },
            ArchiveEntry {
                path: "project/src/main.rs".to_string(),
                is_dir: false,
                content: b"fn main() {}\n".to_vec(),
            },
            ArchiveEntry {
                path: "project/src/util/mod.rs".to_string(),
                is_dir: false,
                content: vec![0u8, 159, 255],
            },
            ArchiveEntry { path: "project/zero".to_string(), is_dir: false, content: vec![] },
        ];
        assert_eq!(plan.entries, expected);
        assert_eq!(
            plan.steps,
            vec![
                Step::EnsureParent { dir: "project".to_string() },
                Step::WriteFile { entry: 0 },
                Step::EnsureParent { dir: "project/src".to_string() },
                Step::WriteFile { entry: 1 },
                Step::EnsureParent { dir: "project/src/util".to_string() },
                Step::WriteFile { entry: 2 },
                Step::EnsureParent { dir: "project".to_string() },
                Step::WriteFile { entry: 3 },
                Step::Finished,
            ]
        );
    }
}

#[test]
fn large_contents_survive_the_round_trip() {
    let mut content = Vec::new();
    for i in 0..200_000u32 {
        content.push((i % 251) as u8);
        content.push((i / 7 % 256) as u8);
    }
    for kind in KINDS {
        let files = vec![file("data/blob.bin", &content), file("data/small", b"x")];
        let archive = created(&files, "data", kind);
        assert_ne!(archive.bytes, content);
        let opened = open_archive(&archive.bytes, kind).unwrap();
        let plan = extract_files(opened, false);
        assert_eq!(plan.failure, None);
        assert_eq!(plan.entries.len(), 2);
        assert_eq!(plan.entries[0].path, "data/blob.bin");
        assert_eq!(plan.entries[0].content, content);
        assert_eq!(plan.entries[1].content, b"x".to_vec());
    }
}

#[test]
fn a_listing_names_the_members_in_the_order_written() {
    for kind in KINDS {
        let files = project();
        let archive = created(&files, "project", kind);
        assert_eq!(archive.members, project_names());
        let listing = list_archive_contents(&archive.output_file, &archive.bytes);
        assert_eq!(listing, Listing { paths: project_names(), failure: None });
    }
}

#[test]
fn an_empty_directory_gives_an_archive_without_entries() {
    for kind in KINDS {
        let files: Vec<FsNode> = Vec::new();
        let archive = created(&files, "nothing", kind);
        assert_eq!(archive.members, Vec::<String>::new());
        assert!(!archive.bytes.is_empty());
        let listing = list_archive_contents(&archive.output_file, &archive.bytes);
        assert_eq!(listing, Listing { paths: vec![], failure: None });
        let plan = extract_files(open_archive(&archive.bytes, kind).unwrap(), true);
        assert_eq!(plan.entries, vec![]);
        assert_eq!(plan.steps, vec![Step::Finished]);
        assert_eq!(plan.failure, None);
    }
}

#[test]
fn directories_without_files_give_no_members() {
    let files = vec![dir("top/a", vec![dir("top/a/b", vec![])]), dir("top/c", vec![])];
    let archive = created(&files, "top", ArchiveType::Gz);
    assert_eq!(archive.members, Vec::<String>::new());
}

#[test]
fn nothing_is_created_with_an_unknown_kind() {
    let files = project();
    assert_eq!(
        create_archive_from_files(&files, "project", true, ArchiveType::Unknown),
        Err(ArchiveError::UnknownArchiveType)
    );
    let none: Vec<FsNode> = Vec::new();
    assert_eq!(
        create_archive_from_files(&none, "project", false, ArchiveType::Unknown),
        Err(ArchiveError::UnknownArchiveType)
    );
}

#[test]
fn an_unknown_kind_comes_before_a_name_that_cannot_be_stored() {
    let files = vec![file("/abs/file", b"x"), file("/other/file", b"y")];
    assert_eq!(
        create_archive_from_files(&files, "out", false, ArchiveType::Unknown),
        Err(ArchiveError::UnknownArchiveType)
    );
    assert_eq!(
        create_archive_from_files(&files, "out", false, ArchiveType::Gz),
        Err(ArchiveError::InvalidMemberPath)
    );
}

#[test]
fn a_verbose_creation_reports_each_member_and_the_archive() {
    let files = project();
    let archive = create_archive_from_files(&files, "project", true, ArchiveType::Bz2).unwrap();
    let mut expected: Vec<Notice> = project_names()
        .into_iter()
        .map(|name| Notice::Adding { name })
        .collect();
    expected.push(Notice::Created { file: "project.tar.bz2".to_string() });
    assert_eq!(archive.notices, expected);
    let quiet = create_archive_from_files(&files, "project", false, ArchiveType::Bz2).unwrap();
    assert_eq!(quiet.notices, vec![]);
    assert_eq!(quiet.bytes, archive.bytes);
}

#[test]
fn members_stand_below_the_trimmed_base_name() {
    let files = vec![file("in/a.txt", b"a"), dir("in/sub", vec![file("in/sub/b.txt", b"b")])];
    let names = |filename: &str| -> Vec<String> {
        plan_members(&files, filename).unwrap().into_iter().map(|member| member.name).collect()
    };
    assert_eq!(names("in"), vec!["in/a.txt", "in/sub/b.txt"]);
    assert_eq!(names("  backup \n"), vec!["backup/a.txt", "backup/sub/b.txt"]);
    assert_eq!(names("./out/"), vec!["out/a.txt", "out/sub/b.txt"]);
    assert_eq!(names("x//y/./z"), vec!["x/y/z/a.txt", "x/y/z/sub/b.txt"]);
    assert_eq!(names(""), vec!["a.txt", "sub/b.txt"]);
    assert_eq!(names("."), vec!["a.txt", "sub/b.txt"]);
    assert_eq!(names("my dir"), vec!["my dir/a.txt", "my dir/sub/b.txt"]);
}

#[test]
fn paths_are_taken_from_the_parent_of_the_first() {
    let files = vec![
        file("/home/me/docs/a.txt", b"a"),
        file("/home/me/docs/deep/b.txt", b"b"),
        file("docs/c.txt", b"c"),
        file("./docs/d.txt", b"d"),
    ];
    let found: Vec<String> =
        plan_members(&files, "docs").unwrap().into_iter().map(|member| member.name).collect();
    assert_eq!(found, vec!["docs/a.txt", "docs/deep/b.txt", "docs/docs/c.txt", "docs/docs/d.txt"]);
}

#[test]
fn planned_members_carry_the_bytes_of_their_files() {
    let files = project();
    let members = plan_members(&files, "p").unwrap();
    let data = vec![0u8, 159, 255];
    assert_eq!(members[2], Member { name: "p/src/util/mod.rs".to_string(), data: &data });
    assert_eq!(members.len(), 4);
}

#[test]
fn a_file_outside_the_base_keeps_its_absolute_path_and_is_refused() {
    let files = vec![file("in/a.txt", b"a"), file("/etc/passwd", b"b")];
    assert_eq!(plan_members(&files, "in").unwrap_err(), ArchiveError::InvalidMemberPath);
    assert_eq!(
        create_archive_from_files(&files, "in", false, ArchiveType::Xz),
        Err(ArchiveError::InvalidMemberPath)
    );
}

#[test]
fn a_place_with_parent_steps_is_refused() {
    let files = vec![file("in/a.txt", b"a")];
    assert_eq!(plan_members(&files, "../out").unwrap_err(), ArchiveError::InvalidMemberPath);
    assert_eq!(plan_members(&files, "/out").unwrap_err(), ArchiveError::InvalidMemberPath);
    let climbing = vec![file("in/a.txt", b"a"), file("in/../b.txt", b"b")];
    assert_eq!(plan_members(&climbing, "out").unwrap_err(), ArchiveError::InvalidMemberPath);
    let below = vec![dir("in/d", vec![file("in/d/ok", b""), file("in/d/../../x", b"")])];
    assert_eq!(plan_members(&below, "out").unwrap_err(), ArchiveError::InvalidMemberPath);
}

#[test]
fn a_place_that_names_nothing_is_refused() {
    let files = vec![file("in", b"a"), file("", b"b")];
    assert_eq!(plan_members(&files, "").unwrap_err(), ArchiveError::InvalidMemberPath);
    assert_eq!(plan_members(&files, ".").unwrap_err(), ArchiveError::InvalidMemberPath);
    let names: Vec<String> =
        plan_members(&files, "out").unwrap().into_iter().map(|member| member.name).collect();
    assert_eq!(names, vec!["out/in", "out"]);
}

#[test]
fn a_name_that_the_tar_writer_refuses_is_a_failed_write() {
    let files = vec![file("in/ok", b"1"), file("in/a\0b", b"2")];
    for kind in KINDS {
        assert_eq!(
            create_archive_from_files(&files, "in", true, kind),
            Err(ArchiveError::WriteFailed)
        );
    }
}

#[test]
fn long_member_names_are_kept_whole() {
    let deep = "d".repeat(90);
    let path = format!("in/{}/{}/{}/file.txt", deep, deep, deep);
    let files = vec![file("in/first", b"1"), file(&path, b"deep")];
    let archive = created(&files, "in", ArchiveType::Gz);
    let listing = list_archive_contents("x.tar.gz", &archive.bytes);
    assert_eq!(listing.paths, vec!["in/first".to_string(), path.clone()]);
    assert_eq!(listing.failure, None);
    let plan = extract_files(open_archive(&archive.bytes, ArchiveType::Gz).unwrap(), false);
    assert_eq!(plan.entries[1].path, path);
    assert_eq!(plan.entries[1].content, b"deep".to_vec());
}

#[test]
fn names_beyond_ascii_are_kept() {
    let files = vec![file("in/größe.txt", b"1"), file("in/日本語/é.bin", b"2")];
    let archive = created(&files, " Übung ", ArchiveType::Bz2);
    assert_eq!(archive.output_file, " Übung .tar.bz2");
    let listing = list_archive_contents("a.bz2", &archive.bytes);
    assert_eq!(listing.paths, vec!["Übung/größe.txt", "Übung/日本語/é.bin"]);
}

#[test]
fn the_result_of_a_creation_is_put_together_from_its_parts() {
    let first = b"1".to_vec();
    let second = b"22".to_vec();
    let members = vec![
        Member { name: "a/x".to_string(), data: &first },
        Member { name: "a/y".to_string(), data: &second },
    ];
    let verbose = created_archive("a.tar.gz".to_string(), vec![9, 8, 7], &members, true);
    assert_eq!(
        verbose,
        CreatedArchive {
            output_file: "a.tar.gz".to_string(),
            bytes: vec![9, 8, 7],
            members: vec!["a/x".to_string(), "a/y".to_string()],
            notices: vec![
                Notice::Adding { name: "a/x".to_string() },
                Notice::Adding { name: "a/y".to_string() },
                Notice::Created { file: "a.tar.gz".to_string() },
            ],
        }
    );
    let quiet = created_archive("a.tar.gz".to_string(), vec![], &members, false);
    assert_eq!(quiet.notices, vec![]);
    assert_eq!(quiet.members, vec!["a/x".to_string(), "a/y".to_string()]);
}

#[test]
fn opening_with_an_unknown_kind_fails() {
    let archive = created(&project(), "p", ArchiveType::Gz);
    assert_eq!(
        open_archive(&archive.bytes, ArchiveType::Unknown),
        Err(ArchiveError::UnknownArchiveType)
    );
    assert_eq!(pack_archive(b"tar", ArchiveType::Unknown), Err(ArchiveError::UnknownArchiveType));
}

#[test]
fn bytes_that_are_no_compressed_stream_are_malformed() {
    for kind in KINDS {
        assert_eq!(open_archive(b"plainly not an archive", kind), Err(ArchiveError::MalformedStream));
        assert_eq!(open_archive(b"", kind).is_ok(), false);
    }
}

#[test]
fn an_archive_of_one_kind_does_not_open_as_another() {
    for kind in KINDS {
        let archive = created(&project(), "p", kind);
        for other in KINDS {
            if other != kind {
                assert_eq!(
                    open_archive(&archive.bytes, other),
                    Err(ArchiveError::MalformedStream)
                );
            }
        }
    }
}

#[test]
fn a_truncated_stream_is_malformed() {
    for kind in [ArchiveType::Gz, ArchiveType::Bz2] {
        let archive = created(&project(), "p", kind);
        let cut = &archive.bytes[..archive.bytes.len() / 2];
        assert_eq!(open_archive(cut, kind), Err(ArchiveError::MalformedStream));
    }
}

#[test]
fn packing_and_opening_are_inverse() {
    let image = b"some bytes that stand for a tar stream, some bytes, some bytes".to_vec();
    for kind in KINDS {
        let packed = pack_archive(&image, kind).unwrap();
        assert_ne!(packed, image);
        assert_eq!(open_archive(&packed, kind), Ok(Archive { image: image.clone() }));
    }
}

#[test]
fn packing_the_same_bytes_gives_the_same_archive() {
    let image = vec![7u8; 5000];
    for kind in [ArchiveType::Gz, ArchiveType::Bz2] {
        assert_eq!(pack_archive(&image, kind), pack_archive(&image, kind));
    }
}

#[test]
fn a_gzip_archive_starts_with_the_gzip_magic() {
    let packed = pack_archive(b"abc", ArchiveType::Gz).unwrap();
    assert_eq!(&packed[..3], &[0x1f, 0x8b, 8]);
    let bz = pack_archive(b"abc", ArchiveType::Bz2).unwrap();
    assert_eq!(&bz[..3], b"BZh");
    let xz = pack_archive(b"abc", ArchiveType::Xz).unwrap();
    assert_eq!(&xz[..6], &[0xfd, b'7', b'z', b'X', b'Z', 0]);
}

#[test]
fn what_a_decoder_answers_decides_the_opening() {
    assert_eq!(archive_from::<()>(Ok(vec![1, 2, 3])), Ok(Archive { image: vec![1, 2, 3] }));
    assert_eq!(archive_from::<()>(Ok(vec![])), Ok(Archive { image: vec![] }));
    assert_eq!(archive_from(Err("broken")), Err(ArchiveError::MalformedStream));
    assert_eq!(packed_from::<()>(Ok(vec![4, 5])), Ok(vec![4, 5]));
    assert_eq!(packed_from(Err(17)), Err(ArchiveError::WriteFailed));
}

#[test]
fn listing_with_an_unknown_extension_fails() {
    let archive = created(&project(), "p", ArchiveType::Gz);
    assert_eq!(
        list_archive_contents("p.tar", &archive.bytes),
        Listing { paths: vec![], failure: Some(ArchiveError::UnknownArchiveType) }
    );
    assert_eq!(
        list_archive_contents("p.zip", &archive.bytes),
        Listing { paths: vec![], failure: Some(ArchiveError::UnknownArchiveType) }
    );
}

#[test]
fn listing_a_stream_that_cannot_be_decoded_fails() {
    assert_eq!(
        list_archive_contents("p.tar.gz", b"garbage"),
        Listing { paths: vec![], failure: Some(ArchiveError::MalformedStream) }
    );
    let archive = created(&project(), "p", ArchiveType::Gz);
    assert_eq!(
        list_archive_contents("p.tar.bz2", &archive.bytes),
        Listing { paths: vec![], failure: Some(ArchiveError::MalformedStream) }
    );
}

#[test]
fn a_stream_that_is_no_tar_is_a_malformed_archive() {
    let image = vec![b'x'; 1024];
    let listing = list_entries(&Archive { image: image.clone() });
    assert_eq!(listing, Listing { paths: vec![], failure: Some(ArchiveError::MalformedArchive) });
    let packed = pack_archive(&image, ArchiveType::Gz).unwrap();
    assert_eq!(
        list_archive_contents("odd.gz", &packed),
        Listing { paths: vec![], failure: Some(ArchiveError::MalformedArchive) }
    );
    let plan = extract_files(Archive { image }, true);
    assert_eq!(plan.entries, vec![]);
    assert_eq!(plan.steps, vec![]);
    assert_eq!(plan.failure, Some(ArchiveError::MalformedArchive));
}

#[test]
fn an_empty_stream_is_an_archive_without_entries() {
    let listing = list_entries(&Archive { image: vec![] });
    assert_eq!(listing, Listing { paths: vec![], failure: None });
    let zeros = list_entries(&Archive { image: vec![0u8; 1024] });
    assert_eq!(zeros, Listing { paths: vec![], failure: None });
}

#[test]
fn the_entries_before_a_broken_header_are_still_read() {
    let archive = created(&project(), "project", ArchiveType::Gz);
    let mut image = open_archive(&archive.bytes, ArchiveType::Gz).unwrap().image;
    // Each of the first two members takes a header block and one block of
    // content; the third header starts at byte 2048.
    image[2048 + 10] ^= 0xff;
    let listing = list_entries(&Archive { image: image.clone() });
    assert_eq!(
        listing,
        Listing {
            paths: vec!["project/readme.md".to_string(), "project/src/main.rs".to_string()],
            failure: Some(ArchiveError::MalformedArchive),
        }
    );
    let plan = extract_files(Archive { image }, true);
    assert_eq!(plan.failure, Some(ArchiveError::MalformedArchive));
    assert_eq!(plan.entries.len(), 2);
    assert_eq!(
        plan.steps,
        vec![
            Step::Announce { entry: 0 },
            Step::EnsureParent { dir: "project".to_string() },
            Step::WriteFile { entry: 0 },
            Step::Announce { entry: 1 },
            Step::EnsureParent { dir: "project/src".to_string() },
            Step::WriteFile { entry: 1 },
        ]
    );
}

#[test]
fn a_stream_cut_within_a_header_is_malformed() {
    let archive = created(&project(), "project", ArchiveType::Bz2);
    let image = open_archive(&archive.bytes, ArchiveType::Bz2).unwrap().image;
    let cut = image[..512 + 512 + 100].to_vec();
    let listing = list_entries(&Archive { image: cut });
    assert_eq!(listing.paths, vec!["project/readme.md".to_string()]);
    assert_eq!(listing.failure, Some(ArchiveError::MalformedArchive));
}

#[test]
fn a_stream_cut_within_an_entry_ends_with_what_was_there() {
    let archive = created(&project(), "project", ArchiveType::Bz2);
    let image = open_archive(&archive.bytes, ArchiveType::Bz2).unwrap().image;
    let cut = image[..512 + 512 + 512 + 5].to_vec();
    let plan = extract_files(Archive { image: cut }, false);
    assert_eq!(plan.failure, Some(ArchiveError::MalformedArchive));
    assert_eq!(plan.entries.len(), 2);
    assert_eq!(plan.entries[1].path, "project/src/main.rs");
    assert_eq!(plan.entries[1].content, b"fn ma".to_vec());
}

#[test]
fn directory_entries_are_told_from_files() {
    let mut builder = tar::Builder::new(Vec::new());
    let mut header = tar::Header::new_gnu();
    header.set_entry_type(tar::EntryType::Directory);
    header.set_size(0);
    header.set_mode(0o755);
    builder.append_data(&mut header, "top/inner", &b""[..]).unwrap();
    let mut header = tar::Header::new_gnu();
    header.set_size(2);
    header.set_mode(0o600);
    builder.append_data(&mut header, "top/inner/f", &b"hi"[..]).unwrap();
    let image = builder.into_inner().unwrap();
    let plan = extract_files(Archive { image }, false);
    assert_eq!(
        plan.entries,
        vec![
            ArchiveEntry { path: "top/inner".to_string(), is_dir: true, content: vec![] },
            ArchiveEntry { path: "top/inner/f".to_string(), is_dir: false, content: b"hi".to_vec() },
        ]
    );
    assert_eq!(
        plan.steps,
        vec![
            Step::EnsureParent { dir: "top".to_string() },
            Step::EnsureDir { entry: 0 },
            Step::EnsureParent { dir: "top/inner".to_string() },
            Step::WriteFile { entry: 1 },
            Step::Finished,
        ]
    );
}

#[test]
fn listing_entries_gives_their_paths() {
    let entries = vec![
        ArchiveEntry { path: "b".to_string(), is_dir: false, content: vec![1] },
        ArchiveEntry { path: "a/".to_string(), is_dir: true, content: vec![] },
        ArchiveEntry { path: "b".to_string(), is_dir: false, content: vec![2] },
    ];
    let paths = vec!["b".to_string(), "a/".to_string(), "b".to_string()];
    assert_eq!(list_paths(&entries, true), Listing { paths: paths.clone(), failure: None });
    assert_eq!(
        list_paths(&entries, false),
        Listing { paths, failure: Some(ArchiveError::MalformedArchive) }
    );
    assert_eq!(list_paths(&vec![], true), Listing { paths: vec![], failure: None });
}
