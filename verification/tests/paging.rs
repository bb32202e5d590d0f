//! Pages of the metadata listing and of its changes.

use curvine_master::conf::MasterConf;
use curvine_master::delta::{
    CvMetadataChange, CvMetadataDeltaEntry, CvMetadataDeltaPage, DeltaNode, DeltaStart, PathLookup,
    PathMap,
};
use curvine_master::error::FsError;
use curvine_master::master_filesystem::MasterFilesystem;
use curvine_master::model::{BlockMeta, FileStatus, FileType, InodeFile, StorageType};
use curvine_master::snapshot::{
    child_snapshot_path, snapshot_token_in_subtree, CvMetadataSnapshotEntry,
    CvMetadataSnapshotPage, FileRecord, FoundInode, InodeNode,
};
use curvine_master::worker_manager::WorkerManager;

fn dir(id: i64, name: &str, children: Vec<InodeNode>) -> InodeNode {
    InodeNode { id, name: name.to_string(), is_dir: true, is_entry: false, children }
}

fn leaf(id: i64, name: &str) -> InodeNode {
    InodeNode { id, name: name.to_string(), is_dir: false, is_entry: false, children: vec![] }
}

fn tree() -> InodeNode {
    dir(
        1,
        "",
        vec![
            dir(2, "a", vec![leaf(3, "x"), dir(4, "y", vec![leaf(5, "z")])]),
            leaf(6, "b"),
            dir(7, "c", vec![]),
        ],
    )
}

const ALL: [&str; 7] = ["/", "/a", "/a/x", "/a/y", "/a/y/z", "/b", "/c"];

fn entry(path: &str) -> CvMetadataSnapshotEntry {
    CvMetadataSnapshotEntry {
        status: FileStatus {
            id: 0,
            path: path.to_string(),
            name: path.rsplit('/').next().unwrap().to_string(),
            len: 0,
            is_dir: false,
        },
        blocks: None,
    }
}

fn found(path: &str, record: Option<FileRecord>) -> FoundInode {
    FoundInode { status: entry(path).status, record }
}

/// A file with one block, on record or lost.
fn one_block(is_lost: bool) -> Option<FileRecord> {
    Some(FileRecord {
        file: InodeFile {
            id: 1,
            len: 128,
            block_size: 128,
            replicas: 1,
            storage_type: StorageType::Disk,
            file_type: FileType::File,
            blocks: vec![BlockMeta { id: 77, len: 128, alloc_opts: None }],
        },
        locations: if is_lost { vec![] } else { vec![(77, vec![])] },
    })
}

fn service() -> MasterFilesystem {
    MasterFilesystem::new(MasterConf::default(), WorkerManager::new("c", 1))
}

fn page(root: &InodeNode, token: Option<&str>, size: usize) -> CvMetadataSnapshotPage {
    let token = token.map(|t| t.to_string());
    let plan = MasterFilesystem::cv_metadata_snapshot_plan(root, token, size).unwrap();
    // An inode is stored under its name alone.
    let looked_up = plan
        .iter()
        .map(|v| Ok(found(v.path.rsplit('/').next().unwrap(), None)))
        .collect();
    let entries = service().cv_metadata_snapshot_entries(&plan, looked_up).ok().unwrap();
    MasterFilesystem::cv_metadata_snapshot_page(entries, size, 5)
}

fn paths(page: &CvMetadataSnapshotPage) -> Vec<String> {
    page.entries.iter().map(|e| e.status.path.clone()).collect()
}

#[test]
fn pages_cover_the_listing_once() {
    let root = tree();
    for size in 1..10 {
        let mut seen: Vec<String> = vec![];
        let mut token: Option<String> = None;
        loop {
            let p = page(&root, token.as_deref(), size);
            assert!(p.entries.len() <= size);
            assert_eq!(p.epoch, 5);
            seen.extend(paths(&p));
            match p.next_page_token {
                Some(t) => {
                    assert_eq!(Some(&t), seen.last());
                    token = Some(t);
                }
                None => break,
            }
        }
        assert_eq!(seen, ALL);
    }
}

#[test]
fn names_that_continue_a_directory_name_are_in_order_behind_the_separator() {
    let root = dir(1, "", vec![dir(2, "a", vec![leaf(3, "b")]), leaf(4, "a0"), leaf(5, "ab")]);
    let first = page(&root, None, 3);
    assert_eq!(paths(&first), ["/", "/a", "/a/b"]);
    let second = page(&root, first.next_page_token.as_deref(), 3);
    assert_eq!(paths(&second), ["/a0", "/ab"]);
    assert_eq!(second.next_page_token, None);
}

#[test]
fn listing_resumes_behind_its_token() {
    let root = tree();
    assert_eq!(paths(&page(&root, Some("/a/x"), 10)), ALL[3..]);
    assert_eq!(paths(&page(&root, Some("/a/y/z"), 10)), ALL[5..]);
    assert_eq!(paths(&page(&root, Some(""), 2)), ALL[..2]);
    // A token of a path that is gone still marks a place.
    assert_eq!(paths(&page(&root, Some("/a/y/q"), 10)), ALL[4..]);
}

#[test]
fn empty_pages_are_refused() {
    let refused = MasterFilesystem::cv_metadata_snapshot_plan(&tree(), None, 0);
    assert_eq!(refused.err(), Some(FsError::SnapshotPageEmpty));
    let refused = MasterFilesystem::cv_metadata_delta_start(1, None, 2, 0);
    assert_eq!(refused.err(), Some(FsError::DeltaPageEmpty));
}

#[test]
fn subtrees_are_told_by_path() {
    assert_eq!(child_snapshot_path("/", "a"), "/a");
    assert_eq!(child_snapshot_path("/a", "b"), "/a/b");
    assert!(snapshot_token_in_subtree("/a", "/a"));
    assert!(snapshot_token_in_subtree("/a/b", "/a"));
    assert!(!snapshot_token_in_subtree("/ab", "/a"));
    assert!(!snapshot_token_in_subtree("/a", "/a/b"));
}

#[test]
fn entries_of_files_carry_their_blocks() {
    let fs = service();
    let status = entry("/f").status;
    let plain = fs.cv_metadata_entry("/f", status.clone(), None).ok().unwrap();
    assert!(plain.blocks.is_none());
    let record = FileRecord {
        file: InodeFile {
            id: 1,
            len: 0,
            block_size: 128,
            replicas: 1,
            storage_type: StorageType::Disk,
            file_type: FileType::File,
            blocks: vec![],
        },
        locations: vec![],
    };
    let with_blocks = fs.cv_metadata_entry("/f", status, Some(&record)).ok().unwrap();
    assert_eq!(with_blocks.blocks.unwrap().status.path, "/f");
}

#[test]
fn changes_are_asked_for_between_epochs() {
    let start = MasterFilesystem::cv_metadata_delta_start;
    assert_eq!(
        start(1, Some(9), 5, 10).err(),
        Some(FsError::TargetEpochTooNew { target: 9, current: 5 })
    );
    assert_eq!(
        start(6, None, 5, 10).err(),
        Some(FsError::FromEpochTooNew { from: 6, target: 5 })
    );
    match start(5, None, 5, 10).ok().unwrap() {
        DeltaStart::Answer(p) => assert!(p.entries.is_empty() && !p.full_snapshot_required),
        DeltaStart::AskJournal { .. } => panic!("nothing can have changed"),
    }
    // A state that has passed cannot be rebuilt.
    match start(1, Some(4), 5, 10).ok().unwrap() {
        DeltaStart::Answer(p) => {
            assert!(p.full_snapshot_required);
            assert_eq!((p.from_epoch, p.to_epoch), (1, 4));
        }
        DeltaStart::AskJournal { .. } => panic!("a whole listing is needed"),
    }
    match start(1, Some(5), 5, 10).ok().unwrap() {
        DeltaStart::AskJournal { to_epoch } => assert_eq!(to_epoch, 5),
        DeltaStart::Answer(_) => panic!("the journal knows"),
    }
    let gone = MasterFilesystem::cv_metadata_delta_unavailable(1, 5);
    assert!(gone.full_snapshot_required && gone.entries.is_empty());
}

fn change(path: &str, include_subtree: bool) -> CvMetadataChange {
    CvMetadataChange { path: path.to_string(), include_subtree }
}

#[test]
fn changed_subtrees_are_shown_whole() {
    let root = tree();
    let changed = MasterFilesystem::cv_metadata_changed_paths(vec![
        change("/gone", true),
        change("/a/y", false),
        change("/b", false),
        change("/a/y", true),
    ]);
    let merged: Vec<(&str, bool)> =
        changed.entries.iter().map(|(p, f)| (p.as_str(), *f)).collect();
    assert_eq!(merged, vec![("/a/y", true), ("/b", false), ("/gone", true)]);
    let nodes = vec![
        mirror(&root.children[0].children[1]),
        mirror(&root.children[1]),
        at("gone", PathLookup::Missing, vec![]),
    ];
    let entries = service().cv_metadata_delta_entries(&changed, nodes).ok().unwrap();
    assert_eq!(shown(&entries), ["/a/y", "/a/y/z", "/b", "/gone"]);
}

/// A node for each inode of a tree, all found.
fn mirror(node: &InodeNode) -> DeltaNode {
    let mut inode = found(&node.name, None);
    inode.status.is_dir = node.is_dir;
    at(&node.name, PathLookup::Found(inode), node.children.iter().map(mirror).collect())
}

fn at(name: &str, lookup: PathLookup, children: Vec<DeltaNode>) -> DeltaNode {
    DeltaNode { name: name.to_string(), lookup, children }
}

fn unreadable(message: &str) -> PathLookup {
    PathLookup::Unreadable(FsError::Common { message: message.to_string() })
}

fn shown(entries: &[CvMetadataDeltaEntry]) -> Vec<&str> {
    entries.iter().map(|e| e.path.as_str()).collect()
}

fn delta(token: Option<&str>, size: usize) -> CvMetadataDeltaPage {
    let entries = ["/a", "/b", "/c", "/d"]
        .iter()
        .map(|p| CvMetadataDeltaEntry { path: p.to_string(), entry: None })
        .collect();
    let token = token.map(|t| t.to_string());
    MasterFilesystem::cv_metadata_delta_page(entries, token, size, 1, 2)
}

#[test]
fn delta_pages_resume_behind_their_token() {
    let names = |p: &CvMetadataDeltaPage| -> Vec<String> {
        p.entries.iter().map(|e| e.path.clone()).collect()
    };
    let first = delta(None, 3);
    assert_eq!(names(&first), ["/a", "/b", "/c"]);
    assert_eq!(first.next_page_token.as_deref(), Some("/c"));
    let last = delta(first.next_page_token.as_deref(), 3);
    assert_eq!(names(&last), ["/d"]);
    assert_eq!(last.next_page_token, None);
    assert_eq!((last.from_epoch, last.to_epoch), (1, 2));
    assert!(names(&delta(Some("/z"), 3)).is_empty());
    assert_eq!(names(&delta(Some("/bb"), 1)), ["/c"]);
}

#[test]
fn visits_that_are_not_shown_must_be_there_but_need_no_blocks() {
    let fs = service();
    let plan = MasterFilesystem::cv_metadata_snapshot_plan(&tree(), Some("/a/x".to_string()), 2)
        .ok()
        .unwrap();
    let visited: Vec<(&str, bool)> = plan.iter().map(|v| (v.path.as_str(), v.emit)).collect();
    assert_eq!(
        visited,
        vec![
            ("/", false),
            ("/a", false),
            ("/a/x", false),
            ("/a/y", true),
            ("/a/y/z", true),
            ("/b", true),
        ]
    );
    // The block of the file at the token is lost, which shows nowhere.
    let with = |path: &str, record: fn() -> Option<FileRecord>| {
        plan.iter()
            .map(|v| Ok(found(&v.path, if v.path == path { record() } else { None })))
            .collect::<Vec<Result<FoundInode, FsError>>>()
    };
    let entries = fs.cv_metadata_snapshot_entries(&plan, with("/a/x", || one_block(true)));
    let entries = entries.ok().unwrap();
    let shown: Vec<&str> = entries.iter().map(|e| e.status.path.as_str()).collect();
    assert_eq!(shown, ["/a/y", "/a/y/z", "/b"]);

    let entries = fs.cv_metadata_snapshot_entries(&plan, with("/b", || one_block(false)));
    let entries = entries.ok().unwrap();
    assert!(entries[0].blocks.is_none());
    assert_eq!(entries[2].blocks.as_ref().unwrap().block_locs[0].block.id, 77);

    let refused = fs.cv_metadata_snapshot_entries(&plan, with("/b", || one_block(true)));
    let lost = FsError::BlockLost { path: "/b".to_string(), block_id: 77 };
    assert_eq!(refused.err(), Some(lost));

    // The first failure decides.
    let mut gone = with("/b", || one_block(true));
    gone[0] = Err(FsError::FileNotFound { path: "r".to_string(), inode_id: None });
    let refused = fs.cv_metadata_snapshot_entries(&plan, gone);
    let missing = FsError::FileNotFound { path: "r".to_string(), inode_id: None };
    assert_eq!(refused.err(), Some(missing));
}

#[test]
fn delta_shows_what_stands_at_each_path() {
    let fs = service();
    let changed = MasterFilesystem::cv_metadata_changed_paths(
        ["/d", "/b", "/c", "/a"].iter().map(|p| change(p, false)).collect(),
    );
    let nodes = vec![
        at("a", PathLookup::Unresolved, vec![]),
        at("b", PathLookup::Found(found("b", one_block(false))), vec![]),
        at("c", PathLookup::Missing, vec![]),
        // What lies below does not count for a path that changed alone.
        at("d", mirror(&tree()).lookup, vec![at("x", unreadable("io"), vec![])]),
    ];
    let entries = fs.cv_metadata_delta_entries(&changed, nodes).ok().unwrap();
    let seen: Vec<(&str, Option<&str>)> = entries
        .iter()
        .map(|e| (e.path.as_str(), e.entry.as_ref().map(|x| x.status.path.as_str())))
        .collect();
    assert_eq!(
        seen,
        vec![("/a", None), ("/b", Some("/b")), ("/c", None), ("/d", Some("/d"))]
    );
    let blocks = entries[1].entry.as_ref().unwrap().blocks.as_ref().unwrap();
    assert_eq!(blocks.block_locs[0].block.id, 77);
    let page = MasterFilesystem::cv_metadata_delta_page(entries, None, 3, 1, 2);
    assert_eq!(page.next_page_token.as_deref(), Some("/c"));

    let lost = PathLookup::Found(found("c", one_block(true)));
    assert_eq!(
        fs.cv_metadata_entry_for_path("/c", lost).err(),
        Some(FsError::BlockLost { path: "/c".to_string(), block_id: 77 })
    );
}

#[test]
fn first_failure_on_the_way_through_the_changes_decides() {
    let fs = service();
    let changed = MasterFilesystem::cv_metadata_changed_paths(vec![
        change("/a", true),
        change("/a-b", false),
    ]);
    let dir = |children: Vec<DeltaNode>| {
        let lookup = mirror(&tree()).lookup;
        at("a", lookup, children)
    };
    // The subtree comes before the next change, though not in the dictionary.
    let nodes = vec![
        dir(vec![at("w", PathLookup::Missing, vec![]), at("x", unreadable("below"), vec![])]),
        at("a-b", unreadable("beside"), vec![]),
    ];
    let refused = fs.cv_metadata_delta_entries(&changed, nodes);
    assert_eq!(refused.err().unwrap().message(), "below");

    let nodes = vec![dir(vec![]), at("a-b", unreadable("beside"), vec![])];
    let refused = fs.cv_metadata_delta_entries(&changed, nodes);
    assert_eq!(refused.err().unwrap().message(), "beside");

    // Below what is not found as a directory nothing is visited.
    let nodes = vec![
        at("a", PathLookup::Unresolved, vec![at("x", unreadable("below"), vec![])]),
        at("a-b", PathLookup::Missing, vec![]),
    ];
    let entries = fs.cv_metadata_delta_entries(&changed, nodes).ok().unwrap();
    assert_eq!(shown(&entries), ["/a", "/a-b"]);

    let nodes = vec![
        dir(vec![at("x", PathLookup::Missing, vec![])]),
        at("a-b", PathLookup::Missing, vec![]),
    ];
    let entries = fs.cv_metadata_delta_entries(&changed, nodes).ok().unwrap();
    assert_eq!(shown(&entries), ["/a", "/a-b", "/a/x"]);
}

#[test]
fn path_that_is_visited_twice_shows_what_was_found_last() {
    let changed = MasterFilesystem::cv_metadata_changed_paths(vec![
        change("/a", true),
        change("/a/x", false),
    ]);
    let nodes = vec![
        at(
            "a",
            mirror(&tree()).lookup,
            vec![at("x", PathLookup::Found(found("x", None)), vec![])],
        ),
        at("x", PathLookup::Missing, vec![]),
    ];
    let entries = service().cv_metadata_delta_entries(&changed, nodes).ok().unwrap();
    assert_eq!(shown(&entries), ["/a", "/a/x"]);
    assert!(entries[0].entry.is_some() && entries[1].entry.is_none());
}

#[test]
fn values_by_path_are_in_dictionary_order() {
    let mut map: PathMap<u32> = PathMap::new();
    for (path, value) in [("/b", 1), ("/a", 2), ("/c", 3), ("/b", 4)] {
        map.insert(path.to_string(), value);
    }
    let listed: Vec<(&str, u32)> = map.entries.iter().map(|(p, v)| (p.as_str(), *v)).collect();
    assert_eq!(listed, vec![("/a", 2), ("/b", 4), ("/c", 3)]);
}

#[test]
fn page_of_the_greatest_size_holds_everything() {
    let last = page(&tree(), None, usize::MAX);
    assert_eq!(paths(&last), ALL);
    assert_eq!(last.next_page_token, None);
}
