use tbr::collect::{ClassifiedPath, CollectTask, Collector, PathKind};

fn classified(path: &str, kind: PathKind) -> ClassifiedPath {
    ClassifiedPath { path: path.to_string(), kind }
}

#[test]
fn partition_splits_a_mixed_batch() {
    let batch = vec![
        classified("notes.txt", PathKind::File),
        classified("src", PathKind::Directory),
        classified("gone", PathKind::Absent),
        classified(
            "link.cff",
            PathKind::SymbolicLink { target: "CITATION.cff".to_string(), target_exists: true },
        ),
    ];
    let buckets = tbr::collect::partition(&batch);
    assert_eq!(buckets.members, vec!["notes.txt".to_string(), "src".to_string()]);
    assert_eq!(buckets.directories, vec!["src".to_string()]);
    assert_eq!(buckets.link_targets, vec!["CITATION.cff".to_string()]);
}

#[test]
fn broken_symlink_contributes_nothing() {
    let batch = vec![classified(
        "no_such.txt",
        PathKind::SymbolicLink { target: "does_not_exist.txt".to_string(), target_exists: false },
    )];
    let buckets = tbr::collect::partition(&batch);
    assert!(buckets.members.is_empty());
    assert!(buckets.directories.is_empty());
    assert!(buckets.link_targets.is_empty());
}

#[test]
fn live_symlink_schedules_its_target_not_its_name() {
    let batch = vec![classified(
        "main.cff",
        PathKind::SymbolicLink { target: "CITATION.cff".to_string(), target_exists: true },
    )];
    let buckets = tbr::collect::partition(&batch);
    assert!(buckets.members.is_empty());
    assert_eq!(buckets.link_targets, vec!["CITATION.cff".to_string()]);
}

#[test]
fn collector_walks_a_directory_tree_in_order() {
    // Two inputs: a directory and a file.  The directory holds a file and an
    // empty subdirectory; a live link among its children points at a file
    // elsewhere.  Directories are walked first-seen first, each subtree
    // completely, and link targets come last.
    let mut collector = Collector::new(vec!["dir".to_string(), "top.txt".to_string()]);

    match collector.next_task() {
        Some(CollectTask::Classify { paths }) => {
            assert_eq!(paths, vec!["dir".to_string(), "top.txt".to_string()]);
            collector.on_classified(&vec![
                classified("dir", PathKind::Directory),
                classified("top.txt", PathKind::File),
            ]);
        }
        other => panic!("unexpected task {:?}", other),
    }

    match collector.next_task() {
        Some(CollectTask::ReadDirectory { path }) => {
            assert_eq!(path, "dir");
            collector.on_children(vec!["dir/inner.txt".to_string(), "dir/sub".to_string()]);
        }
        other => panic!("unexpected task {:?}", other),
    }

    match collector.next_task() {
        Some(CollectTask::Classify { paths }) => {
            assert_eq!(paths, vec!["dir/inner.txt".to_string(), "dir/sub".to_string()]);
            collector.on_classified(&vec![
                classified("dir/inner.txt", PathKind::File),
                classified(
                    "dir/sub",
                    PathKind::SymbolicLink { target: "elsewhere.txt".to_string(), target_exists: true },
                ),
            ]);
        }
        other => panic!("unexpected task {:?}", other),
    }

    match collector.next_task() {
        Some(CollectTask::Classify { paths }) => {
            assert_eq!(paths, vec!["elsewhere.txt".to_string()]);
            collector.on_classified(&vec![classified("elsewhere.txt", PathKind::File)]);
        }
        other => panic!("unexpected task {:?}", other),
    }

    assert!(collector.finished());
    assert_eq!(
        collector.into_pending(),
        vec![
            "dir".to_string(),
            "top.txt".to_string(),
            "dir/inner.txt".to_string(),
            "elsewhere.txt".to_string(),
        ]
    );
}

#[test]
fn collector_skips_empty_directories() {
    let mut collector = Collector::new(vec!["empty".to_string()]);
    match collector.next_task() {
        Some(CollectTask::Classify { paths }) => {
            assert_eq!(paths, vec!["empty".to_string()]);
            collector.on_classified(&vec![classified("empty", PathKind::Directory)]);
        }
        other => panic!("unexpected task {:?}", other),
    }
    match collector.next_task() {
        Some(CollectTask::ReadDirectory { path }) => {
            assert_eq!(path, "empty");
            collector.on_children(Vec::new());
        }
        other => panic!("unexpected task {:?}", other),
    }
    assert!(collector.finished());
    assert_eq!(collector.into_pending(), vec!["empty".to_string()]);
}

#[test]
fn a_path_given_twice_is_collected_once() {
    let mut collector = Collector::new(vec!["a.txt".to_string(), "a.txt".to_string()]);
    match collector.next_task() {
        Some(CollectTask::Classify { paths }) => {
            assert_eq!(paths, vec!["a.txt".to_string(), "a.txt".to_string()]);
            collector.on_classified(&vec![
                classified("a.txt", PathKind::File),
                classified("a.txt", PathKind::File),
            ]);
        }
        other => panic!("unexpected task {:?}", other),
    }
    assert!(collector.finished());
    assert_eq!(collector.into_pending(), vec!["a.txt".to_string()]);
}

#[test]
fn a_path_reached_twice_is_collected_once() {
    // The file is requested directly and is reachable again as a child of
    // the requested directory; the first occurrence wins its place.
    let mut collector = Collector::new(vec!["dir/f.txt".to_string(), "dir".to_string()]);
    match collector.next_task() {
        Some(CollectTask::Classify { paths }) => {
            assert_eq!(paths, vec!["dir/f.txt".to_string(), "dir".to_string()]);
            collector.on_classified(&vec![
                classified("dir/f.txt", PathKind::File),
                classified("dir", PathKind::Directory),
            ]);
        }
        other => panic!("unexpected task {:?}", other),
    }
    match collector.next_task() {
        Some(CollectTask::ReadDirectory { path }) => {
            assert_eq!(path, "dir");
            collector.on_children(vec!["dir/f.txt".to_string()]);
        }
        other => panic!("unexpected task {:?}", other),
    }
    match collector.next_task() {
        Some(CollectTask::Classify { paths }) => {
            assert_eq!(paths, vec!["dir/f.txt".to_string()]);
            collector.on_classified(&vec![classified("dir/f.txt", PathKind::File)]);
        }
        other => panic!("unexpected task {:?}", other),
    }
    assert!(collector.finished());
    assert_eq!(collector.into_pending(), vec!["dir/f.txt".to_string(), "dir".to_string()]);
}

#[test]
fn collector_reports_broken_links_as_no_members() {
    let mut collector = Collector::new(vec!["no_such.txt".to_string()]);
    match collector.next_task() {
        Some(CollectTask::Classify { paths }) => {
            assert_eq!(paths, vec!["no_such.txt".to_string()]);
            collector.on_classified(&vec![classified(
                "no_such.txt",
                PathKind::SymbolicLink {
                    target: "does_not_exist.txt".to_string(),
                    target_exists: false,
                },
            )]);
        }
        other => panic!("unexpected task {:?}", other),
    }
    assert!(collector.finished());
    assert!(collector.into_pending().is_empty());
}
