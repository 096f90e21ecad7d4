use xcp::config::Config;
use xcp::errors::Error;
use xcp::operations::{
    tree_walker, FileKind, Operation, WalkAction, WalkEntry, WalkSource,
};
use xcp::paths::{empty_path, FsPath};

fn path(parts: &[&str]) -> FsPath {
    FsPath { parts: parts.iter().map(|s| s.as_bytes().to_vec()).collect() }
}

fn entry(rel: &[&str], kind: FileKind, len: u64, link: &str, exists: bool) -> WalkEntry {
    WalkEntry {
        rel: path(rel),
        kind,
        len,
        link_target: link.as_bytes().to_vec(),
        target_exists: exists,
    }
}

#[test]
fn small_tree_plans_every_entry() {
    // Source {a: "hello", b/c: "world", l -> a} into an empty destination.
    let cfg = Config::default();
    let sources = vec![WalkSource {
        root: path(&["src"]),
        dest_exists: false,
        entries: vec![
            entry(&[], FileKind::Dir, 0, "", false),
            entry(&["a"], FileKind::File, 5, "", false),
            entry(&["b"], FileKind::Dir, 0, "", false),
            entry(&["b", "c"], FileKind::File, 5, "", false),
            entry(&["l"], FileKind::Symlink, 0, "a", false),
        ],
    }];
    let dest = path(&["dest"]);
    let out = tree_walker(&sources, &dest, &cfg);
    assert!(out.result.is_ok());
    assert_eq!(out.plan.len(), 7);
    assert!(matches!(&out.plan[0], WalkAction::CreateDir(p) if p.parts == path(&["dest"]).parts));
    assert!(matches!(&out.plan[1], WalkAction::SendSize(5)));
    assert!(matches!(&out.plan[2], WalkAction::Enqueue(Operation::Copy(f, t))
        if f.parts == path(&["src", "a"]).parts && t.parts == path(&["dest", "a"]).parts));
    assert!(matches!(&out.plan[3], WalkAction::CreateDir(p) if p.parts == path(&["dest", "b"]).parts));
    assert!(matches!(&out.plan[4], WalkAction::SendSize(5)));
    assert!(matches!(&out.plan[5], WalkAction::Enqueue(Operation::Copy(f, t))
        if f.parts == path(&["src", "b", "c"]).parts && t.parts == path(&["dest", "b", "c"]).parts));
    assert!(matches!(&out.plan[6], WalkAction::Enqueue(Operation::Link(lt, t))
        if lt == b"a" && t.parts == path(&["dest", "l"]).parts));
    let mut size_total = 0u64;
    for a in &out.plan {
        if let WalkAction::SendSize(n) = a {
            size_total += n;
        }
    }
    assert_eq!(size_total, 10);
}

#[test]
fn existing_destination_appends_source_name() {
    let cfg = Config::default();
    let sources = vec![WalkSource {
        root: path(&["tree"]),
        dest_exists: true,
        entries: vec![entry(&[], FileKind::Dir, 0, "", false)],
    }];
    let dest = path(&["dest"]);
    let out = tree_walker(&sources, &dest, &cfg);
    assert!(out.result.is_ok());
    assert!(matches!(&out.plan[0], WalkAction::CreateDir(p)
        if p.parts == path(&["dest", "tree"]).parts));
}

#[test]
fn no_target_directory_uses_destination_verbatim() {
    let mut cfg = Config::default();
    cfg.no_target_directory = true;
    let sources = vec![WalkSource {
        root: path(&["tree"]),
        dest_exists: true,
        entries: vec![entry(&[], FileKind::Dir, 0, "", false)],
    }];
    let dest = path(&["dest"]);
    let out = tree_walker(&sources, &dest, &cfg);
    assert!(out.result.is_ok());
    assert!(matches!(&out.plan[0], WalkAction::CreateDir(p) if p.parts == path(&["dest"]).parts));
}

#[test]
fn no_clobber_conflict_stops_the_walk() {
    // dest/a already exists; the source still contains a.
    let mut cfg = Config::default();
    cfg.no_clobber = true;
    let sources = vec![WalkSource {
        root: path(&["src"]),
        dest_exists: false,
        entries: vec![
            entry(&[], FileKind::Dir, 0, "", false),
            entry(&["a"], FileKind::File, 5, "", true),
            entry(&["b"], FileKind::File, 5, "", false),
        ],
    }];
    let dest = path(&["dest"]);
    let out = tree_walker(&sources, &dest, &cfg);
    assert!(matches!(out.result, Err(Error::EarlyShutdown)));
    assert_eq!(out.plan.len(), 2);
    let mut errors = 0;
    for a in &out.plan {
        if let WalkAction::SendError(e) = a {
            errors += 1;
            assert!(matches!(e, Error::DestinationExists(p)
                if p.parts == path(&["dest", "a"]).parts));
        }
    }
    assert_eq!(errors, 1);
    // No work item was planned for the conflicting file or anything after.
    for a in &out.plan {
        assert!(!matches!(a, WalkAction::Enqueue(_)));
    }
}

#[test]
fn block_devices_are_rejected() {
    let cfg = Config::default();
    let sources = vec![WalkSource {
        root: path(&["src"]),
        dest_exists: false,
        entries: vec![
            entry(&[], FileKind::Dir, 0, "", false),
            entry(&["dev"], FileKind::Block, 0, "", false),
        ],
    }];
    let out = tree_walker(&sources, &path(&["dest"]), &cfg);
    assert!(matches!(out.result, Err(Error::UnknownFileType(p))
        if p.parts == path(&["dest", "dev"]).parts));
    assert_eq!(out.plan.len(), 1);
}

#[test]
fn special_files_are_enqueued() {
    let cfg = Config::default();
    let sources = vec![WalkSource {
        root: path(&["src"]),
        dest_exists: false,
        entries: vec![
            entry(&[], FileKind::Dir, 0, "", false),
            entry(&["pipe"], FileKind::Fifo, 0, "", false),
            entry(&["sock"], FileKind::Socket, 0, "", false),
        ],
    }];
    let out = tree_walker(&sources, &path(&["dest"]), &cfg);
    assert!(out.result.is_ok());
    assert_eq!(out.plan.len(), 3);
    assert!(matches!(&out.plan[1], WalkAction::Enqueue(Operation::Special(f, t))
        if f.parts == path(&["src", "pipe"]).parts && t.parts == path(&["dest", "pipe"]).parts));
}

#[test]
fn an_empty_source_path_is_invalid() {
    let cfg = Config::default();
    let sources = vec![WalkSource { root: path(&[]), dest_exists: false, entries: vec![] }];
    let out = tree_walker(&sources, &path(&["dest"]), &cfg);
    assert!(matches!(out.result, Err(Error::InvalidSource)));
    assert!(out.plan.is_empty());
}

#[test]
fn multiple_sources_walk_in_order() {
    let cfg = Config::default();
    let sources = vec![
        WalkSource {
            root: path(&["one"]),
            dest_exists: false,
            entries: vec![entry(&[], FileKind::File, 7, "", false)],
        },
        WalkSource {
            root: path(&["two"]),
            dest_exists: false,
            entries: vec![entry(&[], FileKind::File, 9, "", false)],
        },
    ];
    let out = tree_walker(&sources, &path(&["dest"]), &cfg);
    assert!(out.result.is_ok());
    assert_eq!(out.plan.len(), 4);
    assert!(matches!(&out.plan[0], WalkAction::SendSize(7)));
    assert!(matches!(&out.plan[2], WalkAction::SendSize(9)));
}

#[test]
fn link_targets_pass_through_byte_for_byte() {
    let cfg = Config::default();
    let sources = vec![WalkSource {
        root: path(&["src"]),
        dest_exists: false,
        entries: vec![
            entry(&[], FileKind::Dir, 0, "", false),
            entry(&["l"], FileKind::Symlink, 0, "../weird/../target", false),
        ],
    }];
    let out = tree_walker(&sources, &path(&["dest"]), &cfg);
    assert!(out.result.is_ok());
    assert!(matches!(&out.plan[1], WalkAction::Enqueue(Operation::Link(lt, _))
        if lt == b"../weird/../target"));
}

#[test]
fn path_operations_behave() {
    let p = path(&["a", "b", "c"]);
    assert!(!empty_path(&p));
    assert!(empty_path(&path(&[])));
    let joined = path(&["x"]).join(&path(&["y", "z"]));
    assert_eq!(joined.parts, path(&["x", "y", "z"]).parts);
    let stripped = p.strip_prefix(&path(&["a", "b"])).unwrap();
    assert_eq!(stripped.parts, path(&["c"]).parts);
    assert!(p.strip_prefix(&path(&["a", "x"])).is_none());
    assert_eq!(p.last_component().unwrap(), b"c".to_vec());
    assert!(path(&[]).last_component().is_none());
    assert_eq!(p.parent().unwrap().parts, path(&["a", "b"]).parts);
    assert!(p.path_eq(&path(&["a", "b", "c"])));
    assert!(!p.path_eq(&path(&["a", "b"])));
}
