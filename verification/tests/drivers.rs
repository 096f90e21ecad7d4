use xcp::config::Config;
use xcp::drivers::{copy_worker_step, CopyDriver, Driver, SingleAction, WorkerAction};
use xcp::errors::Error;
use xcp::feedback::StatusUpdate;
use xcp::operations::{FileKind, Operation, WalkAction, WalkEntry, WalkSource};
use xcp::paths::FsPath;

fn path(parts: &[&str]) -> FsPath {
    FsPath { parts: parts.iter().map(|s| s.as_bytes().to_vec()).collect() }
}

#[test]
fn driver_keeps_its_configuration() {
    let c = Config::default();
    let d = Driver::new(c).unwrap();
    assert_eq!(d.config, c);
}

#[test]
fn single_file_goes_through_the_state_machine() {
    let d = Driver::new(Config::default()).unwrap();
    let r = d.copy_single(FileKind::File, &path(&["a"]), &path(&["b"]), &vec![], false);
    assert_eq!(r.unwrap(), SingleAction::CopyFile);
}

#[test]
fn single_symlink_carries_its_stored_target() {
    let d = Driver::new(Config::default()).unwrap();
    let r = d.copy_single(
        FileKind::Symlink,
        &path(&["a"]),
        &path(&["b"]),
        &b"../stored/target".to_vec(),
        false,
    );
    assert!(matches!(r.unwrap(), SingleAction::MakeLink(t) if t == b"../stored/target".to_vec()));
}

#[test]
fn single_directory_is_caller_misuse() {
    let d = Driver::new(Config::default()).unwrap();
    let r = d.copy_single(FileKind::Dir, &path(&["a"]), &path(&["b"]), &vec![], false);
    assert!(matches!(r, Err(Error::InvalidArguments(_))));
}

#[test]
fn single_special_respects_no_clobber() {
    let mut c = Config::default();
    c.no_clobber = true;
    let d = Driver::new(c).unwrap();
    let r = d.copy_single(FileKind::Fifo, &path(&["a"]), &path(&["b"]), &vec![], true);
    assert!(matches!(r, Err(Error::DestinationExists(p)) if p.parts == path(&["b"]).parts));
    let d2 = Driver::new(Config::default()).unwrap();
    let r2 = d2.copy_single(FileKind::Fifo, &path(&["a"]), &path(&["b"]), &vec![], true);
    assert_eq!(r2.unwrap(), SingleAction::ReplaceSpecial);
    let r3 = d2.copy_single(FileKind::Char, &path(&["a"]), &path(&["b"]), &vec![], false);
    assert_eq!(r3.unwrap(), SingleAction::MakeSpecial);
}

#[test]
fn single_block_device_is_unknown() {
    let d = Driver::new(Config::default()).unwrap();
    let r = d.copy_single(FileKind::Block, &path(&["dev", "sda"]), &path(&["b"]), &vec![], false);
    assert!(matches!(r, Err(Error::UnknownFileType(p))
        if p.parts == path(&["dev", "sda"]).parts));
}

#[test]
fn failed_copies_are_reported_then_raised() {
    let report = xcp::drivers::copy_failure_report(Error::ReflinkFailed);
    assert!(matches!(report.error, Error::ReflinkFailed));
    assert!(matches!(report.update, StatusUpdate::Error(Error::CopyError(_))));
}

#[test]
fn worker_dispatches_copies_and_links() {
    let c = Config::default();
    let op = Operation::Copy(path(&["s", "f"]), path(&["d", "f"]));
    match copy_worker_step(op, false, &c).unwrap() {
        WorkerAction::StartCopy(f, t) => {
            assert_eq!(f.parts, path(&["s", "f"]).parts);
            assert_eq!(t.parts, path(&["d", "f"]).parts);
        }
        _ => panic!("expected a copy"),
    }
    let op = Operation::Link(b"target".to_vec(), path(&["d", "l"]));
    match copy_worker_step(op, false, &c).unwrap() {
        WorkerAction::MakeLink(lt, t) => {
            assert_eq!(lt, b"target".to_vec());
            assert_eq!(t.parts, path(&["d", "l"]).parts);
        }
        _ => panic!("expected a link"),
    }
}

#[test]
fn worker_special_handling_respects_no_clobber() {
    let mut c = Config::default();
    c.no_clobber = true;
    let op = Operation::Special(path(&["s"]), path(&["d"]));
    let r = copy_worker_step(op, true, &c);
    assert!(matches!(r, Err(Error::DestinationExists(p)) if p.parts == path(&["d"]).parts));
    let c2 = Config::default();
    let op = Operation::Special(path(&["s"]), path(&["d"]));
    assert!(matches!(copy_worker_step(op, true, &c2).unwrap(),
        WorkerAction::ReplaceSpecial(_, _)));
    let op = Operation::Special(path(&["s"]), path(&["d"]));
    assert!(matches!(copy_worker_step(op, false, &c2).unwrap(),
        WorkerAction::MakeSpecial(_, _)));
}

#[test]
fn copy_all_plans_like_the_walker() {
    let d = Driver::new(Config::default()).unwrap();
    let sources = vec![WalkSource {
        root: path(&["src"]),
        dest_exists: false,
        entries: vec![
            WalkEntry {
                rel: path(&[]),
                kind: FileKind::Dir,
                len: 0,
                link_target: vec![],
                target_exists: false,
            },
            WalkEntry {
                rel: path(&["f"]),
                kind: FileKind::File,
                len: 3,
                link_target: vec![],
                target_exists: false,
            },
        ],
    }];
    let out = d.copy_all(&sources, &path(&["dest"]));
    assert!(out.result.is_ok());
    assert_eq!(out.plan.len(), 3);
    assert!(matches!(&out.plan[0], WalkAction::CreateDir(_)));
    assert!(matches!(&out.plan[1], WalkAction::SendSize(3)));
    assert!(matches!(&out.plan[2], WalkAction::Enqueue(Operation::Copy(_, _))));
}
