use xcp::config::{Config, Reflink};
use xcp::errors::Error;
use xcp::feedback::{ChannelUpdater, NoopUpdater, StatusUpdate};
use xcp::operations::{CopyAction, CopyEvent, CopyHandle};

fn cfg(reflink: Reflink, block_size: u64) -> Config {
    let mut c = Config::default();
    c.reflink = reflink;
    c.block_size = block_size;
    c
}

#[test]
fn reflink_success_is_silent() {
    let c = cfg(Reflink::Always, 65536);
    let mut h = CopyHandle::new(1048576, &c);
    assert_eq!(h.next_action(), CopyAction::TryReflink);
    let r = h.try_reflink(Ok(true));
    assert!(matches!(r, Ok(true)));
    assert_eq!(h.next_action(), CopyAction::Finish(1048576));
    assert_eq!(h.written, 0);
}

#[test]
fn reflink_never_skips_attempt() {
    let c = cfg(Reflink::Never, 65536);
    let h = CopyHandle::new(1048576, &c);
    assert_eq!(h.next_action(), CopyAction::ProbeSparse);
}

#[test]
fn reflink_declined_always_fails_without_fallback() {
    let c = cfg(Reflink::Always, 65536);
    let mut h = CopyHandle::new(1048576, &c);
    let r = h.try_reflink(Ok(false));
    assert!(matches!(r, Err(Error::ReflinkFailed)));
    assert_eq!(h.next_action(), CopyAction::Abort);
    assert_eq!(h.written, 0);
}

#[test]
fn reflink_declined_auto_falls_through() {
    let c = cfg(Reflink::Auto, 65536);
    let mut h = CopyHandle::new(1048576, &c);
    let r = h.try_reflink(Ok(false));
    assert!(matches!(r, Ok(false)));
    assert_eq!(h.next_action(), CopyAction::ProbeSparse);
}

#[test]
fn reflink_error_propagates() {
    let c = cfg(Reflink::Auto, 65536);
    let mut h = CopyHandle::new(16, &c);
    let r = h.try_reflink(Err(Error::CopyError("io failure".to_string())));
    assert!(matches!(r, Err(Error::CopyError(_))));
    assert_eq!(h.next_action(), CopyAction::Abort);
}

#[test]
fn dense_copy_accounts_every_byte() {
    let c = cfg(Reflink::Auto, 65536);
    let updates = NoopUpdater;
    let mut h = CopyHandle::new(1048576, &c);
    assert!(matches!(h.try_reflink(Ok(false)), Ok(false)));
    h.on_probe(false);
    let mut steps = 0u64;
    loop {
        match h.next_action() {
            CopyAction::CopyBytes(max) => {
                assert_eq!(max, 65536);
                assert!(h.on_copied(max, &updates).is_ok());
                steps += 1;
            }
            CopyAction::Finish(total) => {
                assert_eq!(total, 1048576);
                break;
            }
            other => panic!("unexpected action {:?}", other),
        }
    }
    assert_eq!(steps, 16);
    assert_eq!(h.written, 1048576);
}

#[test]
fn sparse_copy_writes_only_data_runs() {
    // A 1 MiB file with one 4 KiB data region at offset 512 KiB.
    let c = cfg(Reflink::Auto, 65536);
    let updates = NoopUpdater;
    let mut h = CopyHandle::new(1048576, &c);
    assert!(matches!(h.try_reflink(Ok(false)), Ok(false)));
    h.on_probe(true);
    assert_eq!(h.next_action(), CopyAction::NextSegments(0));
    h.on_segments(524288, 528384);
    match h.next_action() {
        CopyAction::CopyBytes(max) => {
            assert_eq!(max, 4096);
            assert!(h.on_copied(4096, &updates).is_ok());
        }
        other => panic!("unexpected action {:?}", other),
    }
    assert_eq!(h.next_action(), CopyAction::NextSegments(528384));
    h.on_segments(1048576, 1048576);
    assert_eq!(h.next_action(), CopyAction::Finish(1048576));
    assert_eq!(h.written, 4096);
}

#[test]
fn short_transfers_make_progress() {
    let c = cfg(Reflink::Never, 8);
    let updates = NoopUpdater;
    let mut h = CopyHandle::new(10, &c);
    h.on_probe(false);
    assert_eq!(h.next_action(), CopyAction::CopyBytes(8));
    assert!(h.on_copied(3, &updates).is_ok());
    assert_eq!(h.next_action(), CopyAction::CopyBytes(7));
    assert!(h.on_copied(7, &updates).is_ok());
    assert_eq!(h.next_action(), CopyAction::Finish(10));
    assert_eq!(h.written, 10);
}

#[test]
fn zero_transfer_is_a_short_read() {
    let c = cfg(Reflink::Never, 8);
    let updates = NoopUpdater;
    let mut h = CopyHandle::new(10, &c);
    h.on_probe(false);
    let r = h.on_copied(0, &updates);
    assert!(matches!(r, Err(Error::CopyError(_))));
    assert_eq!(h.next_action(), CopyAction::Abort);
    assert_eq!(h.written, 0);
}

#[test]
fn empty_file_is_immediately_done() {
    let c = cfg(Reflink::Never, 8);
    let mut h = CopyHandle::new(0, &c);
    h.on_probe(false);
    assert_eq!(h.next_action(), CopyAction::Finish(0));
}

#[test]
fn finalisation_runs_only_after_success() {
    let mut c = cfg(Reflink::Never, 8);
    c.fsync = true;
    let updates = NoopUpdater;
    let mut h = CopyHandle::new(4, &c);
    h.on_probe(false);
    let f = h.finalise_copy();
    assert!(!f.copy_perms && !f.do_sync);
    assert!(h.on_copied(4, &updates).is_ok());
    let f = h.finalise_copy();
    assert!(f.copy_perms && f.do_sync);
    let mut c2 = cfg(Reflink::Never, 8);
    c2.no_perms = true;
    let mut h2 = CopyHandle::new(0, &c2);
    h2.on_probe(false);
    let f2 = h2.finalise_copy();
    assert!(!f2.copy_perms && !f2.do_sync);
}

#[test]
fn copied_updates_reach_the_sink() {
    // A sink that forwards everything (block size 1) sees one update per
    // transfer, in order.
    let c = cfg(Reflink::Never, 1);
    let updater = ChannelUpdater::new(&c);
    let rx = updater.rx_channel();
    let mut h = CopyHandle::new(3, &c);
    h.on_probe(false);
    for _ in 0..3 {
        match h.next_action() {
            CopyAction::CopyBytes(max) => {
                assert_eq!(max, 1);
                assert!(h.on_copied(1, &updater).is_ok());
            }
            other => panic!("unexpected action {:?}", other),
        }
    }
    assert_eq!(h.next_action(), CopyAction::Finish(3));
    let mut total = 0u64;
    let mut events = 0u64;
    while let Ok(u) = rx.try_recv() {
        match u {
            StatusUpdate::Copied(n) => {
                total += n;
                events += 1;
            }
            _ => panic!("unexpected update"),
        }
    }
    assert_eq!(total, 3);
    assert_eq!(events, 3);
}

#[test]
fn copy_file_replays_a_dense_run() {
    // Reflink declined under Auto, dense probe, three transfers.
    let c = cfg(Reflink::Auto, 4);
    let updates = NoopUpdater;
    let mut h = CopyHandle::new(10, &c);
    let events = vec![
        CopyEvent::Reflink(Ok(false)),
        CopyEvent::Probe(false),
        CopyEvent::Copied(4),
        CopyEvent::Copied(4),
        CopyEvent::Copied(2),
    ];
    assert_eq!(h.copy_file(events, &updates).unwrap(), 10);
    assert_eq!(h.written, 10);
}

#[test]
fn copy_file_rejects_a_misfit_outcome() {
    let c = cfg(Reflink::Never, 4);
    let updates = NoopUpdater;
    let mut h = CopyHandle::new(10, &c);
    let events = vec![CopyEvent::Probe(false), CopyEvent::Copied(400)];
    assert!(matches!(h.copy_file(events, &updates), Err(Error::CopyError(_))));
}

#[test]
fn copy_file_needs_enough_outcomes() {
    let c = cfg(Reflink::Never, 4);
    let updates = NoopUpdater;
    let mut h = CopyHandle::new(10, &c);
    let events = vec![CopyEvent::Probe(false), CopyEvent::Copied(4)];
    assert!(matches!(h.copy_file(events, &updates), Err(Error::CopyError(_))));
}

#[test]
fn copy_file_clone_success_needs_one_outcome() {
    let c = cfg(Reflink::Always, 4);
    let updates = NoopUpdater;
    let mut h = CopyHandle::new(99, &c);
    let events = vec![CopyEvent::Reflink(Ok(true))];
    assert_eq!(h.copy_file(events, &updates).unwrap(), 99);
    assert_eq!(h.written, 0);
}
