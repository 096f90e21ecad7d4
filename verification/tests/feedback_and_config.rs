use xcp::config::{Config, Reflink};
use xcp::drivers::Drivers;
use xcp::errors::Error;
use xcp::feedback::{should_forward, ChannelUpdater, NoopUpdater, StatusUpdate, StatusUpdater};

#[test]
fn reflink_mode_parses_case_insensitively() {
    assert_eq!(Reflink::from_str("always").unwrap(), Reflink::Always);
    assert_eq!(Reflink::from_str("Always").unwrap(), Reflink::Always);
    assert_eq!(Reflink::from_str("AUTO").unwrap(), Reflink::Auto);
    assert_eq!(Reflink::from_str("auto").unwrap(), Reflink::Auto);
    assert_eq!(Reflink::from_str("never").unwrap(), Reflink::Never);
    assert_eq!(Reflink::from_str("NeVeR").unwrap(), Reflink::Never);
    match Reflink::from_str("sometimes") {
        Err(Error::InvalidArguments(m)) => assert_eq!(m, "sometimes"),
        other => panic!("unexpected {:?}", other.map(|_| ())),
    }
    assert!(Reflink::from_str("").is_err());
}

#[test]
fn driver_names_parse_exactly() {
    assert_eq!(Drivers::from_str("simple").unwrap(), Drivers::Simple);
    assert!(matches!(Drivers::from_str("Simple"), Err(Error::UnknownDriver(_))));
    assert!(matches!(Drivers::from_str("parfile"), Err(Error::UnknownDriver(_))));
}

#[test]
fn default_config_is_well_formed() {
    let c = Config::default();
    assert!(c.num_workers >= 1);
    assert!(c.block_size >= 1);
    assert_eq!(c.reflink, Reflink::Always);
    assert!(!c.no_clobber && !c.no_target_directory && !c.no_perms && !c.fsync);
}

#[test]
fn forwarding_happens_exactly_on_block_boundaries() {
    // 10-byte blocks: forward only when the running total crosses a
    // multiple of ten.
    assert!(!should_forward(0, 4, 10));
    assert!(!should_forward(4, 5, 10));
    assert!(should_forward(9, 1, 10));
    assert!(should_forward(9, 2, 10));
    assert!(!should_forward(10, 9, 10));
    assert!(should_forward(19, 1, 10));
    assert!(should_forward(0, 10, 10));
    assert!(should_forward(5, 100, 10));
    // A zero block size never throttles.
    assert!(should_forward(3, 1, 0));
}

#[test]
fn noop_updater_accepts_everything() {
    let u = NoopUpdater;
    assert!(u.send(StatusUpdate::Copied(1)).is_ok());
    assert!(u.send(StatusUpdate::Size(10)).is_ok());
    assert!(u.send(StatusUpdate::Error(Error::EarlyShutdown)).is_ok());
}

#[test]
fn buffering_sink_deduplicates_small_writes() {
    let mut c = Config::default();
    c.block_size = 10;
    let updater = ChannelUpdater::new(&c);
    let rx = updater.rx_channel();
    // 25 writes of one byte each: the counter crosses 10 and 20, so
    // exactly two Copied updates reach the observer.
    for _ in 0..25 {
        updater.send(StatusUpdate::Copied(1)).unwrap();
    }
    let mut copied_events = 0;
    while let Ok(u) = rx.try_recv() {
        match u {
            StatusUpdate::Copied(n) => {
                assert_eq!(n, 1);
                copied_events += 1;
            }
            _ => panic!("unexpected update"),
        }
    }
    assert_eq!(copied_events, 2);
}

#[test]
fn buffering_sink_forwards_sizes_and_errors_unconditionally() {
    let mut c = Config::default();
    c.block_size = 1000;
    let updater = ChannelUpdater::new(&c);
    let rx = updater.rx_channel();
    updater.send(StatusUpdate::Size(5)).unwrap();
    updater.send(StatusUpdate::Copied(1)).unwrap();
    updater.send(StatusUpdate::Error(Error::EarlyShutdown)).unwrap();
    assert!(matches!(rx.try_recv().unwrap(), StatusUpdate::Size(5)));
    assert!(matches!(rx.try_recv().unwrap(), StatusUpdate::Error(Error::EarlyShutdown)));
    assert!(rx.try_recv().is_err());
}

#[test]
fn sink_survives_loss_of_observer_clone() {
    let c = Config::default();
    let updater = ChannelUpdater::new(&c);
    drop(updater.rx_channel());
    // The updater holds its own receiver clone, so a send still works;
    // this mirrors the receiver handed to an observer being dropped while
    // the updater is alive.
    assert!(updater.send(StatusUpdate::Size(1)).is_ok());
}

#[test]
fn many_files_account_their_bytes_through_one_counter() {
    // 64 files of 1 MiB each, copied in 64 KiB chunks through one shared
    // sink: every chunk lands on a block boundary, so every update is
    // forwarded and the observer's total matches exactly.
    let mut c = Config::default();
    c.block_size = 65536;
    let updater = ChannelUpdater::new(&c);
    let rx = updater.rx_channel();
    for _ in 0..64 {
        let mut remaining = 1048576u64;
        while remaining > 0 {
            let n = remaining.min(c.block_size);
            updater.send(StatusUpdate::Copied(n)).unwrap();
            remaining -= n;
        }
    }
    let mut total = 0u64;
    while let Ok(StatusUpdate::Copied(n)) = rx.try_recv() {
        total += n;
    }
    assert_eq!(total, 64 * 1048576);
}

#[test]
fn every_error_describes_itself() {
    assert!(!Error::InvalidSource.describe().is_empty());
    assert!(!Error::ReflinkFailed.describe().is_empty());
    assert!(!Error::EarlyShutdown.describe().is_empty());
    assert!(!Error::CopyError("x".to_string()).describe().is_empty());
}
