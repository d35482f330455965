use arwah::input::ArwahOpts;
use arwah::scan::{
    arwah_adjust_ulimit_size, arwah_bucket_error, arwah_error_capacity, arwah_filter_ports,
    arwah_inter_batch_size, arwah_tcp_probe_verdict, arwah_udp_probe_verdict, ArwahProbeVerdict,
    ArwahScanPool, ArwahUdpOutcome, ArwahUdpPayloadTable, ArwahUdpVerdict,
};

#[test]
fn batch_size_lowered() {
    let opts = ArwahOpts {
        batch_size: 50_000,
        ..ArwahOpts::default()
    };
    let batch_size = arwah_inter_batch_size(&opts, 120);
    assert!(batch_size < opts.batch_size);
}

#[test]
fn batch_size_lowered_average_size() {
    let opts = ArwahOpts {
        batch_size: 50_000,
        ..ArwahOpts::default()
    };
    let batch_size = arwah_inter_batch_size(&opts, 9_000);
    assert!(batch_size == 3_000);
}

#[test]
fn batch_size_equals_ulimit_lowered() {
    let opts = ArwahOpts {
        batch_size: 50_000,
        ..ArwahOpts::default()
    };
    let batch_size = arwah_inter_batch_size(&opts, 5_000);
    assert!(batch_size == 4_900);
}

#[test]
fn batch_size_adjusted_2000() {
    let opts = ArwahOpts {
        batch_size: 50_000,
        ulimit: Some(2_000),
        ..ArwahOpts::default()
    };
    let batch_size = arwah_adjust_ulimit_size(&opts);
    assert!(batch_size == 2_000);
}

#[test]
fn pool_window_never_exceeds_batch_size() {
    let mut pool = ArwahScanPool::arwah_begin(2, 5);
    assert!(pool.arwah_can_launch());
    pool.arwah_launch();
    pool.arwah_launch();
    // the window is full now
    assert!(!pool.arwah_can_launch());
    assert!(pool.outstanding == 2);
    pool.arwah_complete();
    assert!(pool.arwah_can_launch());
    pool.arwah_launch();
    pool.arwah_launch();
    pool.arwah_complete();
    pool.arwah_complete();
    pool.arwah_complete();
    assert!(pool.arwah_can_launch());
    pool.arwah_launch();
    assert!(!pool.arwah_can_launch());
    pool.arwah_complete();
    assert!(pool.arwah_done());
}

#[test]
fn tcp_probe_verdicts() {
    let refused = "Connection refused (os error 111)".to_owned();
    assert_eq!(arwah_tcp_probe_verdict(1, 3, &refused), ArwahProbeVerdict::Retry);
    assert_eq!(arwah_tcp_probe_verdict(3, 3, &refused), ArwahProbeVerdict::Closed);

    let fatal = "Too Many Open Files".to_owned();
    assert_eq!(arwah_tcp_probe_verdict(1, 3, &fatal), ArwahProbeVerdict::Fatal);
    let fatal_wrapped = "error: too many open files while connecting".to_owned();
    assert_eq!(
        arwah_tcp_probe_verdict(2, 2, &fatal_wrapped),
        ArwahProbeVerdict::Fatal
    );
}

#[test]
fn udp_probe_verdicts() {
    assert_eq!(
        arwah_udp_probe_verdict(1, 2, ArwahUdpOutcome::Received),
        ArwahUdpVerdict::Open
    );
    assert_eq!(
        arwah_udp_probe_verdict(1, 2, ArwahUdpOutcome::TimedOut),
        ArwahUdpVerdict::NextTry
    );
    assert_eq!(
        arwah_udp_probe_verdict(2, 2, ArwahUdpOutcome::TimedOut),
        ArwahUdpVerdict::ClosedAllTimedOut
    );
    assert_eq!(
        arwah_udp_probe_verdict(1, 2, ArwahUdpOutcome::Failed),
        ArwahUdpVerdict::Surface
    );
}

#[test]
fn error_bucket_keeps_each_message_once_up_to_capacity() {
    let mut errors: Vec<String> = Vec::new();
    let cap = arwah_error_capacity(2);
    assert_eq!(cap, 2_000);
    arwah_bucket_error(&mut errors, 2, "first".to_owned());
    arwah_bucket_error(&mut errors, 2, "first".to_owned());
    arwah_bucket_error(&mut errors, 2, "second".to_owned());
    arwah_bucket_error(&mut errors, 2, "third".to_owned());
    assert_eq!(errors, vec!["first".to_owned(), "second".to_owned()]);
}

#[test]
fn excluded_ports_are_removed_in_order() {
    let ports = vec![22, 80, 443, 8080, 22];
    let exclude = vec![22, 9000];
    let kept = arwah_filter_ports(&ports, &exclude);
    assert_eq!(kept, vec![80, 443, 8080]);
}

#[test]
fn udp_payload_last_match_wins() {
    let table = ArwahUdpPayloadTable {
        entries: vec![
            (vec![53, 5353], vec![1, 2, 3]),
            (vec![123], vec![9]),
            (vec![53], vec![4, 5]),
        ],
    };
    assert_eq!(table.arwah_payload_for(53), vec![4, 5]);
    assert_eq!(table.arwah_payload_for(5353), vec![1, 2, 3]);
    assert_eq!(table.arwah_payload_for(123), vec![9]);
    assert_eq!(table.arwah_payload_for(80), Vec::<u8>::new());
    let empty = ArwahUdpPayloadTable::arwah_empty();
    assert_eq!(empty.arwah_payload_for(53), Vec::<u8>::new());
}
