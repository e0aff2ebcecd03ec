use gasket_lb::codec::Codec;
use gasket_lb::model::same_dump;
use gasket_lb::model::StateDump;
use gasket_lb::model::Status;
use gasket_lb::persist::restore;
use gasket_lb::store::create_stream;
use gasket_lb::store::create_worker;
use gasket_lb::store::dump;
use gasket_lb::store::set_output_status;
use gasket_lb::store::NewOutput;

fn sample_state() -> (Vec<gasket_lb::model::Stream>, Vec<gasket_lb::model::Worker>) {
    let mut streams = Vec::new();
    let mut workers = Vec::new();
    let _ = create_worker(&mut workers, None, "node1".to_string(), None).unwrap();
    let _ = create_worker(&mut workers, Some("https".to_string()), "node2".to_string(), None)
        .unwrap();
    let _ = create_stream(
        &mut streams,
        "cam".to_string(),
        "udp://in".to_string(),
        &vec![NewOutput { uri: "udp://out".to_string(), codec: Codec::H264, options: None }],
    );
    (streams, workers)
}

#[test]
fn restoring_twice_duplicates_nothing() {
    let (streams, workers) = sample_state();
    let snap = dump(&streams, &workers);

    let mut restored_streams = Vec::new();
    let mut restored_workers = Vec::new();
    restore(&mut restored_streams, &mut restored_workers, &snap);
    assert_eq!(restored_streams.len(), 1);
    assert_eq!(restored_workers.len(), 2);

    // The same snapshot again: no worker is duplicated by host, no stream
    // by identifier.
    restore(&mut restored_streams, &mut restored_workers, &snap);
    assert_eq!(restored_streams.len(), 1);
    assert_eq!(restored_workers.len(), 2);
    assert_eq!(restored_workers[0].host, "node1");
    assert_eq!(restored_workers[1].host, "node2");
}

#[test]
fn restore_merges_without_overwriting() {
    let (mut streams, mut workers) = sample_state();
    let snap = dump(&streams, &workers);

    // The live store moves on: node1 is renamed in place.
    workers[0].protocol = "https".to_string();

    restore(&mut streams, &mut workers, &snap);
    // Hosts already present are skipped, even though the snapshot holds
    // the old protocol: a restore never overwrites.
    assert_eq!(workers.len(), 2);
    assert_eq!(workers[0].protocol, "https");
}

#[test]
fn snapshot_comparison_sees_every_change() {
    let (mut streams, workers) = sample_state();
    let before = dump(&streams, &workers);
    assert!(same_dump(&before, &dump(&streams, &workers)));

    let sid = streams[0].id;
    let oid = streams[0].output[0].id;
    set_output_status(&mut streams, sid, oid, Status::Running, Some(workers[0].id));
    let after = dump(&streams, &workers);
    assert!(!same_dump(&before, &after));
    assert!(same_dump(&after, &dump(&streams, &workers)));
}

#[test]
fn empty_snapshot_changes_nothing() {
    let (mut streams, mut workers) = sample_state();
    let empty = StateDump { streams: Vec::new(), workers: Vec::new() };
    restore(&mut streams, &mut workers, &empty);
    assert_eq!(streams.len(), 1);
    assert_eq!(workers.len(), 2);
}
