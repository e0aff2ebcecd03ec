use gasket_lb::discovery::apply_discovery;
use gasket_lb::discovery::parse_discovery;
use gasket_lb::discovery::parse_entry;
use gasket_lb::model::WorkerStatus;

#[test]
fn two_entries_with_and_without_public_ip() {
    // `http://host1@1.2.3.4;host2` yields two workers: one with the public
    // address, one without, both on the http scheme.
    let found = parse_discovery("http://host1@1.2.3.4;host2");
    assert_eq!(found.len(), 2);
    assert_eq!(found[0].protocol, "http");
    assert_eq!(found[0].host, "host1");
    assert_eq!(found[0].public_ip.as_deref(), Some("1.2.3.4"));
    assert_eq!(found[1].protocol, "http");
    assert_eq!(found[1].host, "host2");
    assert_eq!(found[1].public_ip, None);
}

#[test]
fn scheme_and_host_fold_to_lower_case() {
    let found = parse_discovery("HTTPS://Node-A.Example.COM@10.0.0.9");
    assert_eq!(found.len(), 1);
    assert_eq!(found[0].protocol, "https");
    assert_eq!(found[0].host, "node-a.example.com");
    // The public address is kept as written.
    assert_eq!(found[0].public_ip.as_deref(), Some("10.0.0.9"));
}

#[test]
fn malformed_entries_are_skipped() {
    // Two `@` signs, or two scheme separators, make an entry meaningless;
    // the well-formed neighbours still parse.
    let found = parse_discovery("a@b@c;ok1;x://y://z;ok2");
    assert_eq!(found.len(), 2);
    assert_eq!(found[0].host, "ok1");
    assert_eq!(found[1].host, "ok2");
}

#[test]
fn single_entry_without_separator() {
    assert!(parse_entry("a@b@c").is_none());
    let e = parse_entry("rtsp://cam7").unwrap();
    assert_eq!(e.protocol, "rtsp");
    assert_eq!(e.host, "cam7");
    assert_eq!(e.public_ip, None);
}

#[test]
fn empty_string_is_one_empty_entry() {
    // The separator split keeps empty pieces, so an empty string is one
    // entry with an empty host on the default scheme.
    let found = parse_discovery("");
    assert_eq!(found.len(), 1);
    assert_eq!(found[0].protocol, "http");
    assert_eq!(found[0].host, "");
    assert_eq!(found[0].public_ip, None);
}

#[test]
fn discovered_workers_join_once_by_host() {
    let mut workers = Vec::new();
    let found = parse_discovery("http://host1@1.2.3.4;host2");
    apply_discovery(&mut workers, &found);
    assert_eq!(workers.len(), 2);
    assert_eq!(workers[0].host, "host1");
    assert_eq!(workers[0].protocol, "http");
    assert_eq!(workers[0].public_ip.as_deref(), Some("1.2.3.4"));
    assert_eq!(workers[0].status, WorkerStatus::Configuring);
    assert_eq!(workers[0].stats.utilization, 0);
    assert_eq!(workers[1].host, "host2");
    assert_ne!(workers[0].id, workers[1].id);

    // Applying the same discovery again adds nothing.
    apply_discovery(&mut workers, &found);
    assert_eq!(workers.len(), 2);

    // A host repeated within one discovery string joins once.
    let mut fresh = Vec::new();
    let twice = parse_discovery("host3;host3");
    assert_eq!(twice.len(), 2);
    apply_discovery(&mut fresh, &twice);
    assert_eq!(fresh.len(), 1);
}
