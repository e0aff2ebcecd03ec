use gasket_lb::codec::Codec;
use gasket_lb::model::Options;
use gasket_lb::model::Output;
use gasket_lb::model::Status;
use gasket_lb::model::Stream;
use gasket_lb::model::Worker;
use gasket_lb::model::WorkerStats;
use gasket_lb::model::WorkerStatus;
use gasket_lb::reconcile::apply_worker_capabilities;
use gasket_lb::reconcile::apply_worker_info;
use gasket_lb::reconcile::check_worker_outputs;
use gasket_lb::reconcile::mark_worker_up;
use gasket_lb::reconcile::ReportedOutput;

fn output_on(id: u128, uri: &str, codec: Codec, worker: u128) -> Output {
    Output {
        id,
        uri: uri.to_string(),
        codec,
        options: None,
        status: Status::Running,
        worker: Some(worker),
        logs: Vec::new(),
        last_error: None,
    }
}

fn stream(id: u128, name: &str, input: &str, outputs: Vec<Output>) -> Stream {
    Stream {
        id,
        name: name.to_string(),
        input: input.to_string(),
        output: outputs,
        enabled: true,
        status: Status::Running,
    }
}

fn reported(id: u128, name: &str, input: &str, uri: &str, codec: &str) -> ReportedOutput {
    ReportedOutput {
        id,
        name: name.to_string(),
        input: input.to_string(),
        output: uri.to_string(),
        codec: codec.to_string(),
        options: None,
    }
}

#[test]
fn matching_report_changes_nothing() {
    let mut streams = vec![stream(1, "cam", "udp://in", vec![output_on(10, "udp://out", Codec::H264, 7)])];
    let report = vec![reported(10, "cam", "udp://in", "udp://out", "h264")];

    let stops = check_worker_outputs(&mut streams, 7, &report);
    assert!(stops.is_empty());
    assert_eq!(streams[0].output[0].status, Status::Running);
    assert_eq!(streams[0].output[0].worker, Some(7));
    assert!(streams[0].output[0].logs.is_empty());
}

#[test]
fn drifted_destination_gets_stop_but_keeps_running() {
    // The worker reports a different destination URI than expected: a stop
    // goes out, a warning is logged, and the status stays Running until a
    // later tick finds the output absent.
    let mut streams = vec![stream(1, "cam", "udp://in", vec![output_on(10, "udp://out", Codec::H264, 7)])];
    let report = vec![reported(10, "cam", "udp://in", "udp://elsewhere", "h264")];

    let stops = check_worker_outputs(&mut streams, 7, &report);
    assert_eq!(stops.len(), 1);
    assert_eq!(stops[0].stream_id, Some(1));
    assert_eq!(stops[0].output_id, 10);
    assert_eq!(streams[0].output[0].status, Status::Running);
    assert_eq!(streams[0].output[0].worker, Some(7));
    assert_eq!(streams[0].output[0].logs.len(), 1);
    assert_eq!(
        streams[0].output[0].logs[0].what,
        "Output has invalid configuration on worker. Restarting"
    );

    // The subsequent tick: the worker no longer reports the output, and
    // only now is it demoted to Creating.
    let stops = check_worker_outputs(&mut streams, 7, &Vec::new());
    assert!(stops.is_empty());
    assert_eq!(streams[0].output[0].status, Status::Creating);
    assert_eq!(streams[0].output[0].worker, None);
}

#[test]
fn absent_output_is_reset_with_error() {
    let mut streams = vec![stream(1, "cam", "udp://in", vec![output_on(10, "udp://out", Codec::H264, 7)])];

    let stops = check_worker_outputs(&mut streams, 7, &Vec::new());
    assert!(stops.is_empty());
    assert_eq!(streams[0].output[0].status, Status::Creating);
    assert_eq!(streams[0].output[0].worker, None);
    assert_eq!(streams[0].output[0].logs.len(), 1);
    assert_eq!(streams[0].output[0].logs[0].what, "Output is not running on worker. Restarting");
    assert!(streams[0].output[0].last_error.is_some());
}

#[test]
fn disabled_stream_is_freed_and_stopped() {
    let mut streams = vec![stream(1, "cam", "udp://in", vec![output_on(10, "udp://out", Codec::H264, 7)])];
    streams[0].enabled = false;
    let report = vec![reported(10, "cam", "udp://in", "udp://out", "h264")];

    let stops = check_worker_outputs(&mut streams, 7, &report);
    assert_eq!(stops.len(), 1);
    assert_eq!(stops[0].stream_id, Some(1));
    assert_eq!(stops[0].output_id, 10);
    assert_eq!(streams[0].output[0].status, Status::Creating);
    assert_eq!(streams[0].output[0].worker, None);
    // Freeing a disabled stream's output is silent.
    assert!(streams[0].output[0].logs.is_empty());
}

#[test]
fn orphan_is_stopped_without_touching_the_rest() {
    // The worker reports one expected output and one the store never
    // assigned to it.
    let mut streams = vec![stream(1, "cam", "udp://in", vec![output_on(10, "udp://out", Codec::H264, 7)])];
    let report = vec![
        reported(10, "cam", "udp://in", "udp://out", "h264"),
        reported(99, "ghost", "udp://x", "udp://y", "h264"),
    ];

    let stops = check_worker_outputs(&mut streams, 7, &report);
    assert_eq!(stops.len(), 1);
    assert_eq!(stops[0].stream_id, None);
    assert_eq!(stops[0].output_id, 99);
    // The expected output is untouched.
    assert_eq!(streams[0].output[0].status, Status::Running);
    assert_eq!(streams[0].output[0].worker, Some(7));
    assert!(streams[0].output[0].logs.is_empty());
}

#[test]
fn orphan_reported_twice_is_stopped_once() {
    let mut streams: Vec<Stream> = Vec::new();
    let report = vec![
        reported(99, "ghost", "udp://x", "udp://y", "h264"),
        reported(99, "ghost", "udp://x", "udp://y", "h264"),
    ];

    let stops = check_worker_outputs(&mut streams, 7, &report);
    assert_eq!(stops.len(), 1);
    assert_eq!(stops[0].stream_id, None);
    assert_eq!(stops[0].output_id, 99);
}

#[test]
fn outputs_of_other_workers_are_untouched() {
    let mut streams = vec![stream(
        1,
        "cam",
        "udp://in",
        vec![
            output_on(10, "udp://out", Codec::H264, 7),
            output_on(11, "udp://two", Codec::H264, 8),
        ],
    )];

    // Worker 7 reports nothing: its output is reset, worker 8's is not.
    let stops = check_worker_outputs(&mut streams, 7, &Vec::new());
    assert!(stops.is_empty());
    assert_eq!(streams[0].output[0].status, Status::Creating);
    assert_eq!(streams[0].output[1].status, Status::Running);
    assert_eq!(streams[0].output[1].worker, Some(8));
    assert!(streams[0].output[1].logs.is_empty());
}

#[test]
fn drift_in_options_counts() {
    let mut with_options = output_on(10, "udp://out", Codec::H264, 7);
    with_options.options = Some(Options {
        pixel_format: None,
        bitrate: Some("800k".to_string()),
        framerate: None,
        gop_size: None,
        debug_text: None,
        output_format: None,
    });
    let mut streams = vec![stream(1, "cam", "udp://in", vec![with_options])];
    // Reported without options: that is drift.
    let report = vec![reported(10, "cam", "udp://in", "udp://out", "h264")];

    let stops = check_worker_outputs(&mut streams, 7, &report);
    assert_eq!(stops.len(), 1);
    assert_eq!(streams[0].output[0].status, Status::Running);
}

#[test]
fn equal_options_are_no_drift() {
    let options = Options {
        pixel_format: Some("yuv420p".to_string()),
        bitrate: Some("800k".to_string()),
        framerate: None,
        gop_size: Some("60".to_string()),
        debug_text: Some(false),
        output_format: None,
    };
    let mut desired = output_on(10, "udp://out", Codec::H264, 7);
    desired.options = Some(options.clone());
    let mut streams = vec![stream(1, "cam", "udp://in", vec![desired])];
    let mut report_entry = reported(10, "cam", "udp://in", "udp://out", "h264");
    report_entry.options = Some(options);
    let report = vec![report_entry];

    let stops = check_worker_outputs(&mut streams, 7, &report);
    assert!(stops.is_empty());
    assert!(streams[0].output[0].logs.is_empty());
}

#[test]
fn health_and_capability_reports_update_the_worker() {
    let mut workers = vec![Worker {
        id: 7,
        protocol: "http".to_string(),
        host: "a".to_string(),
        public_ip: None,
        udp_ports: Vec::new(),
        codecs: Vec::new(),
        encoder: None,
        status: WorkerStatus::Configuring,
        stats: WorkerStats { utilization: 0, devices: Vec::new() },
        server: None,
        streams: None,
    }];

    mark_worker_up(&mut workers, 7, WorkerStats { utilization: 42, devices: vec![40, 44] });
    assert_eq!(workers[0].status, WorkerStatus::Up);
    assert_eq!(workers[0].stats.utilization, 42);
    assert_eq!(workers[0].stats.devices, vec![40, 44]);

    apply_worker_capabilities(&mut workers, 7, vec![Codec::H264, Codec::AV1], None);
    assert_eq!(workers[0].codecs, vec![Codec::H264, Codec::AV1]);
    assert_eq!(workers[0].encoder, None);

    apply_worker_capabilities(&mut workers, 7, vec![Codec::H264], Some(gasket_lb::codec::Encoder::NVENC));
    assert_eq!(workers[0].encoder, Some(gasket_lb::codec::Encoder::NVENC));

    // An absent encoder report keeps the remembered class.
    apply_worker_capabilities(&mut workers, 7, vec![Codec::H264], None);
    assert_eq!(workers[0].encoder, Some(gasket_lb::codec::Encoder::NVENC));

    apply_worker_info(&mut workers, 7, "gasket test".to_string(), 3);
    assert_eq!(workers[0].server.as_deref(), Some("gasket test"));
    assert_eq!(workers[0].streams, Some(3));

    // A report for an unknown worker changes nothing.
    mark_worker_up(&mut workers, 999, WorkerStats { utilization: 1, devices: Vec::new() });
    assert_eq!(workers[0].stats.utilization, 42);
}
