use gasket_lb::codec::Codec;
use gasket_lb::model::Output;
use gasket_lb::model::Status;
use gasket_lb::model::Stream;
use gasket_lb::model::Worker;
use gasket_lb::model::WorkerStats;
use gasket_lb::model::WorkerStatus;
use gasket_lb::reconcile::mark_worker_crashed;
use gasket_lb::reconcile::reset_outputs_of_worker;
use gasket_lb::schedule::choose_worker;
use gasket_lb::schedule::plan_placements;
use gasket_lb::store::set_output_status;

fn worker(id: u128, host: &str, utilization: u32, codecs: Vec<Codec>) -> Worker {
    Worker {
        id,
        protocol: "http".to_string(),
        host: host.to_string(),
        public_ip: None,
        udp_ports: Vec::new(),
        codecs,
        encoder: None,
        status: WorkerStatus::Up,
        stats: WorkerStats { utilization, devices: Vec::new() },
        server: None,
        streams: None,
    }
}

fn output(id: u128, uri: &str, codec: Codec) -> Output {
    Output {
        id,
        uri: uri.to_string(),
        codec,
        options: None,
        status: Status::Creating,
        worker: None,
        logs: Vec::new(),
        last_error: None,
    }
}

fn stream(id: u128, name: &str, input: &str, outputs: Vec<Output>) -> Stream {
    Stream {
        id,
        name: name.to_string(),
        input: input.to_string(),
        output: outputs,
        enabled: true,
        status: Status::Creating,
    }
}

#[test]
fn lowest_utilization_wins() {
    // Workers A{util:10, codecs:[H264]} and B{util:5, codecs:[H264,H265]},
    // both up; one H264 output to place.
    let workers = vec![
        worker(1, "a", 10, vec![Codec::H264]),
        worker(2, "b", 5, vec![Codec::H264, Codec::H265]),
    ];
    let mut streams = vec![stream(100, "cam", "udp://in", vec![output(200, "udp://out", Codec::H264)])];

    let plan = plan_placements(&mut streams, &workers);
    assert_eq!(plan.len(), 1);
    assert_eq!(plan[0].worker_id, 2);
    assert_eq!(plan[0].stream_id, 100);
    assert_eq!(plan[0].output_id, 200);
    assert_eq!(plan[0].host, "b");
    assert_eq!(plan[0].codec, "h264");
    assert_eq!(plan[0].input, "udp://in");
    assert_eq!(plan[0].uri, "udp://out");

    // The caller reports the start succeeded: the output runs on B.
    set_output_status(&mut streams, 100, 200, Status::Running, Some(2));
    assert_eq!(streams[0].output[0].status, Status::Running);
    assert_eq!(streams[0].output[0].worker, Some(2));
    assert_eq!(streams[0].output[0].logs.len(), 1);
    assert_eq!(streams[0].output[0].logs[0].what, "Output is running");
}

#[test]
fn crashed_worker_frees_output_and_another_takes_it() {
    let mut workers = vec![
        worker(1, "a", 10, vec![Codec::H264]),
        worker(2, "b", 5, vec![Codec::H264, Codec::H265]),
    ];
    let mut streams = vec![stream(100, "cam", "udp://in", vec![output(200, "udp://out", Codec::H264)])];

    let plan = plan_placements(&mut streams, &workers);
    assert_eq!(plan[0].worker_id, 2);
    set_output_status(&mut streams, 100, 200, Status::Running, Some(2));

    // B fails its health check.
    mark_worker_crashed(&mut workers, 2);
    reset_outputs_of_worker(&mut streams, 2);
    assert_eq!(workers[1].status, WorkerStatus::Crashed);
    assert_eq!(streams[0].output[0].status, Status::Creating);
    assert_eq!(streams[0].output[0].worker, None);
    // The crash reached the output's log and its last error.
    assert!(streams[0].output[0].logs.iter().any(|e| e.what == "Assigned worker crashed. Restarting"));
    assert!(streams[0].output[0].last_error.is_some());

    // Next tick: only A is up and supports H264.
    let plan = plan_placements(&mut streams, &workers);
    assert_eq!(plan.len(), 1);
    assert_eq!(plan[0].worker_id, 1);
    set_output_status(&mut streams, 100, 200, Status::Running, Some(1));
    assert_eq!(streams[0].output[0].worker, Some(1));
}

#[test]
fn no_eligible_worker_leaves_output_creating_and_logs() {
    // A supports only H264; the output wants H265.
    let workers = vec![worker(1, "a", 10, vec![Codec::H264])];
    let mut streams = vec![stream(100, "cam", "udp://in", vec![output(200, "udp://out", Codec::H265)])];

    let plan = plan_placements(&mut streams, &workers);
    assert!(plan.is_empty());
    assert_eq!(streams[0].output[0].status, Status::Creating);
    assert_eq!(streams[0].output[0].logs.len(), 1);
    assert_eq!(streams[0].output[0].logs[0].what, "No worker available for stream");
    assert!(streams[0].output[0].last_error.is_some());

    // Running it again does not grow the log: the message would repeat.
    let plan = plan_placements(&mut streams, &workers);
    assert!(plan.is_empty());
    assert_eq!(streams[0].output[0].logs.len(), 1);
}

#[test]
fn down_worker_is_not_eligible() {
    let mut crashed = worker(1, "a", 0, vec![Codec::H264]);
    crashed.status = WorkerStatus::Crashed;
    let mut configuring = worker(2, "b", 0, vec![Codec::H264]);
    configuring.status = WorkerStatus::Configuring;
    let workers = vec![crashed, configuring];
    assert_eq!(choose_worker(&workers, Codec::H264), None);
}

#[test]
fn disabled_stream_is_not_scheduled() {
    let workers = vec![worker(1, "a", 10, vec![Codec::H264])];
    let mut streams = vec![stream(100, "cam", "udp://in", vec![output(200, "udp://out", Codec::H264)])];
    streams[0].enabled = false;

    let plan = plan_placements(&mut streams, &workers);
    assert!(plan.is_empty());
    assert!(streams[0].output[0].logs.is_empty());
}

#[test]
fn equal_load_picks_one_of_the_tied() {
    let workers = vec![
        worker(1, "a", 5, vec![Codec::H264]),
        worker(2, "b", 5, vec![Codec::H264]),
    ];
    // The coin decides between the tied candidates; whatever it shows, the
    // pick is one of them.
    let picked = choose_worker(&workers, Codec::H264).unwrap();
    assert!(picked == 0 || picked == 1);
}

#[test]
fn fully_loaded_worker_is_still_eligible() {
    let workers = vec![worker(1, "a", u32::MAX, vec![Codec::H264])];
    assert_eq!(choose_worker(&workers, Codec::H264), Some(0));
}

#[test]
fn repeated_running_marks_log_once() {
    let workers = vec![worker(1, "a", 10, vec![Codec::H264])];
    let mut streams = vec![stream(100, "cam", "udp://in", vec![output(200, "udp://out", Codec::H264)])];
    let _ = plan_placements(&mut streams, &workers);
    set_output_status(&mut streams, 100, 200, Status::Running, Some(1));
    set_output_status(&mut streams, 100, 200, Status::Running, Some(1));
    assert_eq!(streams[0].output[0].logs.len(), 1);
    assert_eq!(streams[0].output[0].logs[0].what, "Output is running");
}

#[test]
fn aggregate_status_follows_outputs() {
    let workers = vec![worker(1, "a", 10, vec![Codec::H264])];
    let mut streams = vec![stream(
        100,
        "cam",
        "udp://in",
        vec![output(200, "udp://one", Codec::H264), output(201, "udp://two", Codec::H264)],
    )];

    set_output_status(&mut streams, 100, 200, Status::Running, Some(1));
    let _ = plan_placements(&mut streams, &workers);
    // One output still awaits placement: the stream is not running.
    assert_eq!(streams[0].status, Status::Creating);

    set_output_status(&mut streams, 100, 201, Status::Running, Some(1));
    let plan = plan_placements(&mut streams, &workers);
    assert!(plan.is_empty());
    assert_eq!(streams[0].status, Status::Running);
}
