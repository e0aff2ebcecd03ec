use gasket_lb::codec::Codec;
use gasket_lb::codec::Encoder;
use gasket_lb::model::LogLevel;
use gasket_lb::model::Status;
use gasket_lb::model::Stream;
use gasket_lb::model::Worker;
use gasket_lb::store::check_all_outputs_running;
use gasket_lb::store::create_stream;
use gasket_lb::store::create_worker;
use gasket_lb::store::dump;
use gasket_lb::store::get_stream;
use gasket_lb::store::get_worker;
use gasket_lb::store::log_output;
use gasket_lb::store::remove_stream;
use gasket_lb::store::remove_worker;
use gasket_lb::store::replace_stream;
use gasket_lb::store::replace_worker;
use gasket_lb::store::reset_state;
use gasket_lb::store::set_output_status;
use gasket_lb::store::NewOutput;
use gasket_lb::store::StoreError;
use gasket_lb::store::update_stream_state;

fn new_stream(streams: &mut Vec<Stream>, name: &str) -> Stream {
    create_stream(
        streams,
        name.to_string(),
        "udp://in".to_string(),
        &vec![NewOutput { uri: "udp://out".to_string(), codec: Codec::H264, options: None }],
    )
}

#[test]
fn created_stream_starts_enabled_and_creating() {
    let mut streams = Vec::new();
    let s = new_stream(&mut streams, "cam");
    assert_eq!(streams.len(), 1);
    assert!(s.enabled);
    assert_eq!(s.status, Status::Creating);
    assert_eq!(s.name, "cam");
    assert_eq!(s.input, "udp://in");
    assert_eq!(s.output.len(), 1);
    assert_eq!(s.output[0].status, Status::Creating);
    assert_eq!(s.output[0].worker, None);
    assert_eq!(s.output[0].codec, Codec::H264);
    assert!(s.output[0].logs.is_empty());
    assert_eq!(s.id, streams[0].id);

    let fetched = get_stream(&streams, s.id).unwrap();
    assert_eq!(fetched.name, "cam");
    assert!(get_stream(&streams, s.id + 1).is_none());
}

#[test]
fn remove_and_replace_report_not_found() {
    let mut streams = Vec::new();
    let s = new_stream(&mut streams, "cam");

    assert_eq!(remove_stream(&mut streams, s.id + 1), Err(StoreError::NotFound));
    assert_eq!(streams.len(), 1);

    let mut edited = get_stream(&streams, s.id).unwrap();
    edited.enabled = false;
    assert_eq!(replace_stream(&mut streams, s.id + 1, edited), Err(StoreError::NotFound));
    let mut edited = get_stream(&streams, s.id).unwrap();
    edited.enabled = false;
    assert_eq!(replace_stream(&mut streams, s.id, edited), Ok(()));
    assert!(!streams[0].enabled);

    assert_eq!(remove_stream(&mut streams, s.id), Ok(()));
    assert!(streams.is_empty());
}

#[test]
fn worker_creation_rejects_duplicate_host() {
    let mut workers: Vec<Worker> = Vec::new();
    let w = create_worker(&mut workers, None, "node1".to_string(), None).unwrap();
    assert_eq!(w.protocol, "http");
    assert_eq!(w.host, "node1");
    assert_eq!(w.stats.utilization, 100);
    assert_eq!(w.encoder, None);

    let again = create_worker(
        &mut workers,
        Some("https".to_string()),
        "node1".to_string(),
        Some("1.2.3.4".to_string()),
    );
    assert_eq!(again.unwrap_err(), StoreError::Conflict);
    assert_eq!(workers.len(), 1);

    let other = create_worker(&mut workers, Some("https".to_string()), "node2".to_string(), None)
        .unwrap();
    assert_eq!(other.protocol, "https");
    assert_eq!(workers.len(), 2);

    assert!(get_worker(&workers, other.id).is_some());
    assert_eq!(remove_worker(&mut workers, 424242), Err(StoreError::NotFound));
    assert_eq!(remove_worker(&mut workers, w.id), Ok(()));
    assert_eq!(workers.len(), 1);
    assert_eq!(workers[0].host, "node2");
}

#[test]
fn replace_worker_swaps_in_place() {
    let mut workers: Vec<Worker> = Vec::new();
    let w = create_worker(&mut workers, None, "node1".to_string(), None).unwrap();
    let _ = create_worker(&mut workers, None, "node2".to_string(), None).unwrap();

    let mut edited = get_worker(&workers, w.id).unwrap();
    edited.public_ip = Some("1.2.3.4".to_string());
    assert_eq!(replace_worker(&mut workers, w.id + 1, edited), Err(StoreError::NotFound));
    let mut edited = get_worker(&workers, w.id).unwrap();
    edited.public_ip = Some("1.2.3.4".to_string());
    assert_eq!(replace_worker(&mut workers, w.id, edited), Ok(()));
    assert_eq!(workers[0].public_ip.as_deref(), Some("1.2.3.4"));
    assert_eq!(workers[1].public_ip, None);
}

#[test]
fn running_needs_every_output() {
    let mut streams = Vec::new();
    let s = create_stream(
        &mut streams,
        "cam".to_string(),
        "udp://in".to_string(),
        &vec![
            NewOutput { uri: "udp://one".to_string(), codec: Codec::H264, options: None },
            NewOutput { uri: "udp://two".to_string(), codec: Codec::H265, options: None },
        ],
    );
    let first = s.output[0].id;
    let second = s.output[1].id;

    set_output_status(&mut streams, s.id, first, Status::Running, Some(7));
    assert!(!check_all_outputs_running(&mut streams, s.id));
    assert_eq!(streams[0].status, Status::Creating);

    set_output_status(&mut streams, s.id, second, Status::Running, Some(8));
    assert!(check_all_outputs_running(&mut streams, s.id));
    assert_eq!(streams[0].status, Status::Running);

    // Demote one again: the aggregate follows on the next recompute.
    set_output_status(&mut streams, s.id, second, Status::Creating, None);
    update_stream_state(&mut streams);
    assert_eq!(streams[0].status, Status::Creating);

    // A stream that is not in the store counts as running.
    assert!(check_all_outputs_running(&mut streams, s.id + 1));
}

#[test]
fn log_skips_consecutive_duplicates_and_keeps_errors() {
    let mut streams = Vec::new();
    let s = new_stream(&mut streams, "cam");
    let oid = s.output[0].id;

    log_output(&mut streams, s.id, oid, "first", LogLevel::Info);
    log_output(&mut streams, s.id, oid, "first", LogLevel::Info);
    assert_eq!(streams[0].output[0].logs.len(), 1);
    assert_eq!(streams[0].output[0].logs[0].what, "first");
    assert!(streams[0].output[0].last_error.is_none());

    log_output(&mut streams, s.id, oid, "broke", LogLevel::Error);
    assert_eq!(streams[0].output[0].logs.len(), 2);
    let last_error = streams[0].output[0].last_error.clone().unwrap();
    assert_eq!(last_error.what, "broke");

    // A repeat of an older, non-latest message is appended again.
    log_output(&mut streams, s.id, oid, "first", LogLevel::Debug);
    assert_eq!(streams[0].output[0].logs.len(), 3);
    // The debug entry did not displace the remembered error.
    assert_eq!(streams[0].output[0].last_error.clone().unwrap().what, "broke");
}

#[test]
fn reset_clears_everything() {
    let mut streams = Vec::new();
    let mut workers = Vec::new();
    let _ = new_stream(&mut streams, "cam");
    let _ = create_worker(&mut workers, None, "node1".to_string(), None).unwrap();

    let snap = dump(&streams, &workers);
    assert_eq!(snap.streams.len(), 1);
    assert_eq!(snap.workers.len(), 1);

    reset_state(&mut streams, &mut workers);
    assert!(streams.is_empty());
    assert!(workers.is_empty());
}

#[test]
fn codec_and_encoder_names() {
    assert_eq!(Codec::H264.ffmpeg_name(), "h264");
    assert_eq!(Codec::H265.ffmpeg_name(), "hevc");
    assert_eq!(Codec::AV1.ffmpeg_name(), "av1");
    assert_eq!(Codec::all(), vec![Codec::H264, Codec::H265, Codec::AV1]);

    assert_eq!(Encoder::NVENC.ffmpeg_name(), "nvenc");
    assert_eq!(Encoder::VideoToolbox.ffmpeg_name(), "videotoolbox");
    assert_eq!(Encoder::U30.ffmpeg_name(), "mpsoc_vcu");
    assert_eq!(Encoder::NIT2A.ffmpeg_name(), "ni_quadra");
    assert_eq!(
        Encoder::all(),
        vec![Encoder::NVENC, Encoder::VideoToolbox, Encoder::U30, Encoder::NIT2A]
    );
}
