use file_sink::codec::BoundedCodec;
use file_sink::codec::RawCodec;
use file_sink::error::SinkError;
use file_sink::event::Event;
use file_sink::event::Insight;
use file_sink::event::Reply;
use file_sink::handle::MemHandle;
use file_sink::handle::MemOpener;
use file_sink::postprocess::BoundedChain;
use file_sink::postprocess::LenPrefixChain;
use file_sink::postprocess::NoopChain;
use file_sink::sink::File;
use file_sink::sink::OpConfig;

fn config_for(path: &str) -> Option<OpConfig> {
    Some(OpConfig {
        file: Some(path.to_string()),
    })
}

fn event_of(id: u64, values: Vec<Vec<u8>>) -> Event<Vec<u8>> {
    Event {
        id,
        ingest_ns: 42,
        values,
    }
}

fn ack_replies(id: u64) -> Vec<Reply> {
    vec![Reply::Insight(Insight { id, positive: true })]
}

#[test]
fn from_config_without_config_is_refused() {
    let r = File::<NoopChain, MemHandle>::from_config(&None);
    assert_eq!(r.err(), Some(SinkError::Configuration));
}

#[test]
fn from_config_without_file_field_is_refused() {
    let r = File::<NoopChain, MemHandle>::from_config(&Some(OpConfig { file: None }));
    assert_eq!(r.err(), Some(SinkError::Configuration));
}

#[test]
fn from_config_with_file_succeeds() {
    let sink = File::<NoopChain, MemHandle>::from_config(&config_for("out.log")).unwrap();
    assert!(sink.is_active());
    assert!(sink.auto_ack());
    assert_eq!(sink.default_codec(), "json");
    assert!(sink.active_handle().is_none());
}

#[test]
fn init_with_unrecognized_postprocessor_is_refused() {
    let mut sink = File::<NoopChain, MemHandle>::from_config(&config_for("out.log")).unwrap();
    let specs = vec!["bogus".to_string()];
    let r = sink.init(&specs, &MemOpener::reliable());
    assert_eq!(r.err(), Some(SinkError::Configuration));
    assert!(sink.active_handle().is_none());
}

#[test]
fn init_with_unopenable_path_fails_with_io() {
    let mut sink = File::<NoopChain, MemHandle>::from_config(&config_for("/no/such/dir")).unwrap();
    let opener = MemOpener {
        fail_open: true,
        fail_appends: false,
        fail_flushes: false,
    };
    let r = sink.init(&Vec::new(), &opener);
    assert_eq!(r.err(), Some(SinkError::Io));
    assert!(sink.active_handle().is_none());

    // The uninitialized sink treats event delivery as a safe no-op: it still
    // acknowledges, and nothing is written anywhere.
    let mut codec = RawCodec;
    let event = event_of(9, vec![b"x".to_vec()]);
    let r = sink.on_event(&mut codec, &event);
    assert_eq!(r.unwrap(), Some(ack_replies(9)));
    assert!(sink.active_handle().is_none());
}

#[test]
fn two_values_become_two_lines_and_one_ack() {
    let mut sink = File::<NoopChain, MemHandle>::from_config(&config_for("out.log")).unwrap();
    sink.init(&Vec::new(), &MemOpener::reliable()).unwrap();

    let mut codec = RawCodec;
    let event = event_of(7, vec![br#"{"a":1}"#.to_vec(), br#"{"b":2}"#.to_vec()]);
    let replies = sink.on_event(&mut codec, &event).unwrap();
    assert_eq!(replies, Some(ack_replies(7)));

    let handle = sink.active_handle().unwrap();
    assert_eq!(handle.contents().as_slice(), b"{\"a\":1}\n{\"b\":2}\n");
    assert_eq!(handle.flush_count(), 1);
}

#[test]
fn each_event_is_flushed_once_and_appends() {
    let mut sink = File::<NoopChain, MemHandle>::from_config(&config_for("out.log")).unwrap();
    sink.init(&Vec::new(), &MemOpener::reliable()).unwrap();

    let mut codec = RawCodec;
    sink.on_event(&mut codec, &event_of(1, vec![b"one".to_vec()]))
        .unwrap();
    sink.on_event(&mut codec, &event_of(2, vec![b"two".to_vec()]))
        .unwrap();
    // Delivering the same payload again re-appends it: the sink does not
    // deduplicate.
    sink.on_event(&mut codec, &event_of(3, vec![b"two".to_vec()]))
        .unwrap();

    let handle = sink.active_handle().unwrap();
    assert_eq!(handle.contents().as_slice(), b"one\ntwo\ntwo\n");
    assert_eq!(handle.flush_count(), 3);
}

#[test]
fn empty_event_writes_nothing_but_flushes_and_acks() {
    let mut sink = File::<NoopChain, MemHandle>::from_config(&config_for("out.log")).unwrap();
    sink.init(&Vec::new(), &MemOpener::reliable()).unwrap();

    let mut codec = RawCodec;
    let replies = sink.on_event(&mut codec, &event_of(5, Vec::new())).unwrap();
    assert_eq!(replies, Some(ack_replies(5)));

    let handle = sink.active_handle().unwrap();
    assert!(handle.contents().is_empty());
    assert_eq!(handle.flush_count(), 1);
}

#[test]
fn encode_failure_keeps_earlier_lines_and_gives_no_ack() {
    let mut sink = File::<NoopChain, MemHandle>::from_config(&config_for("out.log")).unwrap();
    sink.init(&Vec::new(), &MemOpener::reliable()).unwrap();

    let mut codec = BoundedCodec { max: 4 };
    let event = event_of(
        11,
        vec![
            b"aa".to_vec(),
            b"bb".to_vec(),
            b"toolong".to_vec(),
            b"cc".to_vec(),
        ],
    );
    let r = sink.on_event(&mut codec, &event);
    assert_eq!(r.err(), Some(SinkError::Encode));

    // The lines written before the failing value stay; nothing was flushed
    // and the remaining values were never attempted.
    let handle = sink.active_handle().unwrap();
    assert_eq!(handle.contents().as_slice(), b"aa\nbb\n");
    assert_eq!(handle.flush_count(), 0);
}

#[test]
fn retried_event_after_fixing_appends_all_lines_again() {
    let mut sink = File::<NoopChain, MemHandle>::from_config(&config_for("out.log")).unwrap();
    sink.init(&Vec::new(), &MemOpener::reliable()).unwrap();

    let mut codec = BoundedCodec { max: 4 };
    let bad = event_of(12, vec![b"aa".to_vec(), b"toolong".to_vec()]);
    assert!(sink.on_event(&mut codec, &bad).is_err());

    let fixed = event_of(12, vec![b"aa".to_vec(), b"ok".to_vec()]);
    sink.on_event(&mut codec, &fixed).unwrap();

    let handle = sink.active_handle().unwrap();
    assert_eq!(handle.contents().as_slice(), b"aa\naa\nok\n");
    assert_eq!(handle.flush_count(), 1);
}

#[test]
fn length_prefix_chain_frames_each_value() {
    let mut sink = File::<LenPrefixChain, MemHandle>::from_config(&config_for("out.log")).unwrap();
    let specs = vec!["length-prefix".to_string()];
    sink.init(&specs, &MemOpener::reliable()).unwrap();

    let mut codec = RawCodec;
    let event = event_of(21, vec![b"abc".to_vec(), b"d".to_vec()]);
    let replies = sink.on_event(&mut codec, &event).unwrap();
    assert_eq!(replies, Some(ack_replies(21)));

    let mut expected: Vec<u8> = Vec::new();
    expected.extend_from_slice(&3u64.to_be_bytes());
    expected.extend_from_slice(b"abc");
    expected.push(b'\n');
    expected.extend_from_slice(&1u64.to_be_bytes());
    expected.extend_from_slice(b"d");
    expected.push(b'\n');

    let handle = sink.active_handle().unwrap();
    assert_eq!(handle.contents(), &expected);
    assert_eq!(handle.flush_count(), 1);
}

#[test]
fn oversized_payload_fails_the_transform() {
    let mut sink = File::<BoundedChain, MemHandle>::from_config(&config_for("out.log")).unwrap();
    let specs = vec!["size-limit".to_string()];
    sink.init(&specs, &MemOpener::reliable()).unwrap();

    let mut codec = RawCodec;
    let small = event_of(31, vec![b"fits".to_vec()]);
    sink.on_event(&mut codec, &small).unwrap();

    let huge = event_of(32, vec![vec![65u8; 2000]]);
    let r = sink.on_event(&mut codec, &huge);
    assert_eq!(r.err(), Some(SinkError::Transform));

    let handle = sink.active_handle().unwrap();
    assert_eq!(handle.contents().as_slice(), b"fits\n");
    assert_eq!(handle.flush_count(), 1);
}

#[test]
fn append_failure_aborts_with_io() {
    let mut sink = File::<NoopChain, MemHandle>::from_config(&config_for("out.log")).unwrap();
    let opener = MemOpener {
        fail_open: false,
        fail_appends: true,
        fail_flushes: false,
    };
    sink.init(&Vec::new(), &opener).unwrap();

    let mut codec = RawCodec;
    let r = sink.on_event(&mut codec, &event_of(41, vec![b"x".to_vec()]));
    assert_eq!(r.err(), Some(SinkError::Io));

    let handle = sink.active_handle().unwrap();
    assert!(handle.contents().is_empty());
    assert_eq!(handle.flush_count(), 0);
}

#[test]
fn flush_failure_aborts_with_io_after_writing() {
    let mut sink = File::<NoopChain, MemHandle>::from_config(&config_for("out.log")).unwrap();
    let opener = MemOpener {
        fail_open: false,
        fail_appends: false,
        fail_flushes: true,
    };
    sink.init(&Vec::new(), &opener).unwrap();

    let mut codec = RawCodec;
    let r = sink.on_event(&mut codec, &event_of(51, vec![b"x".to_vec()]));
    assert_eq!(r.err(), Some(SinkError::Io));

    let handle = sink.active_handle().unwrap();
    assert_eq!(handle.contents().as_slice(), b"x\n");
    assert_eq!(handle.flush_count(), 0);
}

#[test]
fn terminate_swallows_flush_failure() {
    let mut sink = File::<NoopChain, MemHandle>::from_config(&config_for("out.log")).unwrap();
    let opener = MemOpener {
        fail_open: false,
        fail_appends: false,
        fail_flushes: true,
    };
    sink.init(&Vec::new(), &opener).unwrap();

    // The flush inside terminate fails, but terminate returns normally.
    sink.terminate();
    assert!(sink.active_handle().is_none());
}

#[test]
fn terminate_before_init_is_harmless() {
    let mut sink = File::<NoopChain, MemHandle>::from_config(&config_for("out.log")).unwrap();
    sink.terminate();
    assert!(sink.active_handle().is_none());
}

#[test]
fn on_event_after_terminate_is_a_safe_no_op() {
    let mut sink = File::<NoopChain, MemHandle>::from_config(&config_for("out.log")).unwrap();
    sink.init(&Vec::new(), &MemOpener::reliable()).unwrap();
    sink.terminate();

    let mut codec = RawCodec;
    let r = sink.on_event(&mut codec, &event_of(61, vec![b"x".to_vec()]));
    assert_eq!(r.unwrap(), Some(ack_replies(61)));
    assert!(sink.active_handle().is_none());
}

#[test]
fn on_signal_does_nothing_and_replies_nothing() {
    let mut sink = File::<NoopChain, MemHandle>::from_config(&config_for("out.log")).unwrap();
    sink.init(&Vec::new(), &MemOpener::reliable()).unwrap();

    let signal = event_of(71, Vec::new());
    let r = sink.on_signal(&signal);
    assert_eq!(r.unwrap(), None);

    let handle = sink.active_handle().unwrap();
    assert!(handle.contents().is_empty());
    assert_eq!(handle.flush_count(), 0);
}
