use tboard::event::Audio;
use tboard::event::Event;
use tboard::event::Histogram;
use tboard::event::LogMessage;
use tboard::event::SessionLog;
use tboard::event::SourceMetadata;
use tboard::event::Summary;
use tboard::event::SummaryPayload;
use tboard::event::SummaryValue;
use tboard::event::TaggedRunMetadata;
use tboard::event::What;
use tboard::EventWriter;
use tboard::SummaryReader;
use tboard::SummaryWriter;

#[test]
fn encoded_len_matches_encoding() {
    let event = Event {
        wall_time_bits: 1.0f64.to_bits(),
        step: 5,
        what: Some(What::GraphDef(vec![1, 2, 3])),
        source_metadata: None,
    };
    assert_eq!(tboard::encode::encoded_len(&event), tboard::encode::encode_event(&event).len());
    // wall time (9) + step (2) + graph bytes field (5).
    assert_eq!(tboard::encode::encoded_len(&event), 16);
}

fn read_all(bytes: Vec<u8>) -> Vec<Event> {
    let mut reader = SummaryReader::new(bytes);
    let mut events = Vec::new();
    while let Some(item) = reader.next() {
        events.push(item.expect("valid log"));
    }
    events
}

fn expect_file_version(e: &Event, wall_time_bits: u64) {
    assert_eq!(e.wall_time_bits, wall_time_bits);
    assert_eq!(e.step, 0);
    match &e.what {
        Some(What::FileVersion(v)) => assert_eq!(v, "brain.Event:2"),
        _ => panic!("first event must carry the file version"),
    }
}

fn single_value(e: &Event) -> &SummaryValue {
    match &e.what {
        Some(What::Summary(s)) => {
            assert_eq!(s.values.len(), 1);
            &s.values[0]
        }
        _ => panic!("expected a summary event"),
    }
}

// The end-to-end scenario: a fresh writer, one scalar tagged "loss" with
// value 0.5 at step 10, read back as exactly two events.
#[test]
fn scalar_end_to_end() {
    let wt = 1700000000.25f64.to_bits();
    let mut writer = EventWriter::from_writer(None, wt);
    writer.write_scalar(10, "loss", 0.5f32.to_bits(), wt).unwrap();
    let events = read_all(writer.into_bytes());
    assert_eq!(events.len(), 2);
    expect_file_version(&events[0], wt);
    assert_eq!(events[1].step, 10);
    let value = single_value(&events[1]);
    assert_eq!(value.tag, "loss");
    assert_eq!(value.node_name, "");
    match value.value {
        Some(SummaryPayload::SimpleValue(bits)) => assert_eq!(f32::from_bits(bits), 0.5),
        _ => panic!("expected a scalar value"),
    }
}

#[test]
fn many_events_come_back_in_order() {
    let wt = 2.0f64.to_bits();
    let mut writer = SummaryWriter::new(wt);
    for step in 0..50i64 {
        let tag = format!("metric{}", step % 7);
        writer.write_scalar(step, &tag, (step as f32).to_bits(), wt).unwrap();
    }
    let events = read_all(writer.into_bytes());
    assert_eq!(events.len(), 51);
    for step in 0..50i64 {
        let e = &events[(step + 1) as usize];
        assert_eq!(e.step, step);
        let value = single_value(e);
        assert_eq!(value.tag, format!("metric{}", step % 7));
        match value.value {
            Some(SummaryPayload::SimpleValue(bits)) => {
                assert_eq!(f32::from_bits(bits), step as f32)
            }
            _ => panic!("expected a scalar value"),
        }
    }
}

#[test]
fn negative_step_round_trips() {
    let wt = 0u64;
    let mut writer = SummaryWriter::new(wt);
    writer.write_scalar(-1, "t", 0.0f32.to_bits(), wt).unwrap();
    writer.write_scalar(i64::MIN, "u", 1.0f32.to_bits(), wt).unwrap();
    let events = read_all(writer.into_bytes());
    assert_eq!(events[1].step, -1);
    assert_eq!(events[2].step, i64::MIN);
    // A scalar of 0.0 has an all-zero bit pattern but is still written, being
    // the chosen member of the payload choice.
    match single_value(&events[1]).value {
        Some(SummaryPayload::SimpleValue(bits)) => assert_eq!(bits, 0),
        _ => panic!("expected a scalar value"),
    }
}

#[test]
fn empty_tag_round_trips() {
    let wt = 0u64;
    let mut writer = SummaryWriter::new(wt);
    writer.write_scalar(3, "", 2.5f32.to_bits(), wt).unwrap();
    let events = read_all(writer.into_bytes());
    let value = single_value(&events[1]);
    assert_eq!(value.tag, "");
}

#[test]
fn audio_round_trips() {
    let wt = 3.25f64.to_bits();
    let mut writer = EventWriter::from_writer(None, wt);
    writer
        .write_audio(4, "mic", "audio/wav", vec![1, 2, 3, 4], 2, 1, 44100.0f32.to_bits(), wt)
        .unwrap();
    let events = read_all(writer.into_bytes());
    let value = single_value(&events[1]);
    assert_eq!(value.tag, "mic");
    match &value.value {
        Some(SummaryPayload::Audio(a)) => {
            assert_eq!(f32::from_bits(a.sample_rate_bits), 44100.0);
            assert_eq!(a.num_channels, 1);
            assert_eq!(a.length_frames, 2);
            assert_eq!(a.encoded_audio_string, vec![1, 2, 3, 4]);
            assert_eq!(a.content_type, "audio/wav");
        }
        _ => panic!("expected an audio value"),
    }
}

#[test]
fn histogram_round_trips() {
    let wt = 0u64;
    let mut writer = EventWriter::from_writer(None, wt);
    let bucket: Vec<u64> = [1.0f64, 5.0, 3.0].iter().map(|x| x.to_bits()).collect();
    let limits: Vec<u64> = [0.5f64, 1.5, 2.5].iter().map(|x| x.to_bits()).collect();
    writer
        .write_histo(
            7,
            "weights",
            (-2.0f64).to_bits(),
            2.0f64.to_bits(),
            9.0f64.to_bits(),
            3.5f64.to_bits(),
            11.25f64.to_bits(),
            bucket.clone(),
            limits.clone(),
            wt,
        )
        .unwrap();
    let events = read_all(writer.into_bytes());
    let value = single_value(&events[1]);
    match &value.value {
        Some(SummaryPayload::Histogram(h)) => {
            assert_eq!(f64::from_bits(h.min_bits), -2.0);
            assert_eq!(f64::from_bits(h.max_bits), 2.0);
            assert_eq!(f64::from_bits(h.num_bits), 9.0);
            assert_eq!(f64::from_bits(h.sum_bits), 3.5);
            assert_eq!(f64::from_bits(h.sum_squares_bits), 11.25);
            assert_eq!(h.bucket_bits, bucket);
            assert_eq!(h.bucket_limit_bits, limits);
        }
        _ => panic!("expected a histogram value"),
    }
}

#[test]
fn image_round_trips() {
    let wt = 0u64;
    let mut writer = EventWriter::from_writer(None, wt);
    writer.write_image(8, "pic", 640, 480, 3, vec![9, 8, 7], wt).unwrap();
    let events = read_all(writer.into_bytes());
    let value = single_value(&events[1]);
    match &value.value {
        Some(SummaryPayload::Image(i)) => {
            assert_eq!(i.width, 640);
            assert_eq!(i.height, 480);
            assert_eq!(i.colorspace, 3);
            assert_eq!(i.encoded_image_string, vec![9, 8, 7]);
        }
        _ => panic!("expected an image value"),
    }
}

#[test]
fn tensor_round_trips() {
    let wt = 0u64;
    let mut writer = EventWriter::from_writer(None, wt);
    writer.write_tensor(9, "t", wt).unwrap();
    let events = read_all(writer.into_bytes());
    let value = single_value(&events[1]);
    match &value.value {
        Some(SummaryPayload::Tensor(t)) => assert_eq!(t.dtype, 1),
        _ => panic!("expected a tensor value"),
    }
}

#[test]
fn every_payload_variant_round_trips() {
    let wt = 4.5f64.to_bits();
    let mut writer = SummaryWriter::new(wt);
    writer.write(1, What::GraphDef(vec![0, 255, 17]), wt).unwrap();
    writer
        .write(2, What::LogMessage(LogMessage { level: 20, message: "hello".to_string() }), wt)
        .unwrap();
    writer
        .write(
            3,
            What::SessionLog(SessionLog {
                status: 2,
                checkpoint_path: "/tmp/ckpt".to_string(),
                msg: "saved".to_string(),
            }),
            wt,
        )
        .unwrap();
    writer
        .write(
            4,
            What::TaggedRunMetadata(TaggedRunMetadata {
                tag: "run0".to_string(),
                run_metadata: vec![42],
            }),
            wt,
        )
        .unwrap();
    let events = read_all(writer.into_bytes());
    assert_eq!(events.len(), 5);
    match &events[1].what {
        Some(What::GraphDef(b)) => assert_eq!(b, &vec![0, 255, 17]),
        _ => panic!("expected a graph definition"),
    }
    match &events[2].what {
        Some(What::LogMessage(m)) => {
            assert_eq!(m.level, 20);
            assert_eq!(m.message, "hello");
        }
        _ => panic!("expected a log message"),
    }
    match &events[3].what {
        Some(What::SessionLog(m)) => {
            assert_eq!(m.status, 2);
            assert_eq!(m.checkpoint_path, "/tmp/ckpt");
            assert_eq!(m.msg, "saved");
        }
        _ => panic!("expected a session log"),
    }
    match &events[4].what {
        Some(What::TaggedRunMetadata(m)) => {
            assert_eq!(m.tag, "run0");
            assert_eq!(m.run_metadata, vec![42]);
        }
        _ => panic!("expected tagged run metadata"),
    }
}

#[test]
fn full_event_with_source_metadata_round_trips() {
    let wt = 6.75f64.to_bits();
    let mut writer = SummaryWriter::new(wt);
    let event = Event {
        wall_time_bits: wt,
        step: -7,
        what: Some(What::Summary(Summary {
            values: vec![
                SummaryValue {
                    node_name: "node/a".to_string(),
                    tag: "x".to_string(),
                    value: Some(SummaryPayload::SimpleValue(1.25f32.to_bits())),
                },
                SummaryValue {
                    node_name: String::new(),
                    tag: "y".to_string(),
                    value: None,
                },
                SummaryValue {
                    node_name: String::new(),
                    tag: "z".to_string(),
                    value: Some(SummaryPayload::ObsoleteHistogram(vec![1, 2])),
                },
            ],
        })),
        source_metadata: Some(SourceMetadata { writer: "tboard".to_string() }),
    };
    writer.write_event(&event).unwrap();
    let events = read_all(writer.into_bytes());
    assert_eq!(events.len(), 2);
    let e = &events[1];
    assert_eq!(e.step, -7);
    assert_eq!(e.wall_time_bits, wt);
    match &e.source_metadata {
        Some(sm) => assert_eq!(sm.writer, "tboard"),
        None => panic!("source metadata lost"),
    }
    match &e.what {
        Some(What::Summary(s)) => {
            assert_eq!(s.values.len(), 3);
            assert_eq!(s.values[0].node_name, "node/a");
            assert_eq!(s.values[0].tag, "x");
            assert!(matches!(
                s.values[0].value,
                Some(SummaryPayload::SimpleValue(b)) if f32::from_bits(b) == 1.25
            ));
            assert_eq!(s.values[1].tag, "y");
            assert!(s.values[1].value.is_none());
            assert!(matches!(
                &s.values[2].value,
                Some(SummaryPayload::ObsoleteHistogram(b)) if b == &vec![1, 2]
            ));
        }
        _ => panic!("expected a summary"),
    }
}

#[test]
fn unicode_tags_round_trip() {
    let wt = 0u64;
    let mut writer = SummaryWriter::new(wt);
    writer.write_scalar(1, "départ/λ", 7.0f32.to_bits(), wt).unwrap();
    let events = read_all(writer.into_bytes());
    assert_eq!(single_value(&events[1]).tag, "départ/λ");
}

#[test]
fn writer_buffer_matches_into_bytes() {
    let wt = 0u64;
    let mut writer = SummaryWriter::new(wt);
    writer.write_scalar(1, "a", 0.25f32.to_bits(), wt).unwrap();
    let snapshot = writer.buffer().clone();
    assert_eq!(snapshot, writer.into_bytes());
}
