use demux_core::backend::Packetiser;
use demux_core::facade::DemuxerObject;
use demux_core::registry::FullRegister;
use demux_core::simple::LenPrefixPacketiser;
use demux_core::simple::SimpleEngine;
use demux_core::simple::SimpleRaw;
use demux_core::simple::SimpleStructured;
use demux_core::source::ByteSource;
use demux_core::tags::detect_tags;
use demux_core::types::CodecParams;
use demux_core::types::DataUnit;
use demux_core::types::DemuxerError;
use demux_core::types::MediaType;
use demux_core::types::Packet;
use demux_core::types::StreamDesc;
use demux_core::types::TimePoint;

type Facade = DemuxerObject<SimpleStructured, SimpleRaw, LenPrefixPacketiser>;

fn desc(id: u32, index: usize, codec: &str) -> StreamDesc {
    StreamDesc {
        id,
        index,
        media_type: MediaType::Data,
        codec_name: codec.to_string(),
        params: CodecParams::Generic,
    }
}

fn idle_engine() -> SimpleEngine {
    SimpleEngine {
        detect_name: None,
        structured: None,
        raw: None,
        raw_signature: false,
        packetiser_name: "lenpfx".to_string(),
    }
}

fn registry() -> FullRegister {
    let mut reg = FullRegister::new();
    reg.add_demuxer("boxfmt".to_string());
    reg.add_raw_demuxer("rawfmt".to_string());
    reg.add_packetiser("lenpfx".to_string());
    reg
}

#[test]
fn registry_keeps_fallbacks_and_names() {
    let mut reg = registry();
    assert!(reg.find_encoder(&"null".to_string()));
    assert!(reg.find_muxer(&"null".to_string()));
    assert!(reg.find_demuxer(&"boxfmt".to_string()));
    assert!(!reg.find_demuxer(&"rawfmt".to_string()));
    assert!(reg.find_packetiser(&"lenpfx".to_string()));
    assert!(!reg.find_decoder(&"lenpfx".to_string()));
    // registering a name twice keeps the keys unique
    reg.add_demuxer("boxfmt".to_string());
    assert!(reg.find_demuxer(&"boxfmt".to_string()));
}

#[test]
fn forced_name_selects_structured_backend() {
    let reg = registry();
    let mut eng = idle_engine();
    eng.structured = Some(SimpleStructured {
        streams: vec![desc(7, 0, "somecodec")],
        packets: vec![Packet {
            stream: desc(7, 0, "somecodec"),
            pts: Some(42),
            keyframe: true,
            payload: vec![1, 2, 3],
        }],
        duration: 900,
    });
    let forced = Some("boxfmt".to_string());
    let src = ByteSource::new(vec![0u8; 16]);
    let mut dmx = Facade::create(&mut eng, &reg, &"input".to_string(), &forced, false, src);
    assert!(!dmx.is_none());
    assert_eq!(dmx.get_duration(), 900);
    assert_eq!(dmx.get_num_streams(), 1);
    assert_eq!(dmx.get_stream(0).unwrap().id, 7);
    assert!(dmx.get_stream(1).is_none());
    let pkt = dmx.get_frame().unwrap();
    assert_eq!(pkt.pts, Some(42));
    assert_eq!(pkt.payload, vec![1, 2, 3]);
    assert_eq!(dmx.get_frame(), Err(DemuxerError::Eof));
    assert_eq!(dmx.seek(TimePoint::Millis(0)), Ok(()));
}

#[test]
fn forced_name_never_falls_through_to_raw_probing() {
    let reg = registry();
    // the engine would happily serve a raw backend and a packetiser, but a
    // forced name that resolves to no structured demuxer must end empty
    let mut eng = idle_engine();
    eng.raw_signature = true;
    eng.raw = Some(SimpleRaw { streams: vec![desc(1, 0, "lenpfx")], units: vec![], duration: 0 });
    let forced = Some("unknownfmt".to_string());
    let src = ByteSource::new(vec![2, 0xAA, 0xBB, 1, 0xCC]);
    let dmx = Facade::create(&mut eng, &reg, &"input".to_string(), &forced, false, src);
    assert!(dmx.is_none());
}

#[test]
fn detected_name_selects_structured_backend() {
    let reg = registry();
    let mut eng = idle_engine();
    eng.detect_name = Some("boxfmt".to_string());
    eng.structured = Some(SimpleStructured { streams: vec![desc(3, 0, "x")], packets: vec![], duration: 5 });
    let src = ByteSource::new(vec![0u8; 4]);
    let dmx = Facade::create(&mut eng, &reg, &"input".to_string(), &None, false, src);
    assert!(!dmx.is_none());
    assert_eq!(dmx.get_duration(), 5);
}

#[test]
fn failed_construction_is_no_usable_demuxer() {
    let reg = registry();
    // the forced name resolves, but the engine cannot build the demuxer
    let mut eng = idle_engine();
    let forced = Some("boxfmt".to_string());
    let src = ByteSource::new(vec![0u8; 4]);
    let dmx = Facade::create(&mut eng, &reg, &"input".to_string(), &forced, false, src);
    assert!(dmx.is_none());
}

#[test]
fn empty_source_without_forced_name_gives_empty_facade() {
    let reg = registry();
    let mut eng = idle_engine();
    let src = ByteSource::new(Vec::new());
    let dmx = Facade::create(&mut eng, &reg, &"input".to_string(), &None, false, src);
    assert!(dmx.is_none());
}

#[test]
fn detected_name_selects_raw_container() {
    let reg = registry();
    let mut eng = idle_engine();
    eng.detect_name = Some("rawfmt".to_string());
    eng.raw = Some(SimpleRaw {
        streams: vec![desc(1, 0, "lenpfx")],
        units: vec![DataUnit { stream_id: 1, payload: vec![2, 0xAA, 0xBB] }],
        duration: 77,
    });
    let src = ByteSource::new(vec![0u8; 8]);
    let mut dmx = Facade::create(&mut eng, &reg, &"input".to_string(), &None, false, src);
    assert!(!dmx.is_none());
    assert_eq!(dmx.get_duration(), 77);
    let pkt = dmx.get_frame().unwrap();
    assert_eq!(pkt.payload, vec![0xAA, 0xBB]);
    assert_eq!(dmx.get_frame(), Err(DemuxerError::Eof));
}

#[test]
fn raw_container_two_streams_one_matched_packetiser() {
    let reg = registry();
    let mut eng = idle_engine();
    eng.raw_signature = true;
    eng.raw = Some(SimpleRaw {
        streams: vec![desc(1, 0, "lenpfx"), desc(2, 1, "exotic")],
        units: vec![
            DataUnit { stream_id: 2, payload: vec![0xDE, 0xAD] },
            DataUnit { stream_id: 1, payload: vec![2, 0x61, 0x62, 2, 0x63] },
            DataUnit { stream_id: 2, payload: vec![0xBE, 0xEF] },
            DataUnit { stream_id: 1, payload: vec![0x64] },
        ],
        duration: 0,
    });
    let src = ByteSource::new(vec![0u8; 8]);
    let mut dmx = Facade::create(&mut eng, &reg, &"input".to_string(), &None, false, src);
    assert!(!dmx.is_none());
    assert_eq!(dmx.get_num_streams(), 2);
    // only packets of the matched stream come out, and never an error for
    // the unmatched one
    let p1 = dmx.get_frame().unwrap();
    assert_eq!(p1.stream.id, 1);
    assert_eq!(p1.payload, vec![0x61, 0x62]);
    // the second access unit is reassembled across two raw data units
    let p2 = dmx.get_frame().unwrap();
    assert_eq!(p2.stream.id, 1);
    assert_eq!(p2.payload, vec![0x63, 0x64]);
    // once the container is exhausted and the packetiser drained, the end
    // of the stream is terminal
    assert_eq!(dmx.get_frame(), Err(DemuxerError::Eof));
    assert_eq!(dmx.get_frame(), Err(DemuxerError::Eof));
}

#[test]
fn retired_packetisers_make_end_of_stream_terminal() {
    let reg = registry();
    let mut eng = idle_engine();
    eng.raw_signature = true;
    eng.raw = Some(SimpleRaw {
        // the unit leaves the packetiser with an incomplete access unit
        streams: vec![desc(1, 0, "lenpfx")],
        units: vec![DataUnit { stream_id: 1, payload: vec![9, 1, 2] }],
        duration: 0,
    });
    let src = ByteSource::new(vec![0u8; 8]);
    let mut dmx = Facade::create(&mut eng, &reg, &"input".to_string(), &None, false, src);
    assert!(!dmx.is_none());
    assert_eq!(dmx.get_frame(), Err(DemuxerError::Eof));
    assert_eq!(dmx.get_frame(), Err(DemuxerError::Eof));
    assert_eq!(dmx.get_frame(), Err(DemuxerError::Eof));
}

#[test]
fn bare_elementary_stream_yields_packets_then_eof() {
    let reg = registry();
    let mut eng = idle_engine();
    let data = vec![2, 0xAA, 0xBB, 1, 0xCC, 0, 3, 1, 2, 3];
    let src = ByteSource::new(data);
    let mut dmx = Facade::create(&mut eng, &reg, &"input".to_string(), &None, true, src);
    assert!(!dmx.is_none());
    assert_eq!(dmx.get_num_streams(), 1);
    let table = dmx.get_stream_manager();
    assert_eq!(table.len(), 1);
    assert_eq!(table.get(0).unwrap().codec_name, "lenpfx");
    assert_eq!(dmx.get_duration(), 0);
    assert_eq!(dmx.get_frame().unwrap().payload, vec![0xAA, 0xBB]);
    assert_eq!(dmx.get_frame().unwrap().payload, vec![0xCC]);
    assert_eq!(dmx.get_frame().unwrap().payload, Vec::<u8>::new());
    assert_eq!(dmx.get_frame().unwrap().payload, vec![1, 2, 3]);
    assert_eq!(dmx.get_frame(), Err(DemuxerError::Eof));
    assert_eq!(dmx.seek(TimePoint::Millis(5)), Err(DemuxerError::NotImplemented));
    assert_eq!(dmx.get_supported_options().len(), 0);
    assert_eq!(dmx.query_option_value(&"anything".to_string()), None);
}

#[test]
fn lead_envelope_then_elementary_payload_round_trip() {
    // a leading tag envelope (version 3, flags 0, size 0) in front of a
    // length-prefixed elementary stream
    let payload = vec![2u8, 0x11, 0x22, 1, 0x33];
    let mut data = vec![0x49, 0x44, 0x33, 3, 0, 0, 0, 0, 0, 0];
    data.extend_from_slice(&payload);

    let mut src = ByteSource::new(data.clone());
    let (is_raw, start, end) = detect_tags(&mut src);
    assert_eq!((is_raw, start, end), (true, 10, None));

    let reg = registry();
    let mut eng = idle_engine();
    let bounded = ByteSource::bounded(data, start, end).unwrap();
    let mut dmx = Facade::create(&mut eng, &reg, &"input".to_string(), &None, is_raw, bounded);
    assert!(!dmx.is_none());

    // the same packets as probing the stripped payload directly
    let mut eng2 = idle_engine();
    let mut direct = Facade::create(
        &mut eng2,
        &reg,
        &"input".to_string(),
        &None,
        true,
        ByteSource::new(payload),
    );
    for _ in 0..2 {
        assert_eq!(dmx.get_frame().unwrap(), direct.get_frame().unwrap());
    }
    assert_eq!(dmx.get_frame(), Err(DemuxerError::Eof));
    assert_eq!(direct.get_frame(), Err(DemuxerError::Eof));
}

#[test]
fn packetiser_output_is_chunking_independent() {
    let stream = desc(0, 0, "lenpfx");
    let bytes = vec![2u8, 1, 2, 0, 3, 7, 8, 9, 1, 5];

    let mut whole = LenPrefixPacketiser::new();
    whole.add_data(&bytes);

    let mut pieces = LenPrefixPacketiser::new();
    for chunk in bytes.chunks(3) {
        pieces.add_data(chunk);
    }

    loop {
        let a = whole.get_packet(&stream);
        let b = pieces.get_packet(&stream);
        assert_eq!(a, b);
        if a.is_err() {
            break;
        }
    }
}
