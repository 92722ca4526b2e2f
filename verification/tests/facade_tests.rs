use demux_core::backend::Packetiser;
use demux_core::facade::DemuxerObject;
use demux_core::facade::RawContainerState;
use demux_core::facade::RawStreamCtx;
use demux_core::simple::LenPrefixPacketiser;
use demux_core::simple::RejectingPacketiser;
use demux_core::simple::SimpleRaw;
use demux_core::simple::SimpleStructured;
use demux_core::source::ByteSource;
use demux_core::types::CodecParams;
use demux_core::types::DataUnit;
use demux_core::types::DemuxerError;
use demux_core::types::MediaType;
use demux_core::types::OptionEntry;
use demux_core::types::OptionValue;
use demux_core::types::Packet;
use demux_core::types::PacketiserError;
use demux_core::types::StreamDesc;
use demux_core::types::StreamTable;

fn desc(id: u32, index: usize, codec: &str) -> StreamDesc {
    StreamDesc {
        id,
        index,
        media_type: MediaType::Data,
        codec_name: codec.to_string(),
        params: CodecParams::Generic,
    }
}

#[test]
fn fatal_packetiser_error_is_invalid_data() {
    let mut dmx: DemuxerObject<SimpleStructured, SimpleRaw, RejectingPacketiser> =
        DemuxerObject::RawContainer(RawContainerState::new(
            SimpleRaw { streams: vec![desc(1, 0, "odd")], units: vec![], duration: 0 },
            vec![desc(1, 0, "odd")],
            vec![Some(RejectingPacketiser::new())],
        ));
    assert_eq!(dmx.get_frame(), Err(DemuxerError::InvalidData));
}

#[test]
fn fatal_elementary_error_is_invalid_data() {
    let mut dmx: DemuxerObject<SimpleStructured, SimpleRaw, RejectingPacketiser> =
        DemuxerObject::RawElementary(RawStreamCtx {
            stream: desc(0, 0, "odd"),
            sm: StreamTable { streams: vec![desc(0, 0, "odd")] },
            packetiser: RejectingPacketiser::new(),
            src: ByteSource::new(vec![1, 2, 3]),
        });
    assert_eq!(dmx.get_frame(), Err(DemuxerError::InvalidData));
}

#[test]
fn empty_facade_reports_nothing() {
    let dmx: DemuxerObject<SimpleStructured, SimpleRaw, LenPrefixPacketiser> =
        DemuxerObject::Empty;
    assert!(dmx.is_none());
    assert_eq!(dmx.get_duration(), 0);
    assert_eq!(dmx.get_num_streams(), 0);
    assert!(dmx.get_stream(0).is_none());
    assert_eq!(dmx.get_supported_options().len(), 0);
    assert_eq!(dmx.query_option_value(&"any".to_string()), None);
}

#[test]
fn empty_facade_refuses_to_seek() {
    let mut dmx: DemuxerObject<SimpleStructured, SimpleRaw, LenPrefixPacketiser> =
        DemuxerObject::Empty;
    assert_eq!(
        dmx.seek(demux_core::types::TimePoint::Pts(3)),
        Err(DemuxerError::NotImplemented)
    );
}

#[test]
fn stream_enumeration_matches_backend_order() {
    let streams = vec![desc(4, 0, "a"), desc(9, 1, "b")];
    let mut dmx: DemuxerObject<SimpleStructured, SimpleRaw, LenPrefixPacketiser> =
        DemuxerObject::Structured(SimpleStructured {
            streams,
            packets: vec![],
            duration: 11,
        });
    let listed = dmx.get_streams();
    assert_eq!(listed.len(), 2);
    assert_eq!(listed[0].id, 4);
    assert_eq!(listed[1].id, 9);
    let table = dmx.get_stream_manager();
    assert_eq!(table.len(), 2);
    assert_eq!(table.get(1).unwrap().codec_name, "b");
    assert!(table.get(2).is_none());
    assert_eq!(dmx.get_duration(), 11);
    dmx.set_options(&[OptionEntry { name: "verbose".to_string(), value: OptionValue::Flag(true) }]);
    assert_eq!(dmx.query_option_value(&"verbose".to_string()), None);
    assert_eq!(dmx.get_frame(), Err(DemuxerError::Eof));
}

#[test]
fn packetiser_resets_to_fresh_state() {
    let stream = desc(0, 0, "lenpfx");
    let mut p = LenPrefixPacketiser::new();
    p.add_data(&[1, 0xAA]);
    assert_eq!(
        p.get_packet(&stream),
        Ok(Some(Packet { stream: desc(0, 0, "lenpfx"), pts: None, keyframe: true, payload: vec![0xAA] }))
    );
    p.reset();
    assert_eq!(p.get_packet(&stream), Err(PacketiserError::ShortData));
    assert!(matches!(p.parse_stream(0), Err(PacketiserError::ShortData)));
    p.add_data(&[1, 0xBB]);
    let desc0 = p.parse_stream(0).unwrap();
    assert_eq!(desc0.codec_name, "lenpfx");
    assert_eq!(desc0.media_type, MediaType::Data);
    assert_eq!(p.get_packet(&stream).unwrap().unwrap().payload, vec![0xBB]);
}
