use oscar::osc::collect_messages;
use oscar::osc::decode_datagram;
use oscar::osc::received_messages;
use oscar::osc::is_nonzero;
use oscar::osc::startup_messages;
use oscar::osc::OscArg;
use oscar::osc::Bundle;
use oscar::osc::OscColor;
use oscar::osc::OscMessage;
use oscar::osc::OscMidiMessage;
use oscar::osc::Packet;
use oscar::osc::OscTime;

fn msg(addr: &str, args: Vec<OscArg>) -> OscMessage {
    OscMessage { addr: addr.to_string(), args }
}

fn bundle(content: Vec<Packet>) -> Packet {
    Packet::Bundle(Bundle { timetag: OscTime { seconds: 1, fractional: 2 }, content })
}

#[test]
fn single_message_packet() {
    let m = msg("/play", vec![]);
    assert_eq!(collect_messages(&Packet::Message(m.clone())), vec![m]);
}

#[test]
fn nested_bundles_keep_order() {
    let a = msg("/a", vec![OscArg::Int(1)]);
    let b = msg("/b", vec![OscArg::String("x".to_string())]);
    let c = msg("/c", vec![]);
    let d = msg("/d", vec![OscArg::Bool(true)]);
    let p = bundle(vec![
        Packet::Message(a.clone()),
        bundle(vec![Packet::Message(b.clone()), bundle(vec![]), Packet::Message(c.clone())]),
        Packet::Message(d.clone()),
    ]);
    assert_eq!(collect_messages(&p), vec![a, b, c, d]);
}

#[test]
fn empty_bundle_has_no_messages() {
    assert!(collect_messages(&bundle(vec![])).is_empty());
}

#[test]
fn startup_sequence() {
    let msgs = startup_messages();
    assert_eq!(msgs.len(), 11);
    assert_eq!(msgs[0], msg("/device/track/count", vec![OscArg::Int(8)]));
    assert_eq!(msgs[1], msg("/device/track/bank/select", vec![OscArg::Int(1)]));
    for i in 1..=8 {
        assert_eq!(msgs[1 + i as usize], msg("/device/track/bank/select", vec![OscArg::Int(i)]));
    }
    assert_eq!(msgs[10], msg("/device/track/bank/select", vec![OscArg::Int(1)]));
}

#[test]
fn nonzero_float_bits() {
    assert!(!is_nonzero(0.0f32.to_bits()));
    assert!(!is_nonzero((-0.0f32).to_bits()));
    assert!(is_nonzero(1.0f32.to_bits()));
    assert!(is_nonzero(f32::MIN_POSITIVE.to_bits()));
    assert!(is_nonzero(f32::NAN.to_bits()));
    assert!(is_nonzero(f32::NEG_INFINITY.to_bits()));
}

#[test]
fn message_clone_is_equal() {
    let m = msg(
        "/x",
        vec![
            OscArg::Color(OscColor { red: 1, green: 2, blue: 3, alpha: 4 }),
            OscArg::Midi(OscMidiMessage { port: 0, status: 0x90, data1: 60, data2: 100 }),
            OscArg::Time(OscTime { seconds: 5, fractional: 6 }),
            OscArg::Double(2.5f64.to_bits()),
            OscArg::Char('z'),
            OscArg::Nil,
            OscArg::Inf,
        ],
    );
    assert_eq!(m.clone(), m);
}

fn encode(packet: rosc::OscPacket) -> Vec<u8> {
    rosc::encoder::encode(&packet).unwrap()
}

#[test]
fn received_datagram_gives_its_messages_in_order() {
    let inner = rosc::OscPacket::Bundle(rosc::OscBundle {
        timetag: rosc::OscTime { seconds: 0, fractional: 1 },
        content: vec![rosc::OscPacket::Message(rosc::OscMessage {
            addr: "/track/2/pan".to_string(),
            args: vec![rosc::OscType::Float(-0.5)],
        })],
    });
    let outer = rosc::OscPacket::Bundle(rosc::OscBundle {
        timetag: rosc::OscTime { seconds: 0, fractional: 1 },
        content: vec![
            rosc::OscPacket::Message(rosc::OscMessage {
                addr: "/track/1/name".to_string(),
                args: vec![rosc::OscType::String("Drums".to_string())],
            }),
            inner,
            rosc::OscPacket::Message(rosc::OscMessage {
                addr: "/x".to_string(),
                args: vec![
                    rosc::OscType::Array(rosc::OscArray {
                        content: vec![rosc::OscType::Int(3), rosc::OscType::Double(1.25)],
                    }),
                    rosc::OscType::Long(7),
                ],
            }),
        ],
    });
    let (leftover, msgs) = received_messages(&encode(outer)).unwrap();
    assert_eq!(leftover, 0);
    assert_eq!(
        msgs,
        vec![
            msg("/track/1/name", vec![OscArg::String("Drums".to_string())]),
            msg("/track/2/pan", vec![OscArg::Float((-0.5f32).to_bits())]),
            msg(
                "/x",
                vec![
                    OscArg::Array(vec![OscArg::Int(3), OscArg::Double(1.25f64.to_bits())]),
                    OscArg::Long(7),
                ]
            ),
        ]
    );
}

#[test]
fn received_single_message() {
    let bytes = encode(rosc::OscPacket::Message(rosc::OscMessage {
        addr: "/play".to_string(),
        args: vec![],
    }));
    assert_eq!(received_messages(&bytes), Some((0, vec![msg("/play", vec![])])));
}

#[test]
fn undecodable_datagram_gives_nothing() {
    assert_eq!(received_messages(&[1, 2, 3]), None);
    assert_eq!(received_messages(&[]), None);
    assert!(decode_datagram(&[0xff; 8]).is_none());
}

#[test]
fn decoded_packet_keeps_bundle_structure() {
    let bytes = encode(rosc::OscPacket::Bundle(rosc::OscBundle {
        timetag: rosc::OscTime { seconds: 9, fractional: 10 },
        content: vec![],
    }));
    let (rest, packet) = decode_datagram(&bytes).unwrap();
    assert!(rest.is_empty());
    assert_eq!(
        packet,
        bundle_at(OscTime { seconds: 9, fractional: 10 }, vec![])
    );
}

fn bundle_at(timetag: OscTime, content: Vec<Packet>) -> Packet {
    Packet::Bundle(Bundle { timetag, content })
}
