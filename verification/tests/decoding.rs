use larps::capture::{deobfuscate, FrameError, Unpacker};
use larps::dispatch::{apply_message, parse_loa_packet, Outcome, PacketError};
use larps::encode::{
    write_bool, write_i16, write_i32, write_i64, write_i8, write_packed_i64, write_u16,
    write_u32, write_u64, write_u8,
};
use larps::meter::{Action, Data, Meter, MeterError, MeterEvent, SkillData, SkillInfo};
use larps::opcode::Opcode;
use larps::parser::{Arena, ParseError, Parser};
use larps::schema::{Condition, DecodeError, Field, Kind, LiteralOrIdent, Packet, Schema, Value};

fn named(name: &str, kind: Kind) -> Field {
    Field { kind, name: Some(name.to_string()) }
}

fn unnamed(kind: Kind) -> Field {
    Field { kind, name: None }
}

fn packet(name: &str, opcode: Option<u16>, fields: Vec<Field>) -> Packet {
    Packet { name: name.to_string(), fields, opcode }
}

fn text_bytes(text: &str) -> Vec<u8> {
    let units: Vec<u16> = text.encode_utf16().collect();
    let mut out = (units.len() as u16).to_le_bytes().to_vec();
    for unit in units {
        out.extend_from_slice(&unit.to_le_bytes());
    }
    out
}

fn schema() -> Schema {
    Schema {
        packets: vec![
            packet("PktInitEnv", Some(10), vec![unnamed(Kind::U32), named("player_id", Kind::U64)]),
            packet(
                "PcStruct",
                None,
                vec![
                    named("player_id", Kind::U64),
                    named("name", Kind::String(20)),
                    named("class_id", Kind::U16),
                    unnamed(Kind::Skip(2)),
                    named("avg_item_level", Kind::F32),
                    named("character_id", Kind::U64),
                ],
            ),
            packet("PktNewPc", Some(11), vec![named("pc_struct", Kind::Struct("PcStruct".to_string()))]),
            packet(
                "SkillDamageEvent",
                None,
                vec![
                    named("modifier", Kind::U8),
                    named("target_id", Kind::U64),
                    named("damage", Kind::Struct("ReadNBytesInt64".to_string())),
                    named("cur_hp", Kind::PackedI64),
                    named("max_hp", Kind::PackedI64),
                    unnamed(Kind::Optional(Condition::Bool, Box::new(Kind::U8))),
                ],
            ),
            packet(
                "PktSkillDamageNotify",
                Some(12),
                vec![
                    named("source_id", Kind::U64),
                    named(
                        "skill_damage_events",
                        Kind::Array {
                            kind: Box::new(Kind::Struct("SkillDamageEvent".to_string())),
                            len_kind: Box::new(Kind::U16),
                            len: LiteralOrIdent::Literal(50),
                        },
                    ),
                    named("skill_id", Kind::U32),
                ],
            ),
            packet("PktRaidBossKillNotify", Some(13), vec![unnamed(Kind::Bytes(2))]),
            packet("PktDeathNotify", Some(14), vec![named("target_id", Kind::U64)]),
            packet("Loop", Some(15), vec![named("again", Kind::Struct("Loop".to_string()))]),
        ],
    }
}

fn get<'a>(v: &'a Value, name: &str) -> &'a Value {
    v.field(name).unwrap()
}

#[test]
fn written_values_read_back() {
    let mut out = Vec::new();
    write_u8(&mut out, 0xab);
    write_u16(&mut out, 0xbeef);
    write_u32(&mut out, 0xdeadbeef);
    write_u64(&mut out, 0x0123456789abcdef);
    write_i8(&mut out, -128);
    write_i16(&mut out, -2);
    write_i32(&mut out, i32::MIN);
    write_i64(&mut out, -1234567890123);
    write_bool(&mut out, true);
    write_bool(&mut out, false);
    assert_eq!(&out[..3], &[0xab, 0xef, 0xbe]);
    let mut p = Parser::new(&out);
    assert_eq!(p.read_u8(), Ok(0xab));
    assert_eq!(p.read_u16(), Ok(0xbeef));
    assert_eq!(p.read_u32(), Ok(0xdeadbeef));
    assert_eq!(p.read_u64(), Ok(0x0123456789abcdef));
    assert_eq!(p.read_i8(), Ok(-128));
    assert_eq!(p.read_i16(), Ok(-2));
    assert_eq!(p.read_i32(), Ok(i32::MIN));
    assert_eq!(p.read_i64(), Ok(-1234567890123));
    assert_eq!(p.read_bool(), Ok(true));
    assert_eq!(p.read_bool(), Ok(false));
    assert_eq!(p.remaining(), 0);
}

#[test]
fn packed_integers_read_back() {
    let limit = (1i64 << 60) - 1;
    for v in [0i64, 1, -1, 15, 16, -16, 255, 4096, -4097, 1 << 40, limit, -limit, 1000, -250] {
        let mut out = Vec::new();
        assert!(write_packed_i64(&mut out, v));
        out.push(0xaa);
        let mut p = Parser::new(&out);
        assert_eq!(p.read_packed_i64(), Ok(v), "{}", v);
        assert_eq!(p.raw(), &[0xaa]);
    }
    // as few bytes as the value needs
    let mut out = Vec::new();
    write_packed_i64(&mut out, 15);
    assert_eq!(out, vec![0xf0]);
    let mut out = Vec::new();
    write_packed_i64(&mut out, -16);
    assert_eq!(out, vec![0x03, 0x01]);
    // too large a magnitude is not written
    let mut out = vec![9];
    assert!(!write_packed_i64(&mut out, 1 << 60));
    assert!(!write_packed_i64(&mut out, -(1 << 60)));
    assert!(!write_packed_i64(&mut out, i64::MIN));
    assert_eq!(out, vec![9]);
}

#[test]
fn a_message_is_decoded_by_its_layout() {
    let arena = Arena::new();
    let mut message = vec![9, 9, 9, 9];
    message.extend_from_slice(&42u64.to_le_bytes());
    message.push(0xff);
    let v = schema().decode(10, &message, &arena).unwrap();
    assert_eq!(v.unsigned("player_id", u64::MAX), Some(42));
    assert_eq!(v.unsigned("player_id", 41), None);
    assert_eq!(v.signed("player_id"), Some(42));
    assert_eq!(v.unsigned("other", u64::MAX), None);
    assert!(v.text("player_id").is_none());
    assert!(v.list("player_id").is_none());
    match v {
        Value::Record(fields) => assert_eq!(fields.len(), 1),
        other => panic!("no record: {:?}", other),
    }
}

#[test]
fn nested_layouts_texts_and_lists_are_decoded() {
    let arena = Arena::new();
    let mut message = 42u64.to_le_bytes().to_vec();
    message.extend_from_slice(&text_bytes("Ärger"));
    message.extend_from_slice(&102u16.to_le_bytes());
    message.extend_from_slice(&[0, 0]);
    message.extend_from_slice(&1500.0f32.to_bits().to_le_bytes());
    message.extend_from_slice(&4200u64.to_le_bytes());
    let v = schema().decode(11, &message, &arena).unwrap();
    let pc = get(&v, "pc_struct");
    assert_eq!(pc.text("name"), Some("Ärger"));
    assert_eq!(pc.unsigned("class_id", 65535), Some(102));
    assert_eq!(pc.unsigned("avg_item_level", u64::MAX), Some(1500.0f32.to_bits() as u64));
    assert_eq!(pc.unsigned("character_id", u64::MAX), Some(4200));

    let mut message = 42u64.to_le_bytes().to_vec();
    message.extend_from_slice(&2u16.to_le_bytes());
    for (damage, cur_hp, modifier, more) in [(1000i64, -250i64, 0x21u8, true), (5, 5000, 0x00, false)] {
        message.push(modifier);
        message.extend_from_slice(&500u64.to_le_bytes());
        write_packed_i64(&mut message, damage);
        write_packed_i64(&mut message, cur_hp);
        write_packed_i64(&mut message, 10000);
        message.push(more as u8);
        if more {
            message.push(7);
        }
    }
    message.extend_from_slice(&100u32.to_le_bytes());
    let v = schema().decode(12, &message, &arena).unwrap();
    assert_eq!(v.unsigned("skill_id", u64::MAX), Some(100));
    let events = v.list("skill_damage_events").unwrap();
    assert_eq!(events.len(), 2);
    assert_eq!(events[0].signed("damage"), Some(1000));
    assert_eq!(events[0].signed("cur_hp"), Some(-250));
    assert_eq!(events[0].unsigned("modifier", 255), Some(0x21));
    assert_eq!(events[1].signed("max_hp"), Some(10000));
    assert_eq!(events[1].unsigned("cur_hp", u64::MAX), Some(5000));
    assert_eq!(events[0].unsigned("cur_hp", u64::MAX), None);
}

#[test]
fn decoding_fails_cleanly() {
    let arena = Arena::new();
    let s = schema();
    assert_eq!(s.decode(99, &[], &arena).unwrap_err(), DecodeError::UnknownPacket);
    assert_eq!(s.decode(10, &[1, 2, 3], &arena).unwrap_err(), DecodeError::Parse(ParseError::OutOfBytes));
    assert_eq!(s.decode(13, &[1], &arena).unwrap_err(), DecodeError::Parse(ParseError::OutOfBytes));
    assert!(s.decode(13, &[1, 2], &arena).is_ok());
    assert_eq!(s.decode(15, &[], &arena).unwrap_err(), DecodeError::TooDeep);
    let mut message = 42u64.to_le_bytes().to_vec();
    message.extend_from_slice(&[1, 0, 0x00, 0xd8]);
    assert_eq!(s.decode(11, &message, &arena).unwrap_err(), DecodeError::Parse(ParseError::InvalidUtf16));
    let broken = Schema {
        packets: vec![
            packet("A", Some(1), vec![named("x", Kind::Struct("Missing".to_string()))]),
            packet(
                "B",
                Some(2),
                vec![unnamed(Kind::Optional(Condition::Equality("x".to_string(), 1), Box::new(Kind::U8)))],
            ),
            packet(
                "C",
                Some(3),
                vec![named(
                    "x",
                    Kind::Array {
                        kind: Box::new(Kind::U8),
                        len_kind: Box::new(Kind::I8),
                        len: LiteralOrIdent::Literal(4),
                    },
                )],
            ),
        ],
    };
    assert_eq!(broken.decode(1, &[], &arena).unwrap_err(), DecodeError::UnknownStruct);
    assert_eq!(broken.decode(2, &[], &arena).unwrap_err(), DecodeError::BadReference);
    assert_eq!(broken.decode(3, &[0xff], &arena).unwrap_err(), DecodeError::Parse(ParseError::BadLength));
}

#[test]
fn conditions_lists_and_byte_fields() {
    let arena = Arena::new();
    let s = Schema {
        packets: vec![packet(
            "P",
            Some(1),
            vec![
                named("kind", Kind::U8),
                named("count", Kind::I16),
                named(
                    "when_two",
                    Kind::Optional(Condition::Equality("kind".to_string(), 2), Box::new(Kind::U16)),
                ),
                named(
                    "when_more",
                    Kind::If(
                        Condition::Greater("kind".to_string(), 2),
                        vec![named("a", Kind::U8), unnamed(Kind::U8), named("b", Kind::Bool)],
                    ),
                ),
                named(
                    "items",
                    Kind::Array {
                        kind: Box::new(Kind::U8),
                        len_kind: Box::new(Kind::U8),
                        len: LiteralOrIdent::Ident("count".to_string()),
                    },
                ),
                unnamed(Kind::KindedBytes(Box::new(Kind::U16), 3, Some(2))),
                unnamed(Kind::KindedBytes(Box::new(Kind::U8), 3, None)),
                named("pair", Kind::Tuple(vec![named("x", Kind::Angle), named("y", Kind::Vector)])),
                named("date", Kind::Struct("LostArkDateTime".to_string())),
                named("raw", Kind::Bytes(2)),
                named("skill", Kind::Struct("TripodIndex".to_string())),
                named("end", Kind::I8),
            ],
        )],
    };
    let tail = |message: &mut Vec<u8>| {
        message.extend_from_slice(&[2, 0, 1, 2, 3, 4]); // kinded bytes: 2 times 2
        message.extend_from_slice(&[4]); // kinded bytes over the maximum: nothing follows
        message.extend_from_slice(&7u16.to_le_bytes());
        message.extend_from_slice(&8u64.to_le_bytes());
        message.extend_from_slice(&[0xff, 0xff]); // short date
        message.extend_from_slice(&[0xca, 0xfe]);
        message.extend_from_slice(&[1, 2, 3]);
        message.push(0xff);
    };
    // a packet whose `kind` is 2: the optional value is there, the conditional fields are not
    let mut message = vec![2, 3, 0, 0x34, 0x12, 2, 10, 20];
    tail(&mut message);
    let v = s.decode(1, &message, &arena).unwrap();
    match get(&v, "when_two") {
        Value::Optional(Some(inner)) => assert!(matches!(**inner, Value::Unsigned(0x1234))),
        other => panic!("{:?}", other),
    }
    assert!(matches!(get(&v, "when_more"), Value::Optional(None)));
    match get(&v, "items") {
        Value::List(items) => assert_eq!(items.len(), 2),
        other => panic!("{:?}", other),
    }
    assert_eq!(get(&v, "pair").unsigned("x", u64::MAX), Some(7));
    assert_eq!(get(&v, "pair").unsigned("y", u64::MAX), Some(8));
    assert_eq!(v.unsigned("date", u64::MAX), Some(0x11fff));
    assert!(matches!(get(&v, "raw"), Value::Bytes(b) if b == &vec![0xca, 0xfe]));
    assert!(matches!(get(&v, "skill"), Value::Unit));
    assert_eq!(v.signed("end"), Some(-1));
    // a packet whose `kind` is 3: the other way round; the list is longer than the field allows,
    // so nothing of it is read and the fields behind it follow at once
    let mut message = vec![3, 1, 0, 5, 6, 1, 2];
    tail(&mut message);
    let v = s.decode(1, &message, &arena).unwrap();
    assert!(matches!(get(&v, "items"), Value::List(items) if items.is_empty()));
    assert_eq!(v.signed("end"), Some(-1));
    let mut message = vec![3, 1, 0, 5, 6, 1, 1, 10];
    tail(&mut message);
    let v = s.decode(1, &message, &arena).unwrap();
    assert!(matches!(get(&v, "when_two"), Value::Optional(None)));
    match get(&v, "when_more") {
        Value::Optional(Some(inner)) => {
            assert_eq!(inner.unsigned("a", 255), Some(5));
            assert!(matches!(inner.field("b"), Some(Value::Bool(true))));
        }
        other => panic!("{:?}", other),
    }
}

#[test]
fn the_numbers_of_the_packets_come_from_the_layouts() {
    let table = schema().opcode_table();
    assert_eq!(table.from_u16(10), Some(Opcode::InitEnv));
    assert_eq!(table.from_u16(11), Some(Opcode::NewPc));
    assert_eq!(table.from_u16(12), Some(Opcode::SkillDamageNotify));
    assert_eq!(table.from_u16(13), Some(Opcode::RaidBossKillNotify));
    assert_eq!(table.from_u16(14), Some(Opcode::DeathNotify));
    // a layout whose name is no known packet has no entry
    assert_eq!(table.from_u16(15), None);
    assert_eq!(table.to_u16(Opcode::NewPc), Some(11));
    assert_eq!(table.to_u16(Opcode::NewNpc), None);
    assert_eq!(Opcode::from_structure(&"PktRaidBegin".to_string()), Some(Opcode::RaidBegin));
    assert_eq!(Opcode::from_structure(&"RaidBegin".to_string()), None);
}

#[test]
fn values_become_packets_by_the_names_of_their_fields() {
    let arena = Arena::new();
    let mut message = vec![9, 9, 9, 9];
    message.extend_from_slice(&42u64.to_le_bytes());
    let v = schema().decode(10, &message, &arena).unwrap();
    match MeterEvent::from_value(Opcode::InitEnv, &v) {
        Some(MeterEvent::InitEnv(pkt)) => assert_eq!(pkt.player_id, 42),
        _ => panic!("no packet"),
    }
    // the same value is no packet that needs other fields
    assert!(MeterEvent::from_value(Opcode::InitLocal, &v).is_none());
    assert!(MeterEvent::from_value(Opcode::NewPc, &v).is_none());
    // packets without fields need none
    assert!(matches!(MeterEvent::from_value(Opcode::RaidResult, &v), Some(MeterEvent::RaidResult(_))));
    // packets that the meter does not act on
    assert!(MeterEvent::from_value(Opcode::DeathNotify, &v).is_none());
    let record = |fields: Vec<(&str, Value)>| {
        Value::Record(fields.into_iter().map(|(n, v)| (n.to_string(), v)).collect())
    };
    let v = record(vec![
        ("party_instance_id", Value::Unsigned(9)),
        (
            "member_datas",
            Value::List(vec![record(vec![
                ("character_id", Value::Unsigned(4300)),
                ("name", Value::Text("B".to_string())),
                ("class_id", Value::Unsigned(204)),
                ("gear_level", Value::Unsigned(5)),
            ])]),
        ),
    ]);
    match MeterEvent::from_value(Opcode::PartyInfo, &v) {
        Some(MeterEvent::PartyInfo(pkt)) => {
            assert_eq!(pkt.party_instance_id, 9);
            assert_eq!(pkt.member_datas.len(), 1);
            assert_eq!(pkt.member_datas[0].name, "B");
            assert_eq!(pkt.member_datas[0].class_id, 204);
        }
        _ => panic!("no packet"),
    }
    // a number out of its range is no field
    let v = record(vec![("object_id", Value::Unsigned(1)), ("status_effect_ids", Value::List(vec![Value::Signed(-1)]))]);
    assert!(MeterEvent::from_value(Opcode::StatusEffectRemoveNotify, &v).is_none());
    let v = record(vec![("object_id", Value::Unsigned(1)), ("status_effect_ids", Value::List(vec![Value::Signed(7), Value::Unsigned(8)]))]);
    match MeterEvent::from_value(Opcode::StatusEffectRemoveNotify, &v) {
        Some(MeterEvent::StatusEffectRemove(pkt)) => assert_eq!(pkt.status_effect_ids, vec![7, 8]),
        _ => panic!("no packet"),
    }
    // the later of two fields of one name counts
    let v = record(vec![("trigger_signal_type", Value::Unsigned(1)), ("trigger_signal_type", Value::Unsigned(58))]);
    match MeterEvent::from_value(Opcode::TriggerStartNotify, &v) {
        Some(MeterEvent::TriggerStart(pkt)) => assert_eq!(pkt.trigger_signal_type, 58),
        _ => panic!("no packet"),
    }
}

fn meter() -> Meter {
    let mut db = SkillData::new();
    db.insert(100, SkillInfo::from_mined("Strike".to_string(), 102, String::new()));
    Meter::new(Data::new(0), db)
}

fn damage_message(modifier: u8) -> Vec<u8> {
    let mut message = 42u64.to_le_bytes().to_vec();
    message.extend_from_slice(&1u16.to_le_bytes());
    message.push(modifier);
    message.extend_from_slice(&500u64.to_le_bytes());
    write_packed_i64(&mut message, 1000);
    write_packed_i64(&mut message, -250);
    write_packed_i64(&mut message, 10000);
    message.push(0);
    message.extend_from_slice(&100u32.to_le_bytes());
    message
}

#[test]
fn messages_are_applied_to_the_model() {
    let arena = Arena::new();
    let s = schema();
    let mut m = meter();
    let r = apply_message(&mut m, &s, Opcode::SkillDamageNotify, 12, &damage_message(0x21), &arena, 5);
    assert!(matches!(r, Ok(Outcome::Applied(Action::Repaint))));
    let player = &m.data.current_enc().players[&42];
    assert_eq!(player.dmg_dealt, 750);
    assert_eq!(player.skills[&100].crits, 1);
    assert_eq!(player.skills[&100].front, 1);
    // a modifier without a flag
    let r = apply_message(&mut m, &s, Opcode::SkillDamageNotify, 12, &damage_message(0x0f), &arena, 6);
    assert_eq!(r.unwrap_err(), PacketError::Meter(MeterError::InvalidHitFlag(15)));
    // a message that does not fit its layout
    let r = apply_message(&mut m, &s, Opcode::SkillDamageNotify, 12, &[1, 2, 3], &arena, 6);
    assert_eq!(r.unwrap_err(), PacketError::Decode(DecodeError::Parse(ParseError::OutOfBytes)));
    // a packet that the meter does not act on
    let r = apply_message(&mut m, &s, Opcode::DeathNotify, 14, &[0; 8], &arena, 6);
    assert!(matches!(r, Ok(Outcome::Passed)));
    let r = apply_message(&mut m, &s, Opcode::RaidBossKillNotify, 13, &[0; 2], &arena, 6);
    assert!(matches!(r, Ok(Outcome::Applied(Action::DeferNewEncounter))));
    assert_eq!(m.data.current_enc().players[&42].dmg_dealt, 750);
}

fn frame(opcode: u16, method: u8, wire: &[u8]) -> Vec<u8> {
    let mut f = ((8 + wire.len()) as u16).to_le_bytes().to_vec();
    f.extend_from_slice(&[0, 0]);
    f.extend_from_slice(&opcode.to_le_bytes());
    f.push(method);
    f.push(1);
    f.extend_from_slice(wire);
    f
}

#[test]
fn frames_go_through_the_whole_pipeline() {
    let s = schema();
    let xor = vec![0x11u8, 0x22, 0x33, 0x44, 0x55];
    let mut unpacker = Unpacker::new(xor.clone(), s.opcode_table()).unwrap();
    let mut arena = Arena::new();
    let mut m = meter();
    let mut payload = vec![0u8; 16];
    payload.extend_from_slice(&damage_message(0x01));
    // plain
    let mut wire = payload.clone();
    deobfuscate(&mut wire, 12, &xor);
    let r = parse_loa_packet(&mut m, &mut unpacker, &s, &frame(12, 0, &wire), &mut arena, 5);
    assert!(matches!(r, Ok(Outcome::Applied(Action::Repaint))));
    assert_eq!(m.data.current_enc().players[&42].dmg_dealt, 750);
    // packed with Snappy
    let mut wire = snap::raw::Encoder::new().compress_vec(&payload).unwrap();
    deobfuscate(&mut wire, 12, &xor);
    let r = parse_loa_packet(&mut m, &mut unpacker, &s, &frame(12, 2, &wire), &mut arena, 6);
    assert!(matches!(r, Ok(Outcome::Applied(Action::Repaint))));
    assert_eq!(m.data.current_enc().players[&42].dmg_dealt, 1500);
    // packed with Oodle: the frame waits for the decoder
    let mut wire = (payload.len() as u32).to_le_bytes().to_vec();
    wire.extend_from_slice(&[1, 2, 3]);
    deobfuscate(&mut wire, 12, &xor);
    match parse_loa_packet(&mut m, &mut unpacker, &s, &frame(12, 3, &wire), &mut arena, 7) {
        Ok(Outcome::Oodle { opcode, number, len, data }) => {
            assert_eq!(opcode, Opcode::SkillDamageNotify);
            assert_eq!(number, 12);
            assert_eq!(len, payload.len());
            assert_eq!(data, vec![1, 2, 3]);
        }
        other => panic!("{:?}", other),
    }
    // an unknown packet, and a frame that is none
    let r = parse_loa_packet(&mut m, &mut unpacker, &s, &frame(999, 0, &[0; 20]), &mut arena, 8);
    assert!(matches!(r, Ok(Outcome::Ignored)));
    let r = parse_loa_packet(&mut m, &mut unpacker, &s, &frame(12, 0, &[0]), &mut arena, 8);
    assert_eq!(r.unwrap_err(), PacketError::Frame(FrameError::ShortPayload));
    let r = parse_loa_packet(&mut m, &mut unpacker, &s, &frame(12, 7, &[0; 20]), &mut arena, 8);
    assert_eq!(r.unwrap_err(), PacketError::Frame(FrameError::UnknownCompression(7)));
    assert_eq!(m.data.current_enc().players[&42].dmg_dealt, 1500);
}
