use rootsmith::parser::proto::decode_varint;
use rootsmith::parser::proto::parse_proto_message;
use rootsmith::parser::proto::FieldId;
use rootsmith::parser::proto::ParseError;

fn field(tag: u8, byte: u8) -> Vec<u8> {
    let mut v = vec![tag, 32];
    v.extend_from_slice(&[byte; 32]);
    v
}

#[test]
fn test_parse_incoming_record() {
    // Construct a valid protobuf message
    let mut data = Vec::new();

    // Field 1: namespace
    data.push(0x0A); // tag
    data.push(32); // length
    data.extend_from_slice(&[1u8; 32]); // namespace bytes

    // Field 2: key
    data.push(0x12); // tag
    data.push(32); // length
    data.extend_from_slice(&[2u8; 32]); // key bytes

    // Field 3: value
    data.push(0x1A); // tag
    data.push(32); // length
    data.extend_from_slice(&[3u8; 32]); // value bytes

    // Field 4: timestamp (varint 1000)
    data.push(0x20); // tag
    data.push(0xE8); // 1000 = 0x3E8 as varint
    data.push(0x07);

    let record = parse_proto_message(&data).unwrap();
    assert_eq!(record.namespace, [1u8; 32]);
    assert_eq!(record.key, [2u8; 32]);
    assert_eq!(record.value, [3u8; 32]);
    assert_eq!(record.timestamp, 1000);
}

#[test]
fn parse_empty_message_gives_zero_fields() {
    let record = parse_proto_message(&[]).unwrap();
    assert_eq!(record.namespace, [0u8; 32]);
    assert_eq!(record.key, [0u8; 32]);
    assert_eq!(record.value, [0u8; 32]);
    assert_eq!(record.timestamp, 0);
}

#[test]
fn parse_fields_in_any_order_last_wins() {
    let mut data = field(0x12, 9);
    data.extend(field(0x0A, 4));
    data.extend(vec![0x20, 0x05]);
    data.extend(field(0x12, 7));
    data.extend(vec![0x20, 0x06]);
    let record = parse_proto_message(&data).unwrap();
    assert_eq!(record.namespace, [4u8; 32]);
    assert_eq!(record.key, [7u8; 32]);
    assert_eq!(record.value, [0u8; 32]);
    assert_eq!(record.timestamp, 6);
}

#[test]
fn parse_skips_unknown_fields() {
    // Field 5 as a varint, field 6 length-delimited with 3 bytes.
    let mut data = vec![0x28, 0x96, 0x01, 0x32, 3, 0xAA, 0xBB, 0xCC];
    data.extend(field(0x1A, 8));
    let record = parse_proto_message(&data).unwrap();
    assert_eq!(record.value, [8u8; 32]);
    assert_eq!(record.timestamp, 0);
}

#[test]
fn parse_unknown_length_past_end_stops() {
    // A length-delimited unknown field whose length runs past the end ends the message.
    let mut data = field(0x0A, 1);
    data.extend(vec![0x32, 10, 1, 2]);
    let record = parse_proto_message(&data).unwrap();
    assert_eq!(record.namespace, [1u8; 32]);
}

#[test]
fn parse_truncated_length_errors() {
    assert_eq!(
        parse_proto_message(&[0x0A]).unwrap_err(),
        ParseError::TruncatedLength(FieldId::Namespace)
    );
    assert_eq!(
        parse_proto_message(&[0x12]).unwrap_err(),
        ParseError::TruncatedLength(FieldId::Key)
    );
    assert_eq!(
        parse_proto_message(&[0x1A]).unwrap_err(),
        ParseError::TruncatedLength(FieldId::Value)
    );
    assert_eq!(
        parse_proto_message(&[0x32]).unwrap_err(),
        ParseError::TruncatedLength(FieldId::Unknown)
    );
}

#[test]
fn parse_invalid_length_errors() {
    assert_eq!(
        parse_proto_message(&[0x0A, 31]).unwrap_err(),
        ParseError::InvalidLength(FieldId::Namespace, 31)
    );
    // Declared length right, bytes missing.
    let mut data = vec![0x12, 32];
    data.extend_from_slice(&[1u8; 31]);
    assert_eq!(
        parse_proto_message(&data).unwrap_err(),
        ParseError::InvalidLength(FieldId::Key, 32)
    );
    assert_eq!(
        parse_proto_message(&[0x1A, 33]).unwrap_err(),
        ParseError::InvalidLength(FieldId::Value, 33)
    );
}

#[test]
fn parse_unsupported_wire_type_errors() {
    // Field 1 with wire type 5 (32-bit).
    assert_eq!(
        parse_proto_message(&[0x0D, 0, 0, 0, 0]).unwrap_err(),
        ParseError::UnsupportedWireType(5)
    );
    assert_eq!(
        parse_proto_message(&[0x09]).unwrap_err(),
        ParseError::UnsupportedWireType(1)
    );
}

#[test]
fn parse_varint_errors() {
    assert_eq!(
        parse_proto_message(&[0x20]).unwrap_err(),
        ParseError::TruncatedVarint
    );
    assert_eq!(
        parse_proto_message(&[0x20, 0x80]).unwrap_err(),
        ParseError::TruncatedVarint
    );
    let mut data = vec![0x20];
    data.extend_from_slice(&[0xFF; 10]);
    data.push(0x01);
    assert_eq!(
        parse_proto_message(&data).unwrap_err(),
        ParseError::VarintTooLarge
    );
}

#[test]
fn decode_varint_values() {
    assert_eq!(decode_varint(&[0x00]).unwrap(), (0, 1));
    assert_eq!(decode_varint(&[0x7F]).unwrap(), (127, 1));
    assert_eq!(decode_varint(&[0xE8, 0x07]).unwrap(), (1000, 2));
    assert_eq!(decode_varint(&[0xAC, 0x02, 0x55]).unwrap(), (300, 2));
    let mut max = vec![0xFF; 9];
    max.push(0x01);
    assert_eq!(decode_varint(&max).unwrap(), (u64::MAX, 10));
    assert_eq!(decode_varint(&[]).unwrap_err(), ParseError::TruncatedVarint);
    assert_eq!(decode_varint(&[0xFF; 10]).unwrap_err(), ParseError::VarintTooLarge);
}

#[test]
fn parse_any_permutation_of_the_four_fields() {
    let fields: Vec<Vec<u8>> = vec![field(0x0A, 1), field(0x12, 2), field(0x1A, 3), vec![0x20, 0xE8, 0x07]];
    let mut orders: Vec<Vec<usize>> = Vec::new();
    for a in 0..4 {
        for b in 0..4 {
            for c in 0..4 {
                for d in 0..4 {
                    let o = vec![a, b, c, d];
                    let mut s = o.clone();
                    s.sort();
                    if s == vec![0, 1, 2, 3] {
                        orders.push(o);
                    }
                }
            }
        }
    }
    assert_eq!(orders.len(), 24);
    for o in orders {
        let data: Vec<u8> = o.iter().flat_map(|&i| fields[i].clone()).collect();
        let r = parse_proto_message(&data).unwrap();
        assert_eq!(r.namespace, [1u8; 32]);
        assert_eq!(r.key, [2u8; 32]);
        assert_eq!(r.value, [3u8; 32]);
        assert_eq!(r.timestamp, 1000);
    }
}

#[test]
fn parse_any_order_with_longer_timestamp_varint() {
    // 1000 written with a redundant continuation byte.
    let ts = vec![0x20, 0xE8, 0x87, 0x00];
    let fields: Vec<Vec<u8>> = vec![ts, field(0x1A, 3), field(0x0A, 1), field(0x12, 2)];
    let data: Vec<u8> = fields.concat();
    let r = parse_proto_message(&data).unwrap();
    assert_eq!(r.namespace, [1u8; 32]);
    assert_eq!(r.key, [2u8; 32]);
    assert_eq!(r.value, [3u8; 32]);
    assert_eq!(r.timestamp, 1000);
    let zero = [field(0x12, 2), vec![0x20, 0x80, 0x00], field(0x0A, 1), field(0x1A, 3)].concat();
    assert_eq!(parse_proto_message(&zero).unwrap().timestamp, 0);
}
