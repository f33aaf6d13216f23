use phast::packet::{Decoded, ReadField, WriteField};
use phast::types::{raknet_magic, Address, FortySixZeros, IntRangeList, RakNetMagic,
    ShortLengthPrefixedString, VarInt, VarIntLengthPrefixedByteArray, VarIntLengthPrefixedString};

#[test]
fn varint_small_round_trip() {
    let v = VarInt(300);
    let bytes = v.write();
    assert_eq!(bytes, vec![0xAC, 0x02]);
    match VarInt::read(&bytes, 0) {
        Decoded::Value(back, n) => {
            assert_eq!(back.0, 300);
            assert_eq!(n, 2);
        }
        _ => panic!("expected a value"),
    }
}

#[test]
fn varint_negative_takes_five_bytes() {
    let v = VarInt(-1);
    let bytes = v.write();
    assert_eq!(bytes, vec![0xFF, 0xFF, 0xFF, 0xFF, 0x0F]);
    match VarInt::read(&bytes, 0) {
        Decoded::Value(back, n) => {
            assert_eq!(back.0, -1);
            assert_eq!(n, 5);
        }
        _ => panic!("expected a value"),
    }
}

#[test]
fn varint_boundary_values_round_trip() {
    for v in [0i32, 1, 127, 128, 16383, 16384, i32::MAX, i32::MIN, -2147483648, 2147483647] {
        let bytes = VarInt(v).write();
        assert!(bytes.len() >= 1 && bytes.len() <= 5);
        match VarInt::read(&bytes, 0) {
            Decoded::Value(back, n) => {
                assert_eq!(back.0, v);
                assert_eq!(n, bytes.len());
            }
            _ => panic!("expected a value"),
        }
    }
}

#[test]
fn varint_fifth_byte_high_nibble_is_malformed() {
    // Five continuation-free bytes whose fifth has its top four bits set.
    let bytes = vec![0xFF, 0xFF, 0xFF, 0xFF, 0x10];
    assert!(matches!(VarInt::read(&bytes, 0), Decoded::Malformed));
    let bytes2 = vec![0x80, 0x80, 0x80, 0x80, 0xFF];
    assert!(matches!(VarInt::read(&bytes2, 0), Decoded::Malformed));
}

#[test]
fn varint_truncated_needs_more_data() {
    let bytes = vec![0x80, 0x80];
    assert!(matches!(VarInt::read(&bytes, 0), Decoded::NeedMoreData));
}

#[test]
fn varint_string_round_trip() {
    let s = VarIntLengthPrefixedString(String::from("Alice"));
    let bytes = s.write();
    assert_eq!(bytes, vec![0x05, 0x41, 0x6C, 0x69, 0x63, 0x65]);
    match VarIntLengthPrefixedString::read(&bytes, 0) {
        Decoded::Value(back, n) => {
            assert_eq!(back.0, "Alice");
            assert_eq!(n, 6);
        }
        _ => panic!("expected a value"),
    }
}

#[test]
fn empty_string_advances_by_length_field() {
    // Length field 0: decodes to the empty string, advances by the length
    // field's own size.
    let bytes = vec![0x00, 0xAA, 0xBB];
    match VarIntLengthPrefixedString::read(&bytes, 0) {
        Decoded::Value(back, n) => {
            assert_eq!(back.0, "");
            assert_eq!(n, 1);
        }
        _ => panic!("expected a value"),
    }
    let short = vec![0x00, 0x00, 0xCC];
    match ShortLengthPrefixedString::read(&short, 0) {
        Decoded::Value(back, n) => {
            assert_eq!(back.0, "");
            assert_eq!(n, 2);
        }
        _ => panic!("expected a value"),
    }
}

#[test]
fn oversized_string_length_is_malformed() {
    // 65537 > 2^16 is refused.
    let mut bytes = VarInt(65537).write();
    bytes.extend(std::iter::repeat(0x61).take(70000));
    assert!(matches!(VarIntLengthPrefixedString::read(&bytes, 0), Decoded::Malformed));
}

#[test]
fn invalid_utf8_is_malformed() {
    let bytes = vec![0x02, 0xC3, 0x28];
    assert!(matches!(VarIntLengthPrefixedString::read(&bytes, 0), Decoded::Malformed));
}

#[test]
fn short_string_round_trip() {
    let s = ShortLengthPrefixedString(String::from("MCPE;x;"));
    let bytes = s.write();
    assert_eq!(&bytes[..2], &[0x00, 0x07]);
    match ShortLengthPrefixedString::read(&bytes, 0) {
        Decoded::Value(back, n) => {
            assert_eq!(back.0, "MCPE;x;");
            assert_eq!(n, 9);
        }
        _ => panic!("expected a value"),
    }
}

#[test]
fn byte_array_round_trip() {
    let a = VarIntLengthPrefixedByteArray(vec![1, 2, 3, 4]);
    let bytes = a.write();
    assert_eq!(bytes, vec![4, 1, 2, 3, 4]);
    match VarIntLengthPrefixedByteArray::read(&bytes, 0) {
        Decoded::Value(back, n) => {
            assert_eq!(back.0, vec![1, 2, 3, 4]);
            assert_eq!(n, 5);
        }
        _ => panic!("expected a value"),
    }
}

#[test]
fn unsigned_ints_are_big_endian() {
    assert_eq!(0x1234u16.write(), vec![0x12, 0x34]);
    assert_eq!(0xDEADBEEFu32.write(), vec![0xDE, 0xAD, 0xBE, 0xEF]);
    assert_eq!(0x0102030405060708u64.write(), vec![1, 2, 3, 4, 5, 6, 7, 8]);
    match u16::read(&vec![0x63, 0xDD], 0) {
        Decoded::Value(v, n) => {
            assert_eq!(v, 25565);
            assert_eq!(n, 2);
        }
        _ => panic!("expected a value"),
    }
    match u64::read(&vec![0, 0, 0, 0, 0, 0, 0, 0x42], 0) {
        Decoded::Value(v, n) => {
            assert_eq!(v, 0x42);
            assert_eq!(n, 8);
        }
        _ => panic!("expected a value"),
    }
    match u32::read(&vec![1], 0) {
        Decoded::NeedMoreData => {}
        _ => panic!("expected more data"),
    }
}

#[test]
fn signed_int_round_trip() {
    let bytes = (-2i32).write();
    assert_eq!(bytes, vec![0xFF, 0xFF, 0xFF, 0xFE]);
    match i32::read(&bytes, 0) {
        Decoded::Value(v, n) => {
            assert_eq!(v, -2);
            assert_eq!(n, 4);
        }
        _ => panic!("expected a value"),
    }
}

#[test]
fn magic_is_sixteen_fixed_bytes() {
    let m = raknet_magic();
    let bytes = m.write();
    assert_eq!(
        bytes,
        vec![
            0x00, 0xff, 0xff, 0x00, 0xfe, 0xfe, 0xfe, 0xfe, 0xfd, 0xfd, 0xfd, 0xfd, 0x12, 0x34,
            0x56, 0x78
        ]
    );
    match RakNetMagic::read(&bytes, 0) {
        Decoded::Value(back, n) => {
            assert_eq!(back.0, bytes);
            assert_eq!(n, 16);
        }
        _ => panic!("expected a value"),
    }
}

#[test]
fn forty_six_zeros() {
    let z = FortySixZeros(vec![0; 46]);
    let bytes = z.write();
    assert_eq!(bytes, vec![0u8; 46]);
    match FortySixZeros::read(&bytes, 0) {
        Decoded::Value(back, n) => {
            assert_eq!(back.0, vec![0u8; 46]);
            assert_eq!(n, 46);
        }
        _ => panic!("expected a value"),
    }
    assert!(matches!(FortySixZeros::read(&vec![0u8; 45], 0), Decoded::NeedMoreData));
}

#[test]
fn ipv4_address_layout() {
    let a = Address::V4 { o0: 1, o1: 2, o2: 3, o3: 4, port: 25565 };
    let bytes = a.write();
    assert_eq!(bytes, vec![4, 1, 2, 3, 4, 0x63, 0xDD]);
    match Address::read(&bytes, 0) {
        Decoded::Value(back, n) => {
            assert_eq!(back, a);
            assert_eq!(n, 7);
        }
        _ => panic!("expected a value"),
    }
}

#[test]
fn ipv6_address_round_trip() {
    let a = Address::V6 {
        port: 19132,
        flow: 7,
        g0: 0x20,
        g1: 1,
        g2: 0,
        g3: 0,
        g4: 0,
        g5: 0,
        g6: 0,
        g7: 1,
        scope: 3,
    };
    let bytes = a.write();
    assert_eq!(bytes.len(), 29);
    assert_eq!(bytes[0], 6);
    // The family field is written as the constant 23.
    assert_eq!(&bytes[1..3], &[0, 23]);
    match Address::read(&bytes, 0) {
        Decoded::Value(back, n) => {
            assert_eq!(back, a);
            assert_eq!(n, 29);
        }
        _ => panic!("expected a value"),
    }
}

#[test]
fn unknown_address_discriminator_is_malformed() {
    let bytes = vec![5, 0, 0, 0, 0, 0, 0];
    assert!(matches!(Address::read(&bytes, 0), Decoded::Malformed));
}

#[test]
fn address_default_is_wildcard() {
    let a: Address = Default::default();
    assert_eq!(a, Address::V4 { o0: 0, o1: 0, o2: 0, o3: 0, port: 80 });
}

#[test]
fn address_list_round_trip() {
    let list: Vec<Address> = vec![
        Address::V4 { o0: 127, o1: 0, o2: 0, o3: 1, port: 80 },
        Address::V4 { o0: 10, o1: 0, o2: 0, o3: 9, port: 443 },
    ];
    let bytes = list.write();
    assert_eq!(&bytes[..2], &[0, 2]);
    assert_eq!(bytes.len(), 2 + 14);
    match <Vec<Address> as ReadField>::read(&bytes, 0) {
        Decoded::Value(back, n) => {
            assert_eq!(back, list);
            assert_eq!(n, 16);
        }
        _ => panic!("expected a value"),
    }
}

#[test]
fn int_range_list_layout_and_round_trip() {
    let list = IntRangeList(vec![(5, 5), (7, 9)]);
    let bytes = list.write();
    assert_eq!(bytes, vec![0, 2, 1, 0, 0, 5, 0, 0, 0, 7, 0, 0, 9]);
    match IntRangeList::read(&bytes, 0) {
        Decoded::Value(back, n) => {
            assert_eq!(back.0, vec![(5, 5), (7, 9)]);
            assert_eq!(n, 13);
        }
        _ => panic!("expected a value"),
    }
}
