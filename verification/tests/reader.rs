use byteorder::{ByteOrder, LittleEndian};
use genie_rust::layout::{item_count, read_array};
use genie_rust::le::signed_byte;
use genie_rust::text::{read_debug_string, read_text, text_from, trimmed_length};
use genie_rust::version::{gates, is_at_least, tag_at_most, Gates};
use genie_rust::{DecodeError, Reader, F32};

#[test]
fn numbers_are_read_little_endian() {
    let mut r = Reader::new(vec![0x34, 0x12, 0xFF, 0xFE, 0x78, 0x56, 0x34, 0x12, 0x80]);
    assert_eq!(r.read_u16(), Ok(0x1234));
    assert_eq!(r.read_i16(), Ok(-257));
    assert_eq!(r.read_u32(), Ok(0x1234_5678));
    assert_eq!(r.read_i8(), Ok(-128));
    assert_eq!(r.position(), 9);
    assert_eq!(r.bytes_left(), 0);
    assert_eq!(r.read_u8(), Err(DecodeError::Underrun));
}

#[test]
fn reading_undoes_writing() {
    for x in [0u16, 1, 0x00FF, 0x0100, 0x1234, 0x7FFF, 0x8000, 0xFFFF] {
        let mut b = [0u8; 2];
        LittleEndian::write_u16(&mut b, x);
        assert_eq!(Reader::new(b.to_vec()).read_u16(), Ok(x));
        assert_eq!(Reader::new(b.to_vec()).read_i16(), Ok(x as i16));
    }
    for x in [
        0u32,
        1,
        0xFF,
        0x100,
        0x1_0000,
        0x0100_0000,
        0x1234_5678,
        0x7FFF_FFFF,
        0x8000_0000,
        0xFFFF_FFFF,
    ] {
        let mut b = [0u8; 4];
        LittleEndian::write_u32(&mut b, x);
        assert_eq!(Reader::new(b.to_vec()).read_u32(), Ok(x));
        assert_eq!(Reader::new(b.to_vec()).read_i32(), Ok(x as i32));
        assert_eq!(Reader::new(b.to_vec()).read_f32(), Ok(F32 { bits: x }));
    }
    for x in [i32::MIN, -1_000_000, -1, 0, 1, 16000, i32::MAX] {
        let mut b = [0u8; 4];
        LittleEndian::write_i32(&mut b, x);
        assert_eq!(Reader::new(b.to_vec()).read_i32(), Ok(x));
    }
    for x in [i16::MIN, -1000, -1, 0, 1, i16::MAX] {
        let mut b = [0u8; 2];
        LittleEndian::write_i16(&mut b, x);
        assert_eq!(Reader::new(b.to_vec()).read_i16(), Ok(x));
    }
    for x in [0.0f32, -0.0, 1.0, -1.5, 2.71828, f32::MAX, f32::MIN_POSITIVE, f32::INFINITY] {
        let mut b = [0u8; 4];
        LittleEndian::write_f32(&mut b, x);
        let got = Reader::new(b.to_vec()).read_f32().unwrap();
        assert_eq!(f32::from_bits(got.bits).to_bits(), x.to_bits());
    }
    for x in 0..=255u8 {
        assert_eq!(Reader::new(vec![x]).read_u8(), Ok(x));
        assert_eq!(Reader::new(vec![x]).read_i8(), Ok(x as i8));
        assert_eq!(signed_byte(x), x as i8);
    }
}

#[test]
fn one_is_the_bit_pattern_of_one() {
    assert_eq!(f32::from_bits(0x3F80_0000), 1.0);
    let mut r = Reader::new(vec![0x00, 0x00, 0x80, 0x3F]);
    assert_eq!(f32::from_bits(r.read_f32().unwrap().bits), 1.0);
}

#[test]
fn no_read_succeeds_partially() {
    let mut r = Reader::new(vec![1, 2, 3]);
    assert_eq!(r.read_u32(), Err(DecodeError::Underrun));
    assert_eq!(r.read_i32(), Err(DecodeError::Underrun));
    assert_eq!(r.read_f32(), Err(DecodeError::Underrun));
    assert_eq!(r.read_bytes(4), Err(DecodeError::Underrun));
    assert_eq!(r.skip_forward(4), Err(DecodeError::Underrun));
    assert_eq!(r.need(4), Err(DecodeError::Underrun));
    assert_eq!(r.position(), 0);
    assert_eq!(r.read_u16(), Ok(0x0201));
    assert_eq!(r.read_u16(), Err(DecodeError::Underrun));
    assert_eq!(r.read_i16(), Err(DecodeError::Underrun));
    assert_eq!(r.position(), 2);
    assert_eq!(r.read_bytes(1), Ok(vec![3]));
    assert_eq!(r.read_bytes(0), Ok(vec![]));
    assert_eq!(r.read_u8(), Err(DecodeError::Underrun));
    assert_eq!(r.read_i8(), Err(DecodeError::Underrun));
    assert_eq!(r.position(), 3);
}

#[test]
fn the_position_moves_by_a_signed_count() {
    let mut r = Reader::new((0..10).collect());
    assert_eq!(r.skip(4), Ok(()));
    assert_eq!(r.position(), 4);
    assert_eq!(r.skip(-3), Ok(()));
    assert_eq!(r.position(), 1);
    assert_eq!(r.read_u8(), Ok(1));
    assert_eq!(r.skip(-3), Err(DecodeError::Underrun));
    assert_eq!(r.position(), 2);
    assert_eq!(r.skip(9), Err(DecodeError::Underrun));
    assert_eq!(r.position(), 2);
    assert_eq!(r.skip(8), Ok(()));
    assert_eq!(r.position(), 10);
    assert_eq!(r.skip(0), Ok(()));
    assert_eq!(r.skip(1), Err(DecodeError::Underrun));
    assert_eq!(r.skip(i64::MAX), Err(DecodeError::Underrun));
    assert_eq!(r.skip(i64::MIN), Err(DecodeError::Underrun));
    assert_eq!(r.skip(-10), Ok(()));
    assert_eq!(r.position(), 0);
}

#[test]
fn values_are_seen_ahead_without_moving() {
    let mut r = Reader::new(vec![9, 0x34, 0x12, 0xFF, 0xFF, 0xFF, 0xFF, 0x80]);
    r.advance(1);
    assert_eq!(r.u16_at(0), 0x1234);
    assert_eq!(r.i16_at(2), -1);
    assert_eq!(r.u32_at(2), 0xFFFF_FFFF);
    assert_eq!(r.i32_at(2), -1);
    assert_eq!(r.f32_at(2), F32 { bits: 0xFFFF_FFFF });
    assert_eq!(r.u8_at(6), 0x80);
    assert_eq!(r.i8_at(6), -128);
    assert_eq!(r.slice_at(1, 3), &[0x12, 0xFF, 0xFF]);
    assert_eq!(r.position(), 1);
    r.rewind(0);
    assert_eq!(r.u8_at(0), 9);
}

#[test]
fn arrays_are_read_whole_or_not_at_all() {
    let mut r = Reader::new(vec![1, 0, 2, 0, 3, 0, 4]);
    assert_eq!(read_array::<i16>(&mut r, 4), Err(DecodeError::Underrun));
    assert_eq!(r.position(), 0);
    assert_eq!(read_array::<i16>(&mut r, usize::MAX), Err(DecodeError::Underrun));
    assert_eq!(read_array::<i16>(&mut r, 3), Ok(vec![1, 2, 3]));
    assert_eq!(r.position(), 6);
    assert_eq!(read_array::<i16>(&mut r, 0), Ok(vec![]));
    assert_eq!(item_count(-1), 0);
    assert_eq!(item_count(i16::MIN), 0);
    assert_eq!(item_count(0), 0);
    assert_eq!(item_count(7), 7);
    assert_eq!(item_count(i16::MAX), 32767);
}

#[test]
fn text_loses_the_nul_bytes_at_its_end_only() {
    assert_eq!(text_from(b"abc\0\0"), "abc");
    assert_eq!(text_from(b"\0abc\0"), "\0abc");
    assert_eq!(text_from(b"a\0b\0"), "a\0b");
    assert_eq!(text_from(b"\0\0\0"), "");
    assert_eq!(text_from(b""), "");
    assert_eq!(text_from(b"abc"), "abc");
    assert_eq!(trimmed_length(b"abc\0\0"), 3);
    assert_eq!(trimmed_length(b"\0\0"), 0);
    assert_eq!(trimmed_length(b"\0\0x"), 3);
}

#[test]
fn malformed_text_is_mended() {
    assert_eq!(text_from(&[b'a', 0xFF, b'b']), "a\u{FFFD}b");
    assert_eq!(text_from(&[0xC3, 0xA9, 0]), "\u{E9}");
    assert_eq!(text_from(&[0xC3, 0, 0]), "\u{FFFD}");
    assert_eq!(text_from("Königreich\0".as_bytes()), "Königreich");
}

#[test]
fn a_name_is_a_tag_a_length_and_the_text() {
    let mut r = Reader::new(vec![0x60, 0x0A, 5, 0, b'h', b'e', b'y', 0, 0, 0xEE]);
    assert_eq!(read_debug_string(&mut r), Ok("hey".to_string()));
    assert_eq!(r.position(), 9);

    let mut r = Reader::new(vec![0xFF, 0xFF, 0, 0]);
    assert_eq!(read_debug_string(&mut r), Ok(String::new()));
    assert_eq!(r.position(), 4);

    for bytes in [vec![], vec![0, 0, 1], vec![0, 0, 2, 0, b'a'], vec![0, 0, 0xFF, 0xFF, 1, 2, 3]] {
        let mut r = Reader::new(bytes);
        assert_eq!(read_debug_string(&mut r), Err(DecodeError::Underrun));
        assert_eq!(r.position(), 0);
    }

    let mut r = Reader::new(b"VER 8.8\0rest".to_vec());
    assert_eq!(read_text(&mut r, 8), Ok("VER 8.8".to_string()));
    assert_eq!(r.position(), 8);
    assert_eq!(read_text(&mut r, 5), Err(DecodeError::Underrun));
    assert_eq!(r.position(), 8);
}

#[test]
fn tags_are_ordered_as_strings_are() {
    let tags = [
        "", "V", "VER", "VER 10.0", "VER 7.7", "VER 7.70", "VER 7.8", "VER 8.3", "VER 8.4",
        "VER 8.8", "VER 8.8 ", "VER 9.0", "ver 1.0", "\u{E9}", "\u{FFFD}",
    ];
    for a in tags {
        for b in tags {
            assert_eq!(tag_at_most(a, b), a <= b, "{:?} and {:?}", a, b);
            assert_eq!(is_at_least(a, b), a >= b, "{:?} and {:?}", a, b);
        }
    }
}

#[test]
fn each_threshold_opens_its_gate() {
    let closed = Gates { v7_7: false, v8_4: false, v8_8: false };
    assert_eq!(gates("VER 7.6"), closed);
    assert_eq!(gates("VER 7."), closed);
    assert_eq!(gates("VER 10.0"), closed);
    assert_eq!(gates(""), closed);
    assert_eq!(gates("VER 7.7"), Gates { v7_7: true, ..closed });
    assert_eq!(gates("VER 7.8"), Gates { v7_7: true, ..closed });
    assert_eq!(gates("VER 8.3"), Gates { v7_7: true, ..closed });
    assert_eq!(gates("VER 8.4"), Gates { v7_7: true, v8_4: true, v8_8: false });
    assert_eq!(gates("VER 8.7"), Gates { v7_7: true, v8_4: true, v8_8: false });
    assert_eq!(gates("VER 8.8"), Gates { v7_7: true, v8_4: true, v8_8: true });
    assert_eq!(gates("VER 9.9"), Gates { v7_7: true, v8_4: true, v8_8: true });
}
