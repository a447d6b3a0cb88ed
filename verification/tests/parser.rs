use larps::definitions::{MoveOptionData, SkillMoveOptionData, SkillOptionData, TripodIndex, TripodLevel};
use larps::parser::{bit_is_set, Arena, Event, KindedBytes, Length, ParseError, Parser};

#[test]
fn reads_little_endian_integers() {
    let data = [0x01u8, 0x02, 0x03, 0x04, 0x05, 0x06, 0x07, 0x08, 0x09];
    let mut p = Parser::new(&data);
    assert_eq!(p.read_u8(), Ok(0x01));
    assert_eq!(p.read_u16(), Ok(0x0302));
    assert_eq!(p.raw(), &data[3..]);
    let mut p = Parser::new(&data);
    assert_eq!(p.read_u32(), Ok(0x04030201));
    assert_eq!(p.remaining(), 5);
    let mut p = Parser::new(&data);
    assert_eq!(p.read_u64(), Ok(0x0807060504030201));
    assert_eq!(p.raw(), &[0x09]);
}

#[test]
fn reads_signed_integers_as_twos_complement() {
    let data = [0xffu8, 0xfe, 0xff, 0x00, 0x00, 0x00, 0x80, 0xff, 0xff, 0xff, 0xff, 0xff, 0xff, 0xff, 0x7f];
    let mut p = Parser::new(&data);
    assert_eq!(p.read_i8(), Ok(-1));
    assert_eq!(p.read_i16(), Ok(-2));
    assert_eq!(p.read_i32(), Ok(i32::MIN));
    assert_eq!(p.read_i64(), Ok(i64::MAX));
    let data = [0x80u8, 0x00, 0x80, 0x00, 0x00, 0x00, 0x00, 0x00, 0x00, 0x00, 0x80];
    let mut p = Parser::new(&data);
    assert_eq!(p.read_i8(), Ok(i8::MIN));
    assert_eq!(p.read_i16(), Ok(i16::MIN));
    assert_eq!(p.read_i64(), Ok(i64::MIN));
}

#[test]
fn read_f32_gives_the_bit_pattern() {
    let bits = 1500.0f32.to_bits();
    let data = bits.to_le_bytes();
    let mut p = Parser::new(&data);
    let got = p.read_f32().unwrap();
    assert_eq!(f32::from_bits(got), 1500.0);
    assert_eq!(p.remaining(), 0);
}

#[test]
fn read_bool_is_true_for_one_only() {
    let data = [1u8, 0, 2];
    let mut p = Parser::new(&data);
    assert_eq!(p.read_bool(), Ok(true));
    assert_eq!(p.read_bool(), Ok(false));
    assert_eq!(p.read_bool(), Ok(false));
    assert_eq!(p.read_bool(), Err(ParseError::OutOfBytes));
}

#[test]
fn short_input_is_rejected_and_leaves_the_cursor() {
    let data = [1u8, 2, 3];
    let mut p = Parser::new(&data);
    assert_eq!(p.read_u32(), Err(ParseError::OutOfBytes));
    assert_eq!(p.read_u64(), Err(ParseError::OutOfBytes));
    assert_eq!(p.read_i32(), Err(ParseError::OutOfBytes));
    assert_eq!(p.skip(4), Err(ParseError::OutOfBytes));
    assert_eq!(p.remaining(), 3);
    assert_eq!(p.skip(3), Ok(()));
    assert_eq!(p.read_u8(), Err(ParseError::OutOfBytes));
    assert_eq!(p.read_u16(), Err(ParseError::OutOfBytes));
    assert_eq!(p.read_i8(), Err(ParseError::OutOfBytes));
    assert_eq!(p.read_i16(), Err(ParseError::OutOfBytes));
    assert_eq!(p.read_i64(), Err(ParseError::OutOfBytes));
}

#[test]
fn advance_moves_the_cursor() {
    let data = [1u8, 2, 3, 4];
    let mut p = Parser::new(&data);
    p.advance(3);
    assert_eq!(p.raw(), &[4]);
    p.advance(1);
    assert_eq!(p.remaining(), 0);
}

#[test]
fn packed_i64_flag_zero_is_zero() {
    let data = [0x00u8, 0xaa];
    let mut p = Parser::new(&data);
    assert_eq!(p.read_packed_i64(), Ok(0));
    assert_eq!(p.raw(), &[0xaa]);
}

#[test]
fn packed_i64_combines_flag_and_tail() {
    // length 2, positive, low nibble 5: 16 * 0x3412 + 5
    let data = [0x54u8, 0x12, 0x34, 0xff];
    let mut p = Parser::new(&data);
    assert_eq!(p.read_packed_i64(), Ok(16 * 0x3412 + 5));
    assert_eq!(p.raw(), &[0xff]);
    // the same, negative
    let data = [0x55u8, 0x12, 0x34];
    let mut p = Parser::new(&data);
    assert_eq!(p.read_packed_i64(), Ok(-(16 * 0x3412 + 5)));
    // no tail: the low nibble alone
    let data = [0xf0u8];
    let mut p = Parser::new(&data);
    assert_eq!(p.read_packed_i64(), Ok(15));
    let data = [0xf1u8];
    let mut p = Parser::new(&data);
    assert_eq!(p.read_packed_i64(), Ok(-15));
    // seven bytes of tail
    let data = [0xfeu8, 0xff, 0xff, 0xff, 0xff, 0xff, 0xff, 0xff];
    let mut p = Parser::new(&data);
    assert_eq!(p.read_packed_i64(), Ok((1i64 << 60) - 1));
}

#[test]
fn packed_i64_needs_its_tail() {
    let data = [0x54u8, 0x12];
    let mut p = Parser::new(&data);
    assert_eq!(p.read_packed_i64(), Err(ParseError::OutOfBytes));
    assert_eq!(p.remaining(), 2);
    let mut p = Parser::new(&[]);
    assert_eq!(p.read_packed_i64(), Err(ParseError::OutOfBytes));
}

#[test]
fn simple_u64_reads_long_and_short_forms() {
    // low twelve bits 0x81e: below the limit, a full value follows
    let data = [0x1eu8, 0x08, 3, 4, 5, 6, 7, 8, 9];
    let mut p = Parser::new(&data);
    assert_eq!(p.read_simple_u64(), Ok(u64::from_le_bytes([0x1e, 0x08, 3, 4, 5, 6, 7, 8])));
    assert_eq!(p.raw(), &[9]);
    // low twelve bits 0x81f: the word alone
    let data = [0x1fu8, 0xf8, 3];
    let mut p = Parser::new(&data);
    assert_eq!(p.read_simple_u64(), Ok(0x1181f));
    assert_eq!(p.raw(), &[3]);
    let data = [0xffu8, 0xff];
    let mut p = Parser::new(&data);
    assert_eq!(p.read_simple_u64(), Ok(0x11fff));
    // long form without its eight bytes
    let data = [0x00u8, 0x00, 1];
    let mut p = Parser::new(&data);
    assert_eq!(p.read_simple_u64(), Err(ParseError::OutOfBytes));
    assert_eq!(p.remaining(), 3);
    let data = [0x00u8];
    let mut p = Parser::new(&data);
    assert_eq!(p.read_simple_u64(), Err(ParseError::OutOfBytes));
}

#[test]
fn bit_is_set_tests_single_bits() {
    assert!(bit_is_set(0b0000_0001, 0));
    assert!(!bit_is_set(0b0000_0001, 1));
    assert!(bit_is_set(0b1000_0000, 7));
    assert!(bit_is_set(0b0100_0000, 6));
    assert!(!bit_is_set(0b1011_1111, 6));
}

#[test]
fn throwaway_flags_skip_what_the_flag_announces() {
    // no bit set: only the flag byte
    let data = [0x00u8, 0xaa];
    let mut p = Parser::new(&data);
    assert_eq!(p.read_throwaway_flags(), Ok(()));
    assert_eq!(p.raw(), &[0xaa]);
    // bits 0 and 2: two times four bytes
    let data = [0x05u8, 1, 2, 3, 4, 5, 6, 7, 8, 0xaa];
    let mut p = Parser::new(&data);
    assert_eq!(p.read_throwaway_flags(), Ok(()));
    assert_eq!(p.raw(), &[0xaa]);
    // bit 6 alone: a counted run in each of the six rounds
    let mut data = vec![0x40u8];
    for _ in 0..6 {
        data.extend_from_slice(&[2, 0, 9, 9]);
    }
    data.push(0xaa);
    let mut p = Parser::new(&data);
    assert_eq!(p.read_throwaway_flags(), Ok(()));
    assert_eq!(p.raw(), &[0xaa]);
    // too short
    let data = [0x01u8, 1, 2, 3];
    let mut p = Parser::new(&data);
    assert_eq!(p.read_throwaway_flags(), Err(ParseError::OutOfBytes));
    assert_eq!(p.remaining(), 4);
    let mut p = Parser::new(&[]);
    assert_eq!(p.read_throwaway_flags(), Err(ParseError::OutOfBytes));
}

#[test]
fn packed_values_skip_the_sizes_of_set_bits() {
    let sizes = [1usize, 2, 3, 4, 5, 6, 7];
    let data = [0b0000_0101u8, 1, 2, 3, 4, 0xaa];
    let mut p = Parser::new(&data);
    assert_eq!(p.read_packed_values(&sizes), Ok(()));
    assert_eq!(p.raw(), &[0xaa]);
    // bit 7 is no size
    let data = [0b1000_0000u8, 0xaa];
    let mut p = Parser::new(&data);
    assert_eq!(p.read_packed_values(&sizes), Ok(()));
    assert_eq!(p.raw(), &[0xaa]);
    let data = [0b0100_0000u8, 1, 2, 3, 4, 5, 6];
    let mut p = Parser::new(&data);
    assert_eq!(p.read_packed_values(&sizes), Err(ParseError::OutOfBytes));
    assert_eq!(p.remaining(), 7);
}

#[test]
fn read_list_reads_count_and_values() {
    let arena = Arena::new();
    let data = [3u8, 0, 1, 0, 2, 0, 3, 0, 0xaa];
    let mut p = Parser::new(&data);
    assert_eq!(p.read_list::<u16>(&arena), Ok(vec![1u16, 2, 3]));
    assert_eq!(p.raw(), &[0xaa]);
    let data = [0u8, 0, 0xaa];
    let mut p = Parser::new(&data);
    assert_eq!(p.read_list::<u32>(&arena), Ok(vec![]));
    assert_eq!(p.raw(), &[0xaa]);
    let data = [2u8, 0, 1, 0, 2];
    let mut p = Parser::new(&data);
    assert_eq!(p.read_list::<u16>(&arena), Err(ParseError::OutOfBytes));
    assert_eq!(p.remaining(), 5);
}

#[test]
fn read_run_reads_a_fixed_count() {
    let arena = Arena::new();
    let data = [1u8, 2, 3, 4];
    let mut p = Parser::new(&data);
    assert_eq!(p.read_run::<u8>(&arena, 3), Ok(vec![1u8, 2, 3]));
    assert_eq!(p.raw(), &[4]);
    assert_eq!(p.read_run::<u8>(&arena, 2), Err(ParseError::OutOfBytes));
    assert_eq!(p.raw(), &[4]);
}

#[test]
fn read_counted_leaves_a_list_over_the_maximum_unread() {
    let arena = Arena::new();
    // length 2 within the maximum 4
    let data = [2u8, 0, 7, 8, 0xaa];
    let mut p = Parser::new(&data);
    assert_eq!(p.read_counted::<u8, u16>(&arena, 4), Ok(vec![7u8, 8]));
    assert_eq!(p.raw(), &[0xaa]);
    // length 5 over the maximum 4: nothing but the length is read
    let data = [5u8, 0, 7, 8, 0xaa];
    let mut p = Parser::new(&data);
    assert_eq!(p.read_counted::<u8, u16>(&arena, 4), Ok(vec![]));
    assert_eq!(p.raw(), &[7, 8, 0xaa]);
    // the parser goes on from there
    assert_eq!(p.read_u16(), Ok(0x0807));
}

#[test]
fn read_counted_rejects_a_negative_length() {
    let arena = Arena::new();
    let data = [0xffu8, 0xff, 0xff, 0xff, 1];
    let mut p = Parser::new(&data);
    assert_eq!(p.read_counted::<u8, i32>(&arena, 4), Err(ParseError::BadLength));
    assert_eq!(p.remaining(), 5);
    let data = [1u8, 0, 0, 0];
    let mut p = Parser::new(&data);
    assert_eq!(p.read_counted::<u8, i32>(&arena, 4), Err(ParseError::OutOfBytes));
    let data = [1u8, 0, 0];
    let mut p = Parser::new(&data);
    assert_eq!(p.read_counted::<u8, i32>(&arena, 4), Err(ParseError::OutOfBytes));
}

#[test]
fn lengths_convert_to_machine_words() {
    assert_eq!(<u8 as Length>::to_len(&200), Some(200));
    assert_eq!(<u16 as Length>::to_len(&65535), Some(65535));
    assert_eq!(<u32 as Length>::to_len(&7), Some(7));
    assert_eq!(<u64 as Length>::to_len(&7), Some(7));
    assert_eq!(<i8 as Length>::to_len(&-1), None);
    assert_eq!(<i16 as Length>::to_len(&-1), None);
    assert_eq!(<i32 as Length>::to_len(&-1), None);
    assert_eq!(<i64 as Length>::to_len(&-1), None);
    assert_eq!(<i64 as Length>::to_len(&12), Some(12));
}

#[test]
fn read_bytes_skips_length_times_multiplier() {
    let arena = Arena::new();
    let data = [1u8, 2, 3, 4, 5, 6, 7];
    let mut p = Parser::new(&data);
    assert_eq!(p.read_bytes(&arena, 2, 3, 4), Ok(()));
    assert_eq!(p.raw(), &[7]);
    // over the maximum: nothing is skipped
    assert_eq!(p.read_bytes(&arena, 5, 3, 4), Ok(()));
    assert_eq!(p.raw(), &[7]);
    assert_eq!(p.read_bytes(&arena, 2, 1, 4), Err(ParseError::OutOfBytes));
    assert_eq!(p.read_bytes(&arena, usize::MAX, 2, usize::MAX), Err(ParseError::OutOfBytes));
    assert_eq!(p.raw(), &[7]);
}

#[test]
fn kinded_bytes_read_length_and_bytes() {
    let arena = Arena::new();
    let data = [2u8, 0, 1, 2, 3, 4, 0xaa];
    let mut p = Parser::new(&data);
    assert_eq!(<KindedBytes<u16, 2, 3> as Event>::parse(&mut p, &arena), Ok(()));
    assert_eq!(p.raw(), &[0xaa]);
    let data = [4u8, 0, 1, 2, 3, 4, 0xaa];
    let mut p = Parser::new(&data);
    assert_eq!(<KindedBytes<u16, 2, 3> as Event>::parse(&mut p, &arena), Ok(()));
    assert_eq!(p.raw(), &[1, 2, 3, 4, 0xaa]);
    let data = [3u8, 0, 1, 2, 3, 4];
    let mut p = Parser::new(&data);
    assert_eq!(<KindedBytes<u16, 2, 3> as Event>::parse(&mut p, &arena), Err(ParseError::OutOfBytes));
    // the length itself is missing
    let data = [3u8];
    let mut p = Parser::new(&data);
    assert_eq!(<KindedBytes<u16, 2, 3> as Event>::parse(&mut p, &arena), Err(ParseError::OutOfBytes));
    // a negative length is no length
    let data = [0xffu8, 1, 2, 3];
    let mut p = Parser::new(&data);
    assert_eq!(<KindedBytes<i8, 1, 3> as Event>::parse(&mut p, &arena), Err(ParseError::BadLength));
}

#[test]
fn a_list_fails_with_the_error_of_its_first_bad_value() {
    let arena = Arena::new();
    // the second field has a negative length, the third is cut short
    let data = [3u8, 0, 1, 0xaa, 0x80, 2, 0xbb];
    let mut p = Parser::new(&data);
    assert_eq!(p.read_list::<KindedBytes<i8, 1, 8>>(&arena), Err(ParseError::BadLength));
    assert_eq!(p.remaining(), 7);
    let data = [2u8, 0, 1, 0xaa, 2, 0xbb];
    let mut p = Parser::new(&data);
    assert_eq!(p.read_list::<KindedBytes<i8, 1, 8>>(&arena), Err(ParseError::OutOfBytes));
    assert_eq!(p.read_run::<KindedBytes<i8, 1, 8>>(&arena, 1), Ok(vec![()]));
    let data = [1u8, 0xff, 0];
    let mut p = Parser::new(&data);
    assert_eq!(p.read_optional::<KindedBytes<i8, 1, 8>>(&arena), Err(ParseError::BadLength));
    assert_eq!(p.read_counted::<KindedBytes<i8, 1, 8>, u8>(&arena, 4), Err(ParseError::BadLength));
    assert_eq!(p.remaining(), 3);
}

#[test]
fn read_optional_reads_the_value_behind_a_true_flag() {
    let arena = Arena::new();
    let data = [1u8, 7, 0, 0, 0, 0xaa];
    let mut p = Parser::new(&data);
    assert_eq!(p.read_optional::<u32>(&arena), Ok(Some(7)));
    assert_eq!(p.raw(), &[0xaa]);
    let data = [0u8, 7, 0, 0, 0, 0xaa];
    let mut p = Parser::new(&data);
    assert_eq!(p.read_optional::<u32>(&arena), Ok(None));
    assert_eq!(p.remaining(), 5);
    let data = [1u8, 7, 0, 0];
    let mut p = Parser::new(&data);
    assert_eq!(p.read_optional::<u32>(&arena), Err(ParseError::OutOfBytes));
    assert_eq!(p.remaining(), 4);
    let mut p = Parser::new(&[]);
    assert_eq!(p.read_optional::<u32>(&arena), Err(ParseError::OutOfBytes));
}

#[test]
fn read_str_decodes_utf16() {
    let arena = Arena::new();
    let mut data = vec![5u8, 0];
    for unit in "Héllo".encode_utf16() {
        data.extend_from_slice(&unit.to_le_bytes());
    }
    data.push(0xaa);
    let mut p = Parser::new(&data);
    assert_eq!(p.read_str(&arena), Ok("Héllo"));
    assert_eq!(p.raw(), &[0xaa]);
    // a surrogate pair is one character
    let text = "a\u{1F600}b";
    let units: Vec<u16> = text.encode_utf16().collect();
    assert_eq!(units.len(), 4);
    let mut data = vec![4u8, 0];
    for unit in units {
        data.extend_from_slice(&unit.to_le_bytes());
    }
    let mut p = Parser::new(&data);
    assert_eq!(p.read_str(&arena), Ok(text));
    assert_eq!(p.remaining(), 0);
    // the empty text
    let data = [0u8, 0, 0xaa];
    let mut p = Parser::new(&data);
    assert_eq!(p.read_str(&arena), Ok(""));
    assert_eq!(p.raw(), &[0xaa]);
}

#[test]
fn read_str_rejects_bad_input() {
    let arena = Arena::new();
    // a high surrogate without its partner
    let data = [1u8, 0, 0x00, 0xd8];
    let mut p = Parser::new(&data);
    assert_eq!(p.read_str(&arena), Err(ParseError::InvalidUtf16));
    assert_eq!(p.remaining(), 4);
    // a low surrogate first
    let data = [2u8, 0, 0x00, 0xdc, 0x41, 0x00];
    let mut p = Parser::new(&data);
    assert_eq!(p.read_str(&arena), Err(ParseError::InvalidUtf16));
    // fewer bytes than announced
    let data = [2u8, 0, 0x41, 0x00, 0x42];
    let mut p = Parser::new(&data);
    assert_eq!(p.read_str(&arena), Err(ParseError::OutOfBytes));
    let data = [2u8];
    let mut p = Parser::new(&data);
    assert_eq!(p.read_str(&arena), Err(ParseError::OutOfBytes));
}

#[test]
fn arena_stores_text_until_reset() {
    let mut arena = Arena::new();
    {
        let a = arena.alloc_str("first");
        let b = arena.alloc_str("second");
        assert_eq!(a, "first");
        assert_eq!(b, "second");
    }
    arena.reset();
    assert_eq!(arena.alloc_str("third"), "third");
}

#[test]
fn byte_arrays_are_read_whole() {
    let arena = Arena::new();
    let data = [1u8, 2, 3, 4, 5];
    let mut p = Parser::new(&data);
    assert_eq!(<[u8; 3] as Event>::parse(&mut p, &arena), Ok([1, 2, 3]));
    assert_eq!(p.raw(), &[4, 5]);
    assert_eq!(<[u8; 3] as Event>::parse(&mut p, &arena), Err(ParseError::OutOfBytes));
    assert_eq!(<[u8; 0] as Event>::parse(&mut p, &arena), Ok([]));
    assert_eq!(p.remaining(), 2);
}

#[test]
fn tripod_structures_are_read_field_by_field() {
    let arena = Arena::new();
    let data = [1u8, 2, 3, 4, 0, 5, 0, 6, 0];
    let mut p = Parser::new(&data);
    assert_eq!(
        TripodIndex::parse(&mut p, &arena),
        Ok(TripodIndex { first: 1, second: 2, third: 3 })
    );
    assert_eq!(
        TripodLevel::parse(&mut p, &arena),
        Ok(TripodLevel { first: 4, second: 5, third: 6 })
    );
    assert_eq!(TripodIndex::parse(&mut p, &arena), Err(ParseError::OutOfBytes));
}

#[test]
fn skill_option_data_reads_the_flagged_fields() {
    let arena = Arena::new();
    let data = [0u8, 0xaa];
    let mut p = Parser::new(&data);
    assert_eq!(SkillOptionData::parse(&mut p, &arena), Ok(SkillOptionData::default()));
    assert_eq!(p.raw(), &[0xaa]);
    // bits 0, 2, 5 and 6
    let data = [0b0110_0101u8, 9, 1, 0, 0, 0, 1, 2, 3, 4, 0, 5, 0, 6, 0, 0xaa];
    let mut p = Parser::new(&data);
    let got = SkillOptionData::parse(&mut p, &arena).unwrap();
    assert_eq!(got.layer_index, Some(9));
    assert_eq!(got.start_stage_index, None);
    assert_eq!(got.transit_index, Some(1));
    assert_eq!(got.stage_start_time, None);
    assert_eq!(got.farmost_dist, None);
    assert_eq!(got.tripod_index, Some(TripodIndex { first: 1, second: 2, third: 3 }));
    assert_eq!(got.tripod_level, Some(TripodLevel { first: 4, second: 5, third: 6 }));
    assert_eq!(p.raw(), &[0xaa]);
    let data = [0b0000_0100u8, 1, 0, 0];
    let mut p = Parser::new(&data);
    assert!(SkillOptionData::parse(&mut p, &arena).is_err());
}

#[test]
fn skill_move_option_data_reads_the_flagged_fields() {
    let arena = Arena::new();
    // bits 1 and 6, run of three bytes
    let data = [0b0100_0010u8, 7, 0, 0, 0, 3, 0, 9, 9, 9, 0xaa];
    let mut p = Parser::new(&data);
    let got = SkillMoveOptionData::parse(&mut p, &arena).unwrap();
    assert_eq!(got.move_time, None);
    assert_eq!(got.stand_up_time, Some(7));
    assert_eq!(got.down_time, None);
    assert_eq!(p.raw(), &[0xaa]);
    // a run over six bytes is left unread
    let data = [0b0100_0000u8, 7, 0, 9];
    let mut p = Parser::new(&data);
    assert_eq!(SkillMoveOptionData::parse(&mut p, &arena), Ok(SkillMoveOptionData::default()));
    assert_eq!(p.raw(), &[9]);
    let data = [0b0100_0000u8, 2, 0, 9];
    let mut p = Parser::new(&data);
    assert!(SkillMoveOptionData::parse(&mut p, &arena).is_err());
}

#[test]
fn move_option_data_reads_the_flagged_fields() {
    let arena = Arena::new();
    let mut data = vec![0b0111_1111u8];
    data.push(5); // modifier
    data.extend_from_slice(&6u32.to_le_bytes()); // speed
    data.extend_from_slice(&7u64.to_le_bytes()); // next position
    data.extend_from_slice(&8u32.to_le_bytes()); // dropped
    data.extend_from_slice(&[1, 0, 9]); // run of one
    data.extend_from_slice(&[6, 0]); // run over five: left unread
    data.extend_from_slice(&[0, 0]); // empty run
    data.push(0xaa);
    let mut p = Parser::new(&data);
    assert_eq!(
        MoveOptionData::parse(&mut p, &arena),
        Ok(MoveOptionData { modifier: Some(5), speed: Some(6), next_pos: Some(7) })
    );
    assert_eq!(p.raw(), &[0xaa]);
    let data = [0u8];
    let mut p = Parser::new(&data);
    assert_eq!(MoveOptionData::parse(&mut p, &arena), Ok(MoveOptionData::default()));
    let data = [0b0000_0100u8, 1, 2, 3];
    let mut p = Parser::new(&data);
    assert!(MoveOptionData::parse(&mut p, &arena).is_err());
}

#[test]
fn primitives_parse_through_the_event_trait() {
    let arena = Arena::new();
    let data = [0xffu8, 1, 0, 2, 0, 0, 0, 3, 0, 0, 0, 0, 0, 0, 0];
    let mut p = Parser::new(&data);
    assert_eq!(<u8 as Event>::parse(&mut p, &arena), Ok(0xff));
    assert_eq!(<u16 as Event>::parse(&mut p, &arena), Ok(1));
    assert_eq!(<u32 as Event>::parse(&mut p, &arena), Ok(2));
    assert_eq!(<u64 as Event>::parse(&mut p, &arena), Ok(3));
    let data = [0xffu8, 0xff, 0xff, 0xff, 0xff, 0xff, 0xff, 0xff, 0xff, 0xff, 0xff, 0xff, 0xff, 0xff, 0xff];
    let mut p = Parser::new(&data);
    assert_eq!(<i8 as Event>::parse(&mut p, &arena), Ok(-1));
    assert_eq!(<i16 as Event>::parse(&mut p, &arena), Ok(-1));
    assert_eq!(<i32 as Event>::parse(&mut p, &arena), Ok(-1));
    assert_eq!(<i64 as Event>::parse(&mut p, &arena), Ok(-1));
}
