//! Writers, readers and the words they work on.

use bit_field::accessor::BitReader;
use bit_field::accessor::BitWriter;
use bit_field::accessor::RangeReader;
use bit_field::accessor::RangeWriter;
use bit_field::accessor::Reader;
use bit_field::accessor::Writer;
use bit_field::mask::bit_len;
use bit_field::mask::extract;
use bit_field::mask::mask_of;
use bit_field::mask::put_bit;
use bit_field::mask::splice;
use bit_field::mask::test_bit;
use bit_field::width::get_holding_type;
use bit_field::BitField;
use bit_field::Bits;
use bit_field::Width;
use bit_field::Word;

fn writer_of_range(start: usize, end: usize, width: Width) -> RangeWriter {
    match Writer::bind(&Bits::Range(start, end), width) {
        Writer::Range(writer) => writer,
        Writer::Single(_) => panic!("a range gives a range writer"),
    }
}

fn reader_of_range(start: usize, end: usize, width: Width) -> RangeReader {
    match Reader::bind(&Bits::Range(start, end), width) {
        Reader::Range(reader) => reader,
        Reader::Single(_) => panic!("a range gives a range reader"),
    }
}

fn writer_of_bit(position: usize, width: Width) -> BitWriter {
    match Writer::bind(&Bits::Single(position), width) {
        Writer::Single(writer) => writer,
        Writer::Range(_) => panic!("a single bit gives a bit writer"),
    }
}

fn reader_of_bit(position: usize, width: Width) -> BitReader {
    match Reader::bind(&Bits::Single(position), width) {
        Reader::Single(reader) => reader,
        Reader::Range(_) => panic!("a single bit gives a bit reader"),
    }
}

#[test]
fn mask_has_as_many_low_bits_as_asked() {
    assert_eq!(mask_of(0), 0);
    assert_eq!(mask_of(1), 1);
    assert_eq!(mask_of(2), 0b11);
    assert_eq!(mask_of(8), 0xFF);
    assert_eq!(mask_of(64), u64::MAX as u128);
    assert_eq!(mask_of(127), u128::MAX >> 1);
    assert_eq!(mask_of(128), u128::MAX);
    assert_eq!(mask_of(200), u128::MAX);
}

#[test]
fn bit_length_counts_up_to_the_highest_set_bit() {
    assert_eq!(bit_len(0), 0);
    assert_eq!(bit_len(1), 1);
    assert_eq!(bit_len(2), 2);
    assert_eq!(bit_len(3), 2);
    assert_eq!(bit_len(4), 3);
    assert_eq!(bit_len(5), 3);
    assert_eq!(bit_len(255), 8);
    assert_eq!(bit_len(256), 9);
    assert_eq!(bit_len(u64::MAX as u128), 64);
    assert_eq!(bit_len(1u128 << 127), 128);
    assert_eq!(bit_len(u128::MAX), 128);
}

#[test]
fn splice_replaces_the_field_only() {
    assert_eq!(splice(0, 1, 2, 0b10), 0b100);
    assert_eq!(splice(0xFF, 1, 2, 0b10), 0xFD);
    assert_eq!(splice(0xFFFF, 4, 8, 0), 0xF00F);
    assert_eq!(splice(0, 4, 8, 0x1AB), 0xAB0);
    assert_eq!(splice(0, 0, 128, u128::MAX), u128::MAX);
    assert_eq!(splice(u128::MAX, 127, 1, 0), u128::MAX >> 1);
    assert_eq!(splice(0, 120, 8, 0xA5), 0xA5u128 << 120);
}

#[test]
fn extract_moves_the_field_down() {
    assert_eq!(extract(0b100, 1, 2), 0b10);
    assert_eq!(extract(0xABCD, 4, 8), 0xBC);
    assert_eq!(extract(u128::MAX, 0, 128), u128::MAX);
    assert_eq!(extract(1u128 << 127, 127, 1), 1);
    assert_eq!(extract(0xF0, 0, 4), 0);
}

#[test]
fn put_and_test_one_bit() {
    assert_eq!(put_bit(0, 3, true), 8);
    assert_eq!(put_bit(8, 3, true), 8);
    assert_eq!(put_bit(0xFF, 3, false), 0xF7);
    assert_eq!(put_bit(0xF7, 3, false), 0xF7);
    assert_eq!(put_bit(0, 127, true), 1u128 << 127);
    assert!(test_bit(8, 3));
    assert!(!test_bit(8, 2));
    assert!(test_bit(u128::MAX, 127));
}

#[test]
fn holding_type_is_the_smallest_that_fits() {
    let cases = [
        (1, Width::W8),
        (7, Width::W8),
        (8, Width::W8),
        (9, Width::W16),
        (16, Width::W16),
        (17, Width::W32),
        (31, Width::W32),
        (32, Width::W32),
        (33, Width::W64),
        (64, Width::W64),
        (65, Width::W128),
        (128, Width::W128),
    ];
    for (n_bits, holding) in cases {
        assert_eq!(get_holding_type(n_bits), holding, "{} bits", n_bits);
    }
}

#[test]
fn written_value_reads_back() {
    let mut word = Word::wrap(Width::W32, 0);
    writer_of_range(4, 11, Width::W32).bits(&mut word, 0xA5);
    assert_eq!(word.raw(), 0xA50);
    assert_eq!(reader_of_range(4, 11, Width::W32).get_bits(&word), 0xA5);
}

#[test]
fn written_value_is_cut_to_the_field() {
    let mut word = Word::wrap(Width::W32, 0);
    writer_of_range(4, 7, Width::W32).bits(&mut word, 0x1F3);
    assert_eq!(word.raw(), 0x30);
    assert_eq!(reader_of_range(4, 7, Width::W32).get_bits(&word), 0x3);
}

#[test]
fn writing_leaves_the_other_fields() {
    let mut word = Word::wrap(Width::W16, 0xFFFF);
    writer_of_range(4, 7, Width::W16).bits(&mut word, 0);
    assert_eq!(word.raw(), 0xFF0F);
    assert_eq!(reader_of_range(0, 3, Width::W16).get_bits(&word), 0xF);
    assert_eq!(reader_of_range(8, 15, Width::W16).get_bits(&word), 0xFF);
    assert!(reader_of_bit(3, Width::W16).is_bit_set(&word));
    assert!(reader_of_bit(8, Width::W16).is_bit_set(&word));
    assert!(reader_of_bit(4, Width::W16).is_bit_clear(&word));
}

#[test]
fn round_trip_for_every_field_of_a_byte() {
    for start in 0..7usize {
        for end in (start + 1)..8usize {
            let len = (end - start + 1) as u32;
            for value in [0u128, 1, 2, 0x55, 0xAA, 0xFF, 0x1234] {
                for initial in [0u128, 0xFF, 0x5A] {
                    let mut word = Word::wrap(Width::W8, initial);
                    writer_of_range(start, end, Width::W8).bits(&mut word, value);
                    let read = reader_of_range(start, end, Width::W8).get_bits(&word);
                    assert_eq!(read, value & mask_of(len));
                    let outside = !(mask_of(len) << start) & 0xFF;
                    assert_eq!(word.raw() & outside, initial & outside);
                }
            }
        }
    }
}

#[test]
fn setting_twice_is_setting_once() {
    let mut once = Word::wrap(Width::W8, 0b0101);
    writer_of_bit(1, Width::W8).set_bit(&mut once);
    let mut twice = once;
    writer_of_bit(1, Width::W8).set_bit(&mut twice);
    assert_eq!(once.raw(), 0b0111);
    assert_eq!(twice.raw(), 0b0111);
    assert!(reader_of_bit(1, Width::W8).is_bit_set(&twice));
}

#[test]
fn clearing_twice_is_clearing_once() {
    let mut once = Word::wrap(Width::W8, 0b0111);
    writer_of_bit(1, Width::W8).clear_bit(&mut once);
    let mut twice = once;
    writer_of_bit(1, Width::W8).clear_bit(&mut twice);
    assert_eq!(once.raw(), 0b0101);
    assert_eq!(twice.raw(), 0b0101);
    assert!(reader_of_bit(1, Width::W8).is_bit_clear(&twice));
}

#[test]
fn bit_writes_what_it_is_told() {
    let mut word = Word::wrap(Width::W8, 0);
    writer_of_bit(7, Width::W8).bit(&mut word, true);
    assert_eq!(word.raw(), 0x80);
    assert_eq!(reader_of_bit(7, Width::W8).get_bit(&word), 1);
    writer_of_bit(7, Width::W8).bit(&mut word, false);
    assert_eq!(word.raw(), 0);
    assert_eq!(reader_of_bit(7, Width::W8).get_bit(&word), 0);
}

#[test]
fn bit_seven_as_a_field_of_one_bit() {
    for initial in [0u128, 0x80, 0x7F, 0xFF] {
        for value in [0u128, 1, 2, 3] {
            let mut word = Word::wrap(Width::W8, initial);
            writer_of_bit(7, Width::W8).bit(&mut word, value & 1 == 1);
            assert_eq!(word.raw(), splice(initial, 7, 1, value));
            assert_eq!(
                reader_of_bit(7, Width::W8).get_bit(&word) as u128,
                extract(word.raw(), 7, 1)
            );
        }
    }
}

#[test]
fn writes_can_follow_one_another() {
    let mut word = Word::wrap(Width::W16, 0);
    let first = writer_of_range(0, 3, Width::W16);
    let second = writer_of_range(8, 11, Width::W16);
    let third = writer_of_bit(15, Width::W16);
    third.set_bit(second.bits(first.bits(&mut word, 0x3), 0xC));
    assert_eq!(word.raw(), 0x8C03);
}

#[test]
fn field_of_the_whole_word() {
    let mut word = Word::wrap(Width::W128, 0);
    writer_of_range(0, 127, Width::W128).bits(&mut word, u128::MAX);
    assert_eq!(word.raw(), u128::MAX);
    assert_eq!(reader_of_range(0, 127, Width::W128).get_bits(&word), u128::MAX);
    writer_of_bit(127, Width::W128).clear_bit(&mut word);
    assert_eq!(word.raw(), u128::MAX >> 1);
}

#[test]
fn place_of_a_range() {
    let writer = writer_of_range(3, 12, Width::W32);
    let span = writer.place();
    assert_eq!(span.offset(), 3);
    assert_eq!(span.bit_count(), 10);
    assert_eq!(span.extent(), (3, 10));
    assert_eq!(span.mask(), 0x3FF);
    assert_eq!(span.encoding(), Width::W16);
    assert_eq!(reader_of_range(3, 12, Width::W32).place(), span);
}

#[test]
fn place_of_a_bit() {
    let writer = writer_of_bit(5, Width::W8);
    assert_eq!(writer.place().offset(), 5);
    assert_eq!(reader_of_bit(5, Width::W8).place(), writer.place());
}

#[test]
fn kind_of_accessor_follows_the_kind_of_field() {
    assert!(matches!(Writer::bind(&Bits::Single(0), Width::W8), Writer::Single(_)));
    assert!(matches!(Writer::bind(&Bits::Range(0, 1), Width::W8), Writer::Range(_)));
    assert!(matches!(Reader::bind(&Bits::Single(0), Width::W8), Reader::Single(_)));
    assert!(matches!(Reader::bind(&Bits::Range(0, 1), Width::W8), Reader::Range(_)));
}

#[test]
fn word_wraps_and_unwraps() {
    let word = Word::wrap(Width::W8, 0xAB);
    assert_eq!(word.raw(), 0xAB);
    assert_eq!(word.word_width(), Width::W8);
    assert_eq!(word.into_inner(), 0xAB);
}

#[test]
fn checked_wrap_refuses_what_is_too_wide() {
    assert_eq!(Word::checked_wrap(Width::W8, 0xFF).map(|w| w.raw()), Some(0xFF));
    assert_eq!(Word::checked_wrap(Width::W8, 0x100), None);
    assert_eq!(Word::checked_wrap(Width::W64, u64::MAX as u128).map(|w| w.raw()), Some(u64::MAX as u128));
    assert_eq!(Word::checked_wrap(Width::W64, 1u128 << 64), None);
    assert_eq!(Word::checked_wrap(Width::W128, u128::MAX).map(|w| w.raw()), Some(u128::MAX));
}
