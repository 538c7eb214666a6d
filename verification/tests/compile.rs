//! Whole descriptions, from source text to a layout and a word.

use bit_field::accessor::Reader;
use bit_field::accessor::Writer;
use bit_field::bitfield;
use bit_field::token::Delimiter;
use bit_field::token::Token;
use bit_field::BitField;
use bit_field::BitFieldSpec;
use bit_field::Bits;
use bit_field::LayoutError;
use bit_field::Width;
use proc_macro2::Spacing;
use proc_macro2::TokenStream;
use proc_macro2::TokenTree;

fn flatten(stream: TokenStream, out: &mut Vec<Token>) {
    for tree in stream {
        match tree {
            TokenTree::Group(group) => {
                let delimiter = match group.delimiter() {
                    proc_macro2::Delimiter::Parenthesis => Some(Delimiter::Parenthesis),
                    proc_macro2::Delimiter::Brace => Some(Delimiter::Brace),
                    proc_macro2::Delimiter::Bracket => Some(Delimiter::Bracket),
                    proc_macro2::Delimiter::None => None,
                };
                if let Some(delimiter) = delimiter {
                    out.push(Token::Open(delimiter));
                }
                flatten(group.stream(), out);
                if let Some(delimiter) = delimiter {
                    out.push(Token::Close(delimiter));
                }
            }
            TokenTree::Ident(ident) => out.push(Token::Ident(ident.to_string())),
            TokenTree::Punct(punct) => {
                out.push(Token::Punct(punct.as_char(), punct.spacing() == Spacing::Joint))
            }
            TokenTree::Literal(literal) => out.push(Token::Literal(literal.to_string())),
        }
    }
}

fn lex(text: &str) -> Vec<Token> {
    let stream: TokenStream = text.parse().unwrap();
    let mut out = Vec::new();
    flatten(stream, &mut out);
    out
}

fn compile(text: &str) -> Result<BitFieldSpec, LayoutError> {
    bitfield(&lex(text))
}

fn index_of(layout: &BitFieldSpec, name: &str) -> usize {
    layout.find(name).unwrap()
}

fn bit_writer(layout: &BitFieldSpec, name: &str) -> bit_field::accessor::BitWriter {
    match layout.writer(index_of(layout, name)) {
        Writer::Single(writer) => writer,
        Writer::Range(_) => panic!("{} is a range", name),
    }
}

fn range_writer(layout: &BitFieldSpec, name: &str) -> bit_field::accessor::RangeWriter {
    match layout.writer(index_of(layout, name)) {
        Writer::Range(writer) => writer,
        Writer::Single(_) => panic!("{} is a single bit", name),
    }
}

fn range_reader(layout: &BitFieldSpec, name: &str) -> bit_field::accessor::RangeReader {
    match layout.reader(index_of(layout, name)) {
        Reader::Range(reader) => reader,
        Reader::Single(_) => panic!("{} is a single bit", name),
    }
}

fn bit_reader(layout: &BitFieldSpec, name: &str) -> bit_field::accessor::BitReader {
    match layout.reader(index_of(layout, name)) {
        Reader::Single(reader) => reader,
        Reader::Range(_) => panic!("{} is a range", name),
    }
}

#[test]
fn lexer_hands_out_the_expected_tokens() {
    let tokens = lex("Ctrl { _size: 8, mode: 1..=2 }");
    assert_eq!(
        tokens,
        vec![
            Token::Ident("Ctrl".to_string()),
            Token::Open(Delimiter::Brace),
            Token::Ident("_size".to_string()),
            Token::Punct(':', false),
            Token::Literal("8".to_string()),
            Token::Punct(',', false),
            Token::Ident("mode".to_string()),
            Token::Punct(':', false),
            Token::Literal("1".to_string()),
            Token::Punct('.', true),
            Token::Punct('.', true),
            Token::Punct('=', false),
            Token::Literal("2".to_string()),
            Token::Close(Delimiter::Brace),
        ]
    );
}

#[test]
fn ctrl_end_to_end() {
    let layout = compile("Ctrl{ _size:8, enable:0=1, mode:1..=2, reserved:3..=7 }").unwrap();
    assert_eq!(layout.name(), "Ctrl");
    assert_eq!(layout.width(), Width::W8);
    assert_eq!(layout.default_value(), 0x01);

    let mut word = layout.default_word();
    assert_eq!(word.raw(), 0x01);

    bit_writer(&layout, "enable").clear_bit(&mut word);
    assert_eq!(word.raw(), 0x00);

    range_writer(&layout, "mode").bits(&mut word, 0b10);
    assert_eq!((word.raw() >> 1) & 0b11, 2);
    assert_eq!(word.raw(), 0b100);
    assert_eq!(range_reader(&layout, "mode").get_bits(&word), 2);
    assert_eq!(range_reader(&layout, "reserved").get_bits(&word), 0);
    assert!(bit_reader(&layout, "enable").is_bit_clear(&word));
    assert_eq!(word.into_inner(), 0b100);
}

#[test]
fn ctrl_layout_in_full() {
    let layout = compile("Ctrl{ _size:8, enable:0=1, mode:1..=2, reserved:3..=7 }").unwrap();
    let bits: Vec<Bits> = layout.modifiers().iter().map(|m| m.bits).collect();
    assert_eq!(bits, vec![Bits::Single(0), Bits::Range(1, 2), Bits::Range(3, 7)]);
    let names: Vec<&str> = layout.modifiers().iter().map(|m| m.field.as_str()).collect();
    assert_eq!(names, vec!["enable", "mode", "reserved"]);
    assert_eq!(layout.modifiers()[1].writer, "MODE_W");
    assert_eq!(layout.modifiers()[1].reader, "MODE_R");
    assert_eq!(layout.fields().len(), 3);
    assert_eq!(layout.fields()[0].writer, "w_enable");
    assert_eq!(layout.fields()[0].writer_s, "ENABLE_W");
    assert_eq!(layout.fields()[0].reader, "r_enable");
    assert_eq!(layout.fields()[0].reader_s, "ENABLE_R");
    assert_eq!(layout.fields()[2].writer, "w_reserved");
}

#[test]
fn size_24_is_refused() {
    assert_eq!(compile("A { _size: 24, a: 0 }"), Err(LayoutError::Size { at: 4 }));
}

#[test]
fn sizes_that_are_no_width_are_refused() {
    for size in ["0", "1", "4", "7", "9", "12", "48", "96", "256", "512", "65536"] {
        let text = format!("A {{ _size: {}, a: 0 }}", size);
        assert_eq!(compile(&text), Err(LayoutError::Size { at: 4 }), "size {}", size);
    }
}

#[test]
fn every_width_is_accepted() {
    let cases = [
        ("8", Width::W8),
        ("16", Width::W16),
        ("32", Width::W32),
        ("64", Width::W64),
        ("128", Width::W128),
    ];
    for (size, width) in cases {
        let text = format!("A {{ _size: {}, a: 0 }}", size);
        assert_eq!(compile(&text).unwrap().width(), width);
    }
}

#[test]
fn width_is_32_without_a_size() {
    let layout = compile("A { a: 31 }").unwrap();
    assert_eq!(layout.width(), Width::W32);
    assert_eq!(compile("A { a: 32 }"), Err(LayoutError::RangeBounds { at: 4 }));
}

#[test]
fn inverted_range_is_refused() {
    assert_eq!(compile("A { a:3..=2 }"), Err(LayoutError::RangeOrder { at: 4 }));
}

#[test]
fn overlapping_fields_are_refused() {
    // 0 A, 1 {, 2 a, 3 :, 4 0, 5 ., 6 ., 7 =, 8 3, 9 ',', 10 b
    assert_eq!(
        compile("A { a:0..=3, b:2..=5 }"),
        Err(LayoutError::Overlap { at: 10, with: 2 })
    );
}

#[test]
fn default_that_needs_too_many_bits_is_refused() {
    // 0 A, 1 {, 2 x, 3 :, 4 3, 5 =, 6 5
    assert_eq!(compile("A { x:3=5 }"), Err(LayoutError::DefaultOverflow { at: 6 }));
}

#[test]
fn default_that_just_fits_is_accepted() {
    let layout = compile("A { _size: 8, a: 2..=4 = 7, b: 5 = 1, c: 6 = 0 }").unwrap();
    assert_eq!(layout.default_value(), (7 << 2) | (1 << 5));
    // 8 start, 9 '.', 10 '.', 11 '=', 12 end, 13 '=', 14 default
    assert_eq!(
        compile("A { _size: 8, a: 2..=4 = 8 }"),
        Err(LayoutError::DefaultOverflow { at: 14 })
    );
    assert_eq!(compile("A { _size: 8, b: 5 = 2 }"), Err(LayoutError::DefaultOverflow { at: 10 }));
}

#[test]
fn default_is_the_union_of_the_placed_defaults() {
    let layout =
        compile("A { _size: 16, a: 0..=3 = 5, b: 8 = 1, c: 12..=15 = 0xF, d: 4..=7 }").unwrap();
    assert_eq!(layout.default_value(), 0xF105);
    assert_eq!(layout.default_word().raw(), 0xF105);
}

#[test]
fn new_word_holds_the_default_of_every_field() {
    let layout = compile(
        "A { _size: 32, flag: 31 = 1, low: 0..=3 = 9, mid: 8..16 = 0xA5, off: 20, free: 24..=27 }",
    )
    .unwrap();
    let word = layout.default_word();
    assert_eq!(range_reader(&layout, "low").get_bits(&word), 9);
    assert_eq!(range_reader(&layout, "mid").get_bits(&word), 0xA5);
    assert_eq!(range_reader(&layout, "free").get_bits(&word), 0);
    assert!(bit_reader(&layout, "flag").is_bit_set(&word));
    assert_eq!(bit_reader(&layout, "flag").get_bit(&word), 1);
    assert!(bit_reader(&layout, "off").is_bit_clear(&word));
    assert_eq!(word.raw(), (1 << 31) | (0xA5 << 8) | 9);
}

#[test]
fn raw_integer_wraps_into_a_word_of_the_layout() {
    let layout = compile("A { _size: 16, hi: 8..=15, lo: 0..=7 }").unwrap();
    let word = layout.wrap(0xBEEF);
    assert_eq!(range_reader(&layout, "hi").get_bits(&word), 0xBE);
    assert_eq!(range_reader(&layout, "lo").get_bits(&word), 0xEF);
    assert_eq!(word.into_inner(), 0xBEEF);
}

#[test]
fn default_of_a_layout_without_defaults_is_zero() {
    assert_eq!(compile("A { a: 0, b: 1..=5 }").unwrap().default_value(), 0);
}

#[test]
fn default_may_use_the_highest_bit_of_128() {
    let layout = compile("A { _size: 128, top: 127 = 1, rest: 0..=126 }").unwrap();
    assert_eq!(layout.default_value(), 1u128 << 127);
    let layout = compile(
        "A { _size: 128, all: 0..=127 = 0xFFFF_FFFF_FFFF_FFFF_FFFF_FFFF_FFFF_FFFF }",
    )
    .unwrap();
    assert_eq!(layout.default_value(), u128::MAX);
}

#[test]
fn half_open_range_ends_one_below() {
    let layout = compile("A { a: 0..4, b: 4..8 }").unwrap();
    assert_eq!(layout.modifiers()[0].bits, Bits::Range(0, 3));
    assert_eq!(layout.modifiers()[1].bits, Bits::Range(4, 7));
}

#[test]
fn range_of_one_bit_is_refused() {
    // 6 a, 7 ':', 8 start
    assert_eq!(compile("A { _size: 8, a: 7..=7 }"), Err(LayoutError::RangeOrder { at: 8 }));
    assert_eq!(compile("A { _size: 8, a: 7..8 }"), Err(LayoutError::RangeOrder { at: 8 }));
    assert_eq!(compile("A { _size: 8, a: 0..0 }"), Err(LayoutError::RangeOrder { at: 8 }));
    assert_eq!(compile("A { _size: 8, a: 7 }").unwrap().modifiers()[0].bits, Bits::Single(7));
}

#[test]
fn bits_outside_the_word_are_refused() {
    // 6 a, 7 ':', 8 position
    assert_eq!(compile("A { _size: 8, a: 8 }"), Err(LayoutError::RangeBounds { at: 8 }));
    // 8 start, 9 '.', 10 '.', 11 '=', 12 end
    assert_eq!(compile("A { _size: 8, a: 4..=8 }"), Err(LayoutError::RangeBounds { at: 12 }));
    // 8 start, 9 '.', 10 '.', 11 end
    assert_eq!(compile("A { _size: 8, a: 4..10 }"), Err(LayoutError::RangeBounds { at: 11 }));
    assert_eq!(compile("A { _size: 8, a: 4..9 }"), Err(LayoutError::RangeBounds { at: 11 }));
    assert!(compile("A { _size: 8, a: 4..8 }").is_ok());
    assert!(compile("A { _size: 8, a: 4..=7 }").is_ok());
}

#[test]
fn order_is_checked_before_bounds() {
    assert_eq!(compile("A { _size: 8, a: 9..=9 }"), Err(LayoutError::RangeOrder { at: 8 }));
    assert_eq!(compile("A { _size: 8, a: 200..=100 }"), Err(LayoutError::RangeOrder { at: 8 }));
}

#[test]
fn duplicate_name_cites_both_declarations() {
    // 0 A, 1 {, 2 a, 3 :, 4 0, 5 ',', 6 b, 7 :, 8 1, 9 ',', 10 a
    assert_eq!(
        compile("A { a: 0, b: 1, a: 2 }"),
        Err(LayoutError::DuplicateField { at: 10, first: 2 })
    );
}

#[test]
fn names_differ_by_case() {
    assert!(compile("A { a: 0, A: 1 }").is_ok());
}

#[test]
fn bits_are_checked_before_the_name_and_the_name_before_the_default() {
    // 0 A, 1 {, 2 a, 3 :, 4 0, 5 ',', 6 a, 7 :, 8 9, ...
    assert_eq!(compile("A { a: 0, a: 9..=3 }"), Err(LayoutError::RangeOrder { at: 8 }));
    assert_eq!(
        compile("A { a: 0, a: 1 = 7 }"),
        Err(LayoutError::DuplicateField { at: 6, first: 2 })
    );
}

#[test]
fn first_field_at_fault_is_reported() {
    // field b (at 6) is out of bounds, field c overflows its default
    assert_eq!(
        compile("A { _size: 8, a: 0, b: 9, c: 1 = 2 }"),
        Err(LayoutError::RangeBounds { at: 12 })
    );
}

#[test]
fn field_faults_come_before_overlaps() {
    assert_eq!(
        compile("A { _size: 8, a: 0..=3, b: 2..=5, c: 9 }"),
        Err(LayoutError::RangeBounds { at: 24 })
    );
}

#[test]
fn overlap_cites_the_first_clash_in_bit_order() {
    // 2 c, 10 a, 18 b, 26 d; in bit order: a, b, c, d; a and b clash first
    assert_eq!(
        compile("A { c: 10..=12, a: 0..=5, b: 4..=7, d: 11..=13 }"),
        Err(LayoutError::Overlap { at: 18, with: 10 })
    );
}

#[test]
fn fields_on_the_same_bit_overlap() {
    assert_eq!(compile("A { a: 3, b: 3 }"), Err(LayoutError::Overlap { at: 6, with: 2 }));
    assert_eq!(
        compile("A { a: 3..=5, b: 3 }"),
        Err(LayoutError::Overlap { at: 10, with: 2 })
    );
}

#[test]
fn neighbours_that_touch_do_not_overlap() {
    assert!(compile("A { a: 0..=3, b: 4..=7, c: 8 }").is_ok());
    assert_eq!(
        compile("A { a: 0..=4, b: 4..=7 }"),
        Err(LayoutError::Overlap { at: 10, with: 2 })
    );
}

#[test]
fn modifiers_are_in_bit_order_and_fields_in_declaration_order() {
    let layout = compile("A { hi: 20..=23, lo: 0, mid: 8..=9 }").unwrap();
    let names: Vec<&str> = layout.modifiers().iter().map(|m| m.field.as_str()).collect();
    assert_eq!(names, vec!["lo", "mid", "hi"]);
    let writers: Vec<&str> = layout.fields().iter().map(|f| f.writer.as_str()).collect();
    assert_eq!(writers, vec!["w_hi", "w_lo", "w_mid"]);
    assert_eq!(layout.find("mid"), Some(1));
    assert_eq!(layout.find("nope"), None);
}

#[test]
fn accessor_names_follow_the_case_of_the_field() {
    let layout = compile("A { FooBar: 0 }").unwrap();
    assert_eq!(layout.modifiers()[0].field, "FooBar");
    assert_eq!(layout.modifiers()[0].writer, "FOOBAR_W");
    assert_eq!(layout.modifiers()[0].reader, "FOOBAR_R");
    assert_eq!(layout.fields()[0].writer, "w_foobar");
    assert_eq!(layout.fields()[0].reader, "r_foobar");
    assert_eq!(layout.fields()[0].writer_s, "FOOBAR_W");
    assert_eq!(layout.fields()[0].reader_s, "FOOBAR_R");
}

#[test]
fn literals_are_read_as_rust_reads_them() {
    let layout = compile("A { _size: 0x40, a: 0x10..=0x1F = 0b1010, b: 0o10, c: 1_2 = 1u8 }")
        .unwrap();
    assert_eq!(layout.width(), Width::W64);
    let bits: Vec<Bits> = layout.modifiers().iter().map(|m| m.bits).collect();
    assert_eq!(bits, vec![Bits::Single(8), Bits::Single(12), Bits::Range(16, 31)]);
    assert_eq!(layout.default_value(), (0b1010 << 16) | (1 << 12));
}

#[test]
fn literals_that_are_no_integers_are_refused() {
    assert_eq!(compile("A { a: 1.5 }"), Err(LayoutError::Grammar { at: 4 }));
    assert_eq!(compile("A { a: \"3\" }"), Err(LayoutError::Grammar { at: 4 }));
    assert_eq!(compile("A { a: 'c' }"), Err(LayoutError::Grammar { at: 4 }));
    assert_eq!(compile("A { a: 0 = 1e3 }"), Err(LayoutError::Grammar { at: 6 }));
    assert_eq!(compile("A { a: x }"), Err(LayoutError::Grammar { at: 4 }));
    assert_eq!(compile("A { a: -1 }"), Err(LayoutError::Grammar { at: 4 }));
}

#[test]
fn literals_beyond_128_bits_are_refused() {
    assert_eq!(
        compile("A { a: 340282366920938463463374607431768211456 }"),
        Err(LayoutError::Grammar { at: 4 })
    );
    assert_eq!(
        compile("A { a: 340282366920938463463374607431768211455 }"),
        Err(LayoutError::RangeBounds { at: 4 })
    );
}

#[test]
fn keywords_are_no_names() {
    assert_eq!(compile("A { type: 0 }"), Err(LayoutError::Grammar { at: 2 }));
    assert_eq!(compile("A { a: 0, fn: 1 }"), Err(LayoutError::Grammar { at: 6 }));
    assert_eq!(compile("A { _: 0 }"), Err(LayoutError::Grammar { at: 2 }));
    assert_eq!(compile("struct { a: 0 }"), Err(LayoutError::Grammar { at: 0 }));
    assert_eq!(compile("A { self: 0 }"), Err(LayoutError::Grammar { at: 2 }));
    assert!(compile("A { typ: 0, _a: 1, union: 2, r#type: 3 }").is_ok());
}

#[test]
fn groups_without_brackets_are_looked_through() {
    let literal = proc_macro2::Group::new(
        proc_macro2::Delimiter::None,
        "3".parse::<TokenStream>().unwrap(),
    );
    let mut body = TokenStream::new();
    body.extend("a:".parse::<TokenStream>().unwrap());
    body.extend(std::iter::once(TokenTree::Group(literal)));
    let braces = proc_macro2::Group::new(proc_macro2::Delimiter::Brace, body);
    let mut stream = "A".parse::<TokenStream>().unwrap();
    stream.extend(std::iter::once(TokenTree::Group(braces)));
    let mut tokens = Vec::new();
    flatten(stream, &mut tokens);
    let layout = bitfield(&tokens).unwrap();
    assert_eq!(layout.modifiers()[0].bits, Bits::Single(3));
}

#[test]
fn trailing_comma_is_accepted() {
    let with = compile("A { a: 0, b: 1, }").unwrap();
    let without = compile("A { a: 0, b: 1 }").unwrap();
    assert_eq!(with, without);
}

#[test]
fn grammar_errors_name_the_first_token_that_does_not_fit() {
    assert_eq!(compile(""), Err(LayoutError::Grammar { at: 0 }));
    assert_eq!(compile("1 { a: 0 }"), Err(LayoutError::Grammar { at: 0 }));
    assert_eq!(compile("A"), Err(LayoutError::Grammar { at: 1 }));
    assert_eq!(compile("A ( a: 0 )"), Err(LayoutError::Grammar { at: 1 }));
    assert_eq!(compile("A [ a: 0 ]"), Err(LayoutError::Grammar { at: 1 }));
    assert_eq!(compile("A { }"), Err(LayoutError::Grammar { at: 2 }));
    assert_eq!(compile("A { , }"), Err(LayoutError::Grammar { at: 2 }));
    assert_eq!(compile("A { a 0 }"), Err(LayoutError::Grammar { at: 3 }));
    assert_eq!(compile("A { a: }"), Err(LayoutError::Grammar { at: 4 }));
    assert_eq!(compile("A { a: 0 b: 1 }"), Err(LayoutError::Grammar { at: 5 }));
    assert_eq!(compile("A { a: 0,, }"), Err(LayoutError::Grammar { at: 6 }));
    assert_eq!(compile("A { a: 0.. }"), Err(LayoutError::Grammar { at: 7 }));
    assert_eq!(compile("A { a: 0..= }"), Err(LayoutError::Grammar { at: 8 }));
    assert_eq!(compile("A { a: 0 = }"), Err(LayoutError::Grammar { at: 6 }));
    assert_eq!(compile("A { a: 0 = 1 = 2 }"), Err(LayoutError::Grammar { at: 7 }));
    assert_eq!(compile("A { a: 0 } B"), Err(LayoutError::Grammar { at: 6 }));
    assert_eq!(compile("A { a: (0) }"), Err(LayoutError::Grammar { at: 4 }));
}

#[test]
fn size_declaration_must_be_complete() {
    assert_eq!(compile("A { _size 8, a: 0 }"), Err(LayoutError::Grammar { at: 3 }));
    assert_eq!(compile("A { _size: x, a: 0 }"), Err(LayoutError::Grammar { at: 4 }));
    assert_eq!(compile("A { _size: 8 a: 0 }"), Err(LayoutError::Grammar { at: 5 }));
    assert_eq!(compile("A { _size: 8 }"), Err(LayoutError::Grammar { at: 5 }));
    assert_eq!(compile("A { _size: 8, }"), Err(LayoutError::Grammar { at: 6 }));
}

#[test]
fn size_word_behind_the_first_place_is_a_field() {
    let layout = compile("A { a: 0, _size: 8 }").unwrap();
    assert_eq!(layout.width(), Width::W32);
    assert_eq!(layout.modifiers()[1].field, "_size");
    assert_eq!(layout.modifiers()[1].bits, Bits::Single(8));
}

#[test]
fn grammar_is_checked_before_the_layout() {
    assert_eq!(compile("A { _size: 24, a 0 }"), Err(LayoutError::Grammar { at: 7 }));
    assert_eq!(compile("A { a: 3..=2, b }"), Err(LayoutError::Grammar { at: 11 }));
}

#[test]
fn dots_must_stand_together() {
    // 4 is the literal, 5 and 6 are the dots
    assert_eq!(compile("A { a: 0 . . 3 }"), Err(LayoutError::Grammar { at: 5 }));
    // `0.` is a literal of its own, and no integer
    assert_eq!(compile("A { a: 0. .3 }"), Err(LayoutError::Grammar { at: 4 }));
    assert!(compile("A { a: 0.. =3 }").is_ok());
    assert_eq!(compile("A { a: 0 .. = 3 }").unwrap().modifiers()[0].bits, Bits::Range(0, 3));
}

#[test]
fn range_with_default() {
    let layout = compile("A { a: 4..=7 = 9, b: 0..4 = 3 }").unwrap();
    assert_eq!(layout.default_value(), (9 << 4) | 3);
}

#[test]
fn compiling_twice_gives_the_same_layout() {
    let text = "Ctrl{ _size:8, enable:0=1, mode:1..=2, reserved:3..=7 }";
    assert_eq!(compile(text), compile(text));
}
