use yagde::gd::gd_file::{
    check_write_amount, join_word, split_word, Block, FileError, GDFile, ReadWrite,
};
use yagde::gd::keystream::Keystream;

fn keyed(seed: u32) -> GDFile {
    let mut f = GDFile::new(Vec::new());
    f.write_key(seed);
    f.write_int(0x5843_4447);
    f
}

fn reopened(f: GDFile) -> GDFile {
    let mut g = GDFile::new(f.into_bytes());
    g.validate().unwrap();
    g
}

#[test]
fn table_of_seed_zero() {
    let keys = Keystream::derive_key(0);
    assert_eq!(keys.key, 0x5555_5555);
    assert_eq!(keys.table.len(), 256);
    assert_eq!(keys.table[0], 0xa914_9caa);
    assert_eq!(keys.table[1], 0x052c_4755);
    assert_eq!(keys.table[255], 0xed2a_77fd);
}

#[test]
fn table_of_another_seed() {
    let keys = Keystream::derive_key(0x1234_5678);
    assert_eq!(keys.key, 0x4761_032d);
    assert_eq!(keys.table[0], 0x6427_cf96);
    assert_eq!(keys.table[1], 0x3e02_8ecb);
    assert_eq!(keys.table[255], 0xbe46_f969);
}

#[test]
fn plain_seed_masks_nothing() {
    let keys = Keystream::derive_key(0x5555_5555);
    assert_eq!(keys.key, 0);
    assert!(keys.table.iter().all(|&entry| entry == 0));
    assert_eq!(keys, Keystream::new());
}

#[test]
fn mask_is_low_byte_of_key() {
    let keys = Keystream::derive_key(0x1234_5678);
    assert_eq!(keys.next(), 0x2d);
}

#[test]
fn update_key_folds_bytes_in_order() {
    let mut keys = Keystream::derive_key(0x1234_5678);
    let table = keys.table.clone();
    keys.update_key(&[0, 255, 1]);
    assert_eq!(keys.key, 0x4761_032d ^ table[0] ^ table[255] ^ table[1]);
    assert_eq!(keys.table, table);
}

#[test]
fn written_bytes_under_a_key() {
    let mut f = keyed(0x1234_5678);
    f.write_int(7);
    f.write_byte(0x41);
    f.write_mark(0);
    assert_eq!(
        f.bytes(),
        &vec![
            0x78, 0x56, 0x34, 0x12, 0x6a, 0x47, 0x22, 0x1f, 0xb8, 0x8c, 0xec, 0xc2, 0x22, 0xd2,
            0xc4, 0x97, 0x79,
        ]
    );
    assert_eq!(f.key(), 0x7997_c4d2);
}

#[test]
fn primitives_read_back() {
    let mut f = keyed(0xdead_beef);
    f.write_int(0xfeed_f00d);
    f.write_byte(0xa5);
    f.write_float(1.5f32.to_bits());
    f.write_mark(77);
    f.write_int(3);
    let written_key = f.key();
    let mut g = reopened(f);
    assert_eq!(g.read_int().unwrap(), 0xfeed_f00d);
    assert_eq!(g.read_byte().unwrap(), 0xa5);
    assert_eq!(f32::from_bits(g.read_float().unwrap()), 1.5);
    assert_eq!(g.next_int().unwrap(), 77);
    assert_eq!(g.read_int().unwrap(), 3);
    assert_eq!(g.key(), written_key);
    assert_eq!(g.position(), g.bytes().len());
}

#[test]
fn next_int_leaves_the_key() {
    let mut f = keyed(0x1234_5678);
    f.write_mark(5);
    let mut g = reopened(f);
    let key = g.key();
    let at = g.position();
    assert_eq!(g.next_int().unwrap(), 5);
    assert_eq!(g.key(), key);
    assert_eq!(g.position(), at + 4);
}

#[test]
fn read_int_moves_the_key() {
    let mut f = keyed(0x1234_5678);
    f.write_int(5);
    let mut g = reopened(f);
    let key = g.key();
    assert_eq!(g.read_int().unwrap(), 5);
    assert_ne!(g.key(), key);
}

#[test]
fn wide_string_is_low_byte_first() {
    let mut f = keyed(0x5555_5555);
    f.write_wstring("A\u{142}").unwrap();
    assert_eq!(&f.bytes()[8..], &[2, 0, 0, 0, 0x41, 0x00, 0x42, 0x01]);

    let mut f = keyed(0x1234_5678);
    f.write_wstring("A\u{142}").unwrap();
    assert_eq!(&f.bytes()[8..], &[0xbd, 0x8c, 0xec, 0xc2, 0x52, 0x18, 0x24, 0x8b]);
    assert_eq!(f.key(), 0xb3ea_4b98);
    let mut g = reopened(f);
    assert_eq!(g.read_wstring().unwrap(), "A\u{142}");
}

#[test]
fn wide_string_keeps_code_points() {
    let text = "\u{0}\u{ff}\u{100}\u{d7ff}\u{e000}\u{ffff}";
    let mut f = keyed(0x0bad_f00d);
    f.write_wstring(text).unwrap();
    let mut g = reopened(f);
    assert_eq!(g.read_wstring().unwrap(), text);
}

#[test]
fn wide_string_refuses_what_does_not_fit() {
    let mut f = keyed(1);
    assert_eq!(f.write_wstring("a\u{10000}"), Err(FileError::Unencodable));
}

#[test]
fn wide_string_refuses_a_surrogate() {
    let mut f = keyed(0x5555_5555);
    f.write_int(1);
    f.write_byte(0x00);
    f.write_byte(0xd8);
    let mut g = reopened(f);
    assert_eq!(g.read_wstring(), Err(FileError::InvalidWideChar(0xd800)));
}

#[test]
fn narrow_string_is_one_byte_per_character() {
    let mut f = keyed(0x5555_5555);
    f.write_string("Ab\u{e9}").unwrap();
    assert_eq!(&f.bytes()[8..], &[3, 0, 0, 0, 0x41, 0x62, 0xe9]);
    let mut g = reopened(f);
    assert_eq!(g.read_string().unwrap(), "Ab\u{e9}");
}

#[test]
fn narrow_string_reads_every_byte() {
    let mut f = keyed(0x1234_5678);
    f.write_int(256);
    for b in 0..=255u8 {
        f.write_byte(b);
    }
    let mut g = reopened(f);
    let text = g.read_string().unwrap();
    let codes: Vec<u32> = text.chars().map(|c| c as u32).collect();
    assert_eq!(codes, (0..256).collect::<Vec<u32>>());
}

#[test]
fn narrow_string_refuses_what_does_not_fit() {
    let mut f = keyed(1);
    assert_eq!(f.write_string("a\u{100}"), Err(FileError::Unencodable));
}

#[test]
fn empty_strings() {
    let mut f = keyed(0x1234_5678);
    f.write_string("").unwrap();
    f.write_wstring("").unwrap();
    let mut g = reopened(f);
    assert_eq!(g.read_string().unwrap(), "");
    assert_eq!(g.read_wstring().unwrap(), "");
}

#[test]
fn string_longer_than_the_file() {
    let mut f = keyed(0x1234_5678);
    f.write_int(10);
    f.write_byte(b'a');
    let mut g = reopened(f);
    assert_eq!(g.read_string(), Err(FileError::UnexpectedEof));
}

#[test]
fn lists_of_words_and_strings() {
    let mut f = keyed(0x1234_5678);
    f.write_vec(&[1u32, 2, 3]).unwrap();
    f.write_arr(&["x".to_string(), "yz".to_string()]).unwrap();
    f.write_vec::<u8>(&[]).unwrap();
    let mut g = reopened(f);
    assert_eq!(g.read_vec::<u32>().unwrap(), vec![1, 2, 3]);
    assert_eq!(g.read_arr::<String>(2).unwrap(), vec!["x".to_string(), "yz".to_string()]);
    assert_eq!(g.read_vec::<u8>().unwrap(), Vec::<u8>::new());
    assert_eq!(g.position(), g.bytes().len());
}

#[test]
fn list_written_with_its_count() {
    let mut f = keyed(0x5555_5555);
    f.write_vec(&[7u8, 8]).unwrap();
    assert_eq!(&f.bytes()[8..], &[2, 0, 0, 0, 7, 8]);
    let mut f = keyed(0x5555_5555);
    f.write_arr(&[7u8, 8]).unwrap();
    assert_eq!(&f.bytes()[8..], &[7, 8]);
}

#[test]
fn list_shorter_than_its_count() {
    let mut f = keyed(0x1234_5678);
    f.write_int(3);
    f.write_int(1);
    let mut g = reopened(f);
    assert_eq!(g.read_vec::<u32>(), Err(FileError::UnexpectedEof));
}

#[test]
fn primitive_records() {
    let mut f = keyed(0x1234_5678);
    9u8.write(&mut f).unwrap();
    10u32.write(&mut f).unwrap();
    "eleven".to_string().write(&mut f).unwrap();
    let mut g = reopened(f);
    let (mut a, mut b, mut c) = (0u8, 0u32, String::new());
    a.read(&mut g).unwrap();
    b.read(&mut g).unwrap();
    c.read(&mut g).unwrap();
    assert_eq!((a, b, c.as_str()), (9, 10, "eleven"));
}

#[test]
fn block_bytes() {
    let mut f = keyed(0x5555_5555);
    let mut b = Block::default();
    f.write_block_start(&mut b, 15);
    assert_eq!(b.end, 16);
    f.write_int(1);
    f.write_byte(2);
    f.write_block_end(&mut b).unwrap();
    assert_eq!(b.len, 5);
    assert_eq!(&f.bytes()[8..], &[15, 0, 0, 0, 5, 0, 0, 0, 1, 0, 0, 0, 2, 0, 0, 0, 0]);
}

#[test]
fn block_read_back_under_a_key() {
    let mut f = keyed(0x1234_5678);
    let mut outer = Block::default();
    f.write_block_start(&mut outer, 4);
    f.write_int(6);
    let mut inner = Block::default();
    f.write_block_start(&mut inner, 0);
    f.write_string("page").unwrap();
    f.write_block_end(&mut inner).unwrap();
    f.write_block_end(&mut outer).unwrap();
    assert_eq!(inner.len, 8);
    assert_eq!(outer.len, 4 + 8 + 8 + 4);

    let mut g = reopened(f);
    let mut outer = Block::default();
    g.read_block_start(&mut outer, 4).unwrap();
    assert_eq!(outer.len, 24);
    assert_eq!(outer.end, 16 + 24);
    assert_eq!(g.read_int().unwrap(), 6);
    let mut inner = Block::default();
    g.read_block_start(&mut inner, 0).unwrap();
    assert_eq!(g.read_string().unwrap(), "page");
    g.read_block_end(&mut inner).unwrap();
    g.read_block_end(&mut outer).unwrap();
    assert_eq!(g.position(), g.bytes().len());
}

#[test]
fn block_of_another_record() {
    let mut f = keyed(0x1234_5678);
    let mut b = Block::default();
    f.write_block_start(&mut b, 7);
    f.write_block_end(&mut b).unwrap();
    let mut g = reopened(f);
    let mut b = Block::default();
    assert_eq!(g.read_block_start(&mut b, 6), Err(FileError::FailedToValidateBlockOrder(7, 6)));
}

#[test]
fn block_left_too_early() {
    let mut f = keyed(0x1234_5678);
    let mut b = Block::default();
    f.write_block_start(&mut b, 7);
    f.write_int(1);
    f.write_int(2);
    f.write_block_end(&mut b).unwrap();
    let mut g = reopened(f);
    let mut b = Block::default();
    g.read_block_start(&mut b, 7).unwrap();
    g.read_int().unwrap();
    assert_eq!(g.read_block_end(&mut b), Err(FileError::IncorrectBlockEndPosition(20, 24)));
}

#[test]
fn block_without_its_closing_zero() {
    let mut f = keyed(0x1234_5678);
    f.write_int(7);
    f.write_mark(4);
    f.write_int(1);
    f.write_mark(9);
    let mut g = reopened(f);
    let mut b = Block::default();
    g.read_block_start(&mut b, 7).unwrap();
    g.read_int().unwrap();
    assert_eq!(g.read_block_end(&mut b), Err(FileError::FailedToValidateBlockEnding(9, 0)));
}

#[test]
fn block_cut_short() {
    let mut f = keyed(0x1234_5678);
    f.write_int(7);
    let mut g = reopened(f);
    let mut b = Block::default();
    assert_eq!(g.read_block_start(&mut b, 7), Err(FileError::UnexpectedEof));
}

#[test]
fn version_accepted_or_not() {
    let mut f = keyed(0x1234_5678);
    f.write_int(5);
    f.write_int(9);
    let mut g = reopened(f);
    assert_eq!(g.read_version(&[4, 5]).unwrap(), 5);
    assert_eq!(g.read_version(&[4, 5]), Err(FileError::UnsupportedVersion(9, vec![4, 5])));
}

#[test]
fn magic_number_checked() {
    let mut f = GDFile::new(Vec::new());
    f.write_key(0x1234_5678);
    f.write_int(0x5843_4448);
    let mut g = GDFile::new(f.into_bytes());
    assert_eq!(g.validate(), Err(FileError::InvalidMagicHeader));
}

#[test]
fn file_without_a_seed() {
    let mut g = GDFile::new(vec![1, 2, 3]);
    assert_eq!(g.validate(), Err(FileError::KeyDerivationFailed));
    let mut g = GDFile::new(Vec::new());
    assert_eq!(g.read_key(), Err(FileError::KeyDerivationFailed));
}

#[test]
fn file_without_a_magic_number() {
    let mut g = GDFile::new(vec![1, 2, 3, 4, 5]);
    assert_eq!(g.validate(), Err(FileError::UnexpectedEof));
}

#[test]
fn validate_starts_over() {
    let mut f = keyed(0x1234_5678);
    f.write_int(1);
    let mut g = GDFile::new(f.into_bytes());
    g.validate().unwrap();
    assert_eq!(g.read_int().unwrap(), 1);
    g.validate().unwrap();
    assert_eq!(g.position(), 8);
    assert_eq!(g.read_int().unwrap(), 1);
}

#[test]
fn reading_past_the_end() {
    let mut g = reopened(keyed(0x1234_5678));
    assert_eq!(g.read_byte(), Err(FileError::UnexpectedEof));
    assert_eq!(g.read_int(), Err(FileError::UnexpectedEof));
    assert_eq!(g.next_int(), Err(FileError::UnexpectedEof));
    assert_eq!(g.position(), 8);
}

#[test]
fn new_file_is_plain() {
    let mut g = GDFile::new(vec![9, 0, 0, 0, 7]);
    assert_eq!(g.position(), 0);
    assert_eq!(g.key(), 0);
    assert_eq!(g.read_int().unwrap(), 9);
    assert_eq!(g.read_byte().unwrap(), 7);
    assert_eq!(g.key(), 0);
}

#[test]
fn words_and_their_bytes() {
    assert_eq!(split_word(0x1234_5678), [0x78, 0x56, 0x34, 0x12]);
    assert_eq!(join_word(0x78, 0x56, 0x34, 0x12), 0x1234_5678);
    assert_eq!(join_word(0xff, 0, 0, 0x80), 0x8000_00ff);
}

#[test]
fn wide_character_alone() {
    let mut f = keyed(0x5555_5555);
    f.write_byte(0x42);
    f.write_byte(0x01);
    f.write_byte(0x00);
    f.write_byte(0xdc);
    let mut g = reopened(f);
    assert_eq!(g.read_wide_char().unwrap(), '\u{142}');
    assert_eq!(g.read_wide_char(), Err(FileError::InvalidWideChar(0xdc00)));
}

#[test]
fn write_amount_checked() {
    assert_eq!(check_write_amount(4, 4), Ok(()));
    assert_eq!(check_write_amount(3, 4), Err(FileError::FailedToValidateWriteAmount(3, 4)));
    assert_eq!(check_write_amount(0, 1), Err(FileError::FailedToValidateWriteAmount(0, 1)));
}

#[test]
fn block_start_takes_the_announced_length() {
    let mut f = keyed(0x1234_5678);
    f.write_int(7);
    f.write_mark(12);
    let mut g = reopened(f);
    let key = g.key();
    let mut b = Block::default();
    g.read_block_start(&mut b, 7).unwrap();
    assert_eq!(b.len, 12);
    assert_eq!(b.end, 16 + 12);
    assert_eq!(g.position(), 16);
    assert_ne!(g.key(), key);
    let after_id = g.key();

    // the key moves over the id alone, not over the length field
    let mut f = keyed(0x1234_5678);
    f.write_int(7);
    assert_eq!(f.key(), after_id);
}

#[test]
fn block_of_another_record_still_takes_its_length() {
    let mut f = keyed(0x1234_5678);
    f.write_int(7);
    let after_id = f.key();
    f.write_mark(12);
    let mut g = reopened(f);
    let mut b = Block::default();
    assert_eq!(g.read_block_start(&mut b, 6), Err(FileError::FailedToValidateBlockOrder(7, 6)));
    assert_eq!(b.len, 12);
    assert_eq!(b.end, 28);
    assert_eq!(g.position(), 16);
    assert_eq!(g.key(), after_id);
}

#[test]
fn block_cut_short_is_left_alone() {
    let mut f = keyed(0x1234_5678);
    f.write_int(7);
    let mut g = reopened(f);
    let mut b = Block { len: 1, end: 2, mask: 3 };
    assert_eq!(g.read_block_start(&mut b, 7), Err(FileError::UnexpectedEof));
    assert_eq!(b, Block { len: 1, end: 2, mask: 3 });
    assert_eq!(g.position(), 12);
}

#[test]
fn failed_block_end_leaves_cursor_and_key() {
    let mut f = keyed(0x1234_5678);
    f.write_int(7);
    f.write_mark(8);
    f.write_int(1);
    f.write_int(2);
    f.write_mark(9);
    let mut g = reopened(f);
    let mut b = Block::default();
    g.read_block_start(&mut b, 7).unwrap();
    g.read_int().unwrap();
    let (at, key) = (g.position(), g.key());
    assert_eq!(g.read_block_end(&mut b), Err(FileError::IncorrectBlockEndPosition(20, 24)));
    assert_eq!((g.position(), g.key()), (at, key));
    g.read_int().unwrap();
    let key = g.key();
    assert_eq!(g.read_block_end(&mut b), Err(FileError::FailedToValidateBlockEnding(9, 0)));
    assert_eq!((g.position(), g.key()), (28, key));
}

#[test]
fn failed_read_leaves_the_file_where_it_failed() {
    let mut f = keyed(0x1234_5678);
    f.write_int(5);
    f.write_byte(b'a');
    f.write_byte(b'b');
    let mut g = reopened(f);
    assert_eq!(g.read_string(), Err(FileError::UnexpectedEof));
    assert_eq!(g.position(), 14);
}
