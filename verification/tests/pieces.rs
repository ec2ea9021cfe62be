use ckboots::codec::{capacity, frame};
use ckboots::le::{le_read, le_write};
use ckboots::record::{
    field_default, pair_fixed_size, put_field, read_pair, record_fixed_size, seal,
};
use ckboots::sum::{read_carried, read_tag, write_bare, write_carrying};
use ckboots::text::same_text;
use ckboots::OnChain;

#[test]
fn little_endian_digits() {
    assert_eq!(le_write(0x0102_0304, 4), vec![4, 3, 2, 1]);
    assert_eq!(le_write(0x0102_0304, 2), vec![4, 3]);
    assert_eq!(le_write(5, 0), Vec::<u8>::new());
    assert_eq!(le_write(u128::MAX, 16), vec![0xff; 16]);
    assert_eq!(le_read(&[4, 3, 2, 1, 9], 4), 0x0102_0304);
    assert_eq!(le_read(&[4, 3, 2, 1, 9], 0), 0);
    assert_eq!(le_read(&[0xff; 16], 16), u128::MAX);
    assert_eq!(le_read(&[0, 1], 2), 256);
}

#[test]
fn frame_counts_in_eight_bytes() {
    assert_eq!(frame(vec![]), vec![0; 8]);
    assert_eq!(frame(vec![7, 8, 9]), vec![3, 0, 0, 0, 0, 0, 0, 0, 7, 8, 9]);
    let long = frame(vec![1; 300]);
    assert_eq!(&long[..8], &[44, 1, 0, 0, 0, 0, 0, 0]);
    assert_eq!(long.len(), 308);
}

#[test]
fn capacity_is_the_length_of_the_encoding() {
    let v: Vec<String> = vec![String::from("ab"), String::new()];
    assert_eq!(capacity(&v), 26);
    assert_eq!(capacity(&v), v._capacity());
    assert_eq!(capacity(&v), v._to_bytes().len() as u64);
    assert_eq!(capacity(&7u16), 2);
}

#[test]
fn record_is_fixed_size_if_every_field_is() {
    assert_eq!(record_fixed_size(&[]), Some(0));
    assert_eq!(record_fixed_size(&[Some(1), Some(2), Some(16)]), Some(19));
    assert_eq!(record_fixed_size(&[Some(1), None, Some(16)]), None);
    assert_eq!(record_fixed_size(&[None]), None);
    assert_eq!(record_fixed_size(&[Some(u64::MAX), Some(0)]), Some(u64::MAX));
    assert_eq!(record_fixed_size(&[Some(u64::MAX), Some(1)]), None);
    assert_eq!(record_fixed_size(&[Some(u64::MAX), Some(1), None]), None);
    assert_eq!(pair_fixed_size::<u8, i64>(), Some(9));
    assert_eq!(pair_fixed_size::<u8, String>(), None);
    assert_eq!(pair_fixed_size::<Vec<u8>, u8>(), None);
}

#[test]
fn fields_are_written_one_behind_the_other() {
    let mut out = vec![9];
    put_field(&mut out, &0x0102u16);
    put_field(&mut out, &String::from("a"));
    assert_eq!(out, vec![9, 2, 1, 1, 0, 0, 0, 0, 0, 0, 0, b'a']);
    let (a, b) = read_pair::<u16, String>(&out[1..]).unwrap();
    assert_eq!(a, 0x0102);
    assert_eq!(b, "a");
    assert!(read_pair::<u16, String>(&out[1..out.len() - 1]).is_none());
    assert!(read_pair::<u16, String>(&[1]).is_none());
}

#[test]
fn seal_frames_only_what_has_no_fixed_size() {
    assert_eq!(seal(Some(2), vec![1, 2]), vec![1, 2]);
    assert_eq!(seal(None, vec![1, 2]), vec![2, 0, 0, 0, 0, 0, 0, 0, 1, 2]);
}

#[test]
fn explicit_default_takes_precedence() {
    assert_eq!(field_default::<u32>(Some(4)), 4);
    assert_eq!(field_default::<u32>(None), 0);
    assert_eq!(field_default::<String>(Some(String::from("x"))), "x");
    assert_eq!(field_default::<String>(None), "");
    assert_eq!(field_default::<Vec<u8>>(None), Vec::<u8>::new());
}

#[test]
fn variants_are_written_behind_their_tag() {
    assert_eq!(write_bare(2), vec![1, 0, 0, 0, 0, 0, 0, 0, 2]);
    assert_eq!(
        write_carrying(1, &0x0102u16),
        vec![3, 0, 0, 0, 0, 0, 0, 0, 1, 2, 1]
    );
    let (tag, rest) = read_tag(&[1, 2, 1]).unwrap();
    assert_eq!(tag, 1);
    assert_eq!(read_carried::<u16>(rest), Some(0x0102));
    assert_eq!(read_carried::<u32>(rest), None);
    assert!(read_tag(&[]).is_none());
}

#[test]
fn texts_are_compared_by_content() {
    assert!(same_text("frog", "frog"));
    assert!(!same_text("frog", "frogs"));
    assert!(!same_text("frog", "froh"));
    assert!(same_text("", ""));
    assert!(!same_text("é", "e"));
}
