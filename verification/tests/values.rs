use geotiff::endian::{read_i16, read_i32, read_u16, read_u32, read_u64};
use geotiff::lowlevel::{TIFFByteOrder, TagType, TaggedData};
use geotiff::reader::TIFFReader;

const LE: TIFFByteOrder = TIFFByteOrder::LittleEndian;
const BE: TIFFByteOrder = TIFFByteOrder::BigEndian;

#[test]
fn unsigned_reads_in_both_orders() {
    let bytes = [0x01u8, 0x02, 0x03, 0x04, 0x05, 0x06, 0x07, 0x08];
    assert_eq!(read_u16(LE, &bytes), 0x0201);
    assert_eq!(read_u16(BE, &bytes), 0x0102);
    assert_eq!(read_u32(LE, &bytes), 0x0403_0201);
    assert_eq!(read_u32(BE, &bytes), 0x0102_0304);
    assert_eq!(read_u64(LE, &bytes), 0x0807_0605_0403_0201);
    assert_eq!(read_u64(BE, &bytes), 0x0102_0304_0506_0708);
}

#[test]
fn signed_reads_in_both_orders() {
    assert_eq!(read_i16(LE, &[0xfe, 0xff]), -2);
    assert_eq!(read_i16(BE, &[0xff, 0xfe]), -2);
    assert_eq!(read_i16(LE, &[0xff, 0x7f]), 32767);
    assert_eq!(read_i16(BE, &[0x80, 0x00]), -32768);
    assert_eq!(read_i32(LE, &[0xc0, 0xbd, 0xf0, 0xff]), -1_000_000);
    assert_eq!(read_i32(BE, &[0xff, 0xf0, 0xbd, 0xc0]), -1_000_000);
    assert_eq!(read_i32(BE, &[0x7f, 0xff, 0xff, 0xff]), 2147483647);
}

#[test]
fn sample_value_by_width() {
    let reader = TIFFReader;
    assert_eq!(reader.vec_to_value(LE, &[]), 0);
    assert_eq!(reader.vec_to_value(LE, &[200]), 200);
    assert_eq!(reader.vec_to_value(LE, &[0x34, 0x12]), 0x1234);
    assert_eq!(reader.vec_to_value(BE, &[0x34, 0x12]), 0x3412);
    assert_eq!(reader.vec_to_value(LE, &[1, 0, 0, 0x80]), 0x8000_0001);
    assert_eq!(reader.vec_to_value(BE, &[1, 0, 0, 0x80]), 0x0100_0080);
    assert_eq!(
        reader.vec_to_value(LE, &[0xff, 0, 0, 0, 0, 0, 0, 0xff]),
        0xff00_0000_0000_00ff
    );
    assert_eq!(
        reader.vec_to_value(BE, &[0, 0, 0, 0, 0, 0, 1, 0]),
        256
    );
}

#[test]
fn bytes_and_undefined() {
    let reader = TIFFReader;
    assert_eq!(
        reader.bytes_to_tag_value(LE, vec![1, 2, 255], &TagType::Byte),
        TaggedData::Byte(vec![1, 2, 255])
    );
    assert_eq!(
        reader.bytes_to_tag_value(LE, vec![1, 2, 255], &TagType::Undefined),
        TaggedData::Byte(vec![])
    );
    assert_eq!(
        reader.bytes_to_tag_value(BE, vec![], &TagType::Byte),
        TaggedData::Byte(vec![])
    );
}

#[test]
fn ascii_is_one_text() {
    let reader = TIFFReader;
    assert_eq!(
        reader.bytes_to_tag_value(LE, b"WGS 84".to_vec(), &TagType::ASCII),
        TaggedData::Ascii(String::from("WGS 84"))
    );
    assert_eq!(
        reader.bytes_to_tag_value(BE, vec![0x61, 0xff, 0x62], &TagType::ASCII),
        TaggedData::Ascii(String::from("a\u{fffd}b"))
    );
    assert_eq!(
        reader.bytes_to_tag_value(BE, vec![0xc3, 0xa9], &TagType::ASCII),
        TaggedData::Ascii(String::from("\u{e9}"))
    );
}

#[test]
fn shorts_and_longs() {
    let reader = TIFFReader;
    assert_eq!(
        reader.bytes_to_tag_value(LE, vec![1, 0, 0, 2], &TagType::Short),
        TaggedData::Short(vec![1, 512])
    );
    assert_eq!(
        reader.bytes_to_tag_value(BE, vec![1, 0, 0, 2], &TagType::Short),
        TaggedData::Short(vec![256, 2])
    );
    assert_eq!(
        reader.bytes_to_tag_value(LE, vec![1, 0, 0, 2, 0xff, 0xff, 0xff, 0xff], &TagType::Long),
        TaggedData::Long(vec![0x0200_0001, 0xffff_ffff])
    );
    assert_eq!(
        reader.bytes_to_tag_value(BE, vec![1, 0, 0, 2], &TagType::Long),
        TaggedData::Long(vec![0x0100_0002])
    );
    assert_eq!(
        reader.bytes_to_tag_value(BE, vec![], &TagType::Long),
        TaggedData::Long(vec![])
    );
}

#[test]
fn signed_values() {
    let reader = TIFFReader;
    assert_eq!(
        reader.bytes_to_tag_value(LE, vec![0, 1, 127, 128, 255], &TagType::SignedByte),
        TaggedData::SignedByte(vec![0, 1, 127, -128, -1])
    );
    assert_eq!(
        reader.bytes_to_tag_value(LE, vec![0xfe, 0xff, 0x01, 0x00], &TagType::SignedShort),
        TaggedData::SignedShort(vec![-2, 1])
    );
    assert_eq!(
        reader.bytes_to_tag_value(BE, vec![0xff, 0xfe, 0x00, 0x01], &TagType::SignedShort),
        TaggedData::SignedShort(vec![-2, 1])
    );
    assert_eq!(
        reader.bytes_to_tag_value(
            BE,
            vec![0xff, 0xff, 0xff, 0xfd, 0, 0, 0, 9],
            &TagType::SignedLong
        ),
        TaggedData::SignedLong(vec![-3, 9])
    );
}

#[test]
fn rationals_are_pairs() {
    let reader = TIFFReader;
    assert_eq!(
        reader.bytes_to_tag_value(
            LE,
            vec![72, 0, 0, 0, 1, 0, 0, 0, 4, 0, 0, 0, 2, 0, 0, 0],
            &TagType::Rational
        ),
        TaggedData::Rational(vec![(72, 1), (4, 2)])
    );
    assert_eq!(
        reader.bytes_to_tag_value(
            BE,
            vec![0xff, 0xff, 0xff, 0xff, 0, 0, 0, 3],
            &TagType::SignedRational
        ),
        TaggedData::SignedRational(vec![(-1, 3)])
    );
    assert_eq!(
        reader.bytes_to_tag_value(
            BE,
            vec![0xff, 0xff, 0xff, 0xff, 0, 0, 0, 3],
            &TagType::Rational
        ),
        TaggedData::Rational(vec![(0xffff_ffff, 3)])
    );
}

#[test]
fn floats_keep_their_bits() {
    let reader = TIFFReader;
    let one = 1.0f32.to_bits();
    assert_eq!(
        reader.bytes_to_tag_value(LE, 1.0f32.to_le_bytes().to_vec(), &TagType::Float),
        TaggedData::Float(vec![one])
    );
    assert_eq!(
        reader.bytes_to_tag_value(BE, 1.0f32.to_be_bytes().to_vec(), &TagType::Float),
        TaggedData::Float(vec![one])
    );
    let value = reader.bytes_to_tag_value(BE, (-2.5f64).to_be_bytes().to_vec(), &TagType::Double);
    match value {
        TaggedData::Double(bits) => {
            assert_eq!(bits.len(), 1);
            assert_eq!(f64::from_bits(bits[0]), -2.5f64);
        }
        _ => panic!("a double was expected"),
    }
}

#[test]
fn projections_of_tagged_data() {
    assert_eq!(TaggedData::Byte(vec![1, 255]).as_unsigned_ints(), Some(vec![1usize, 255]));
    assert_eq!(TaggedData::Short(vec![1, 65535]).as_unsigned_ints(), Some(vec![1usize, 65535]));
    assert_eq!(
        TaggedData::Long(vec![0xffff_ffff]).as_unsigned_ints(),
        Some(vec![0xffff_ffffusize])
    );
    assert_eq!(TaggedData::SignedLong(vec![1]).as_unsigned_ints(), None);
    assert_eq!(TaggedData::Ascii(String::from("1")).as_unsigned_ints(), None);
    assert_eq!(TaggedData::Float(vec![1]).as_unsigned_ints(), None);
    assert_eq!(TaggedData::Short(vec![3, 4]).as_shorts(), Some(vec![3u16, 4]));
    assert_eq!(TaggedData::Byte(vec![3, 4]).as_shorts(), None);
    assert_eq!(TaggedData::Long(vec![3, 4]).as_shorts(), None);
}

#[test]
fn clone_keeps_the_values() {
    let value = TaggedData::Rational(vec![(1, 2), (3, 4)]);
    assert_eq!(value.clone(), value);
    let text = TaggedData::Ascii(String::from("abc"));
    assert_eq!(text.clone(), text);
}
