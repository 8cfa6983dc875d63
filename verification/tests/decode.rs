use geotiff::lowlevel::{TIFFByteOrder, TIFFTag, TagType, TaggedData};
use geotiff::raster::ImageSizeData;
use geotiff::reader::{SeekableReader, SkippedEntry, TIFFReader};
use geotiff::tiff::TiffError;
use geotiff::TIFF;

const BYTE: u16 = 1;
const ASCII: u16 = 2;
const SHORT: u16 = 3;
const LONG: u16 = 4;

const IMAGE_WIDTH: u16 = 0x0100;
const IMAGE_LENGTH: u16 = 0x0101;
const BITS_PER_SAMPLE: u16 = 0x0102;
const STRIP_OFFSETS: u16 = 0x0111;
const SAMPLES_PER_PIXEL: u16 = 0x0115;
const ROWS_PER_STRIP: u16 = 0x0116;
const STRIP_BYTE_COUNTS: u16 = 0x0117;
const TILE_WIDTH: u16 = 0x0142;
const TILE_LENGTH: u16 = 0x0143;
const TILE_OFFSETS: u16 = 0x0144;
const TILE_BYTE_COUNTS: u16 = 0x0145;

/// Where the image data of a built file starts: right after the header.
const DATA_START: u32 = 8;

fn u16_bytes(big: bool, v: u16) -> Vec<u8> {
    if big {
        v.to_be_bytes().to_vec()
    } else {
        v.to_le_bytes().to_vec()
    }
}

fn u32_bytes(big: bool, v: u32) -> Vec<u8> {
    if big {
        v.to_be_bytes().to_vec()
    } else {
        v.to_le_bytes().to_vec()
    }
}

fn shorts(big: bool, values: &[u16]) -> Vec<u8> {
    let mut out = Vec::new();
    for v in values {
        out.extend(u16_bytes(big, *v));
    }
    out
}

fn longs(big: bool, values: &[u32]) -> Vec<u8> {
    let mut out = Vec::new();
    for v in values {
        out.extend(u32_bytes(big, *v));
    }
    out
}

/// One directory entry to build: tag, type, count, and the bytes of its values.
struct Entry {
    tag: u16,
    tpe: u16,
    count: u32,
    value: Vec<u8>,
}

fn short_entry(big: bool, tag: u16, values: &[u16]) -> Entry {
    Entry { tag, tpe: SHORT, count: values.len() as u32, value: shorts(big, values) }
}

fn long_entry(big: bool, tag: u16, values: &[u32]) -> Entry {
    Entry { tag, tpe: LONG, count: values.len() as u32, value: longs(big, values) }
}

/// Builds a file: the header, then `data` at offset 8, then the directory,
/// then the values that do not fit in their record.
fn build(big: bool, data: &[u8], entries: &[Entry]) -> Vec<u8> {
    let mut file = Vec::new();
    file.extend(if big { b"MM" } else { b"II" });
    file.extend(u16_bytes(big, 42));
    let ifd_offset = 8 + data.len() as u32;
    file.extend(u32_bytes(big, ifd_offset));
    file.extend(data);
    file.extend(u16_bytes(big, entries.len() as u16));
    let mut blob_at = ifd_offset + 2 + 12 * entries.len() as u32 + 4;
    let mut blobs: Vec<u8> = Vec::new();
    for e in entries {
        file.extend(u16_bytes(big, e.tag));
        file.extend(u16_bytes(big, e.tpe));
        file.extend(u32_bytes(big, e.count));
        if e.value.len() <= 4 {
            let mut field = e.value.clone();
            field.resize(4, 0);
            file.extend(field);
        } else {
            file.extend(u32_bytes(big, blob_at));
            blobs.extend(&e.value);
            blob_at += e.value.len() as u32;
        }
    }
    file.extend(u32_bytes(big, 0));
    file.extend(blobs);
    file
}

fn strip_file(big: bool, width: u16, length: u16, bits: u16, data: &[u8]) -> Vec<u8> {
    build(
        big,
        data,
        &[
            short_entry(big, IMAGE_WIDTH, &[width]),
            short_entry(big, IMAGE_LENGTH, &[length]),
            short_entry(big, BITS_PER_SAMPLE, &[bits]),
            long_entry(big, STRIP_OFFSETS, &[DATA_START]),
            long_entry(big, STRIP_BYTE_COUNTS, &[data.len() as u32]),
        ],
    )
}

fn tile_file(
    big: bool,
    width: u16,
    length: u16,
    tile_width: u16,
    tile_length: u16,
    data: &[u8],
    tiles: u32,
) -> Vec<u8> {
    let per_tile = data.len() as u32 / tiles;
    let offsets: Vec<u32> = (0..tiles).map(|i| DATA_START + i * per_tile).collect();
    let counts: Vec<u32> = (0..tiles).map(|_| per_tile).collect();
    build(
        big,
        data,
        &[
            short_entry(big, IMAGE_WIDTH, &[width]),
            short_entry(big, IMAGE_LENGTH, &[length]),
            short_entry(big, BITS_PER_SAMPLE, &[8]),
            short_entry(big, TILE_WIDTH, &[tile_width]),
            short_entry(big, TILE_LENGTH, &[tile_length]),
            long_entry(big, TILE_OFFSETS, &offsets),
            long_entry(big, TILE_BYTE_COUNTS, &counts),
        ],
    )
}

fn read(file: &Vec<u8>) -> Result<Box<TIFF>, TiffError> {
    TIFFReader.read(file)
}

#[test]
fn little_endian_header_is_selected() {
    let file = vec![0x49u8, 0x49, 42, 0, 8, 0, 0, 0];
    assert_eq!(TIFFReader.read_byte_order(&file), Ok(TIFFByteOrder::LittleEndian));
    assert_eq!(TIFFReader.read_magic(TIFFByteOrder::LittleEndian, &file), Ok(()));
    assert_eq!(TIFFReader.read_ifd_offset(TIFFByteOrder::LittleEndian, &file), Ok(8));
}

#[test]
fn big_endian_header_is_selected() {
    let file = vec![0x4du8, 0x4d, 0, 42, 0, 0, 1, 2];
    assert_eq!(TIFFReader.read_byte_order(&file), Ok(TIFFByteOrder::BigEndian));
    assert_eq!(TIFFReader.read_magic(TIFFByteOrder::BigEndian, &file), Ok(()));
    assert_eq!(TIFFReader.read_ifd_offset(TIFFByteOrder::BigEndian, &file), Ok(258));
}

#[test]
fn other_markers_are_refused() {
    for marker in [[0x49u8, 0x4d], [0x4d, 0x49], [0, 0], [0x49, 0x48], [0xff, 0xff]] {
        let file = vec![marker[0], marker[1], 42, 0, 8, 0, 0, 0];
        assert_eq!(TIFFReader.read_byte_order(&file), Err(TiffError::InvalidByteOrder));
        assert_eq!(read(&file).err(), Some(TiffError::InvalidByteOrder));
    }
}

#[test]
fn short_headers_are_refused() {
    assert_eq!(TIFFReader.read_byte_order(&vec![0x49u8]), Err(TiffError::UnexpectedEof));
    assert_eq!(TIFFReader.read_byte_order(&Vec::<u8>::new()), Err(TiffError::UnexpectedEof));
    let file = vec![0x49u8, 0x49, 42];
    assert_eq!(
        TIFFReader.read_magic(TIFFByteOrder::LittleEndian, &file),
        Err(TiffError::UnexpectedEof)
    );
    let file = vec![0x49u8, 0x49, 42, 0, 8, 0, 0];
    assert_eq!(
        TIFFReader.read_ifd_offset(TIFFByteOrder::LittleEndian, &file),
        Err(TiffError::UnexpectedEof)
    );
    assert_eq!(read(&file).err(), Some(TiffError::UnexpectedEof));
}

#[test]
fn wrong_magic_is_refused() {
    let file = vec![0x49u8, 0x49, 43, 0, 8, 0, 0, 0];
    assert_eq!(
        TIFFReader.read_magic(TIFFByteOrder::LittleEndian, &file),
        Err(TiffError::InvalidMagic)
    );
    assert_eq!(read(&file).err(), Some(TiffError::InvalidMagic));
    // 42 in the other byte order is not the magic number.
    let file = vec![0x4du8, 0x4d, 42, 0, 0, 0, 0, 8];
    assert_eq!(read(&file).err(), Some(TiffError::InvalidMagic));
}

#[test]
fn reader_reads_spans_inside_the_source() {
    let source = vec![10u8, 11, 12, 13, 14];
    assert_eq!(source.len(), 5);
    assert_eq!(SeekableReader::len(&source), 5);
    assert_eq!(source.read_at(1, 3), Some(vec![11, 12, 13]));
    assert_eq!(source.read_at(0, 5), Some(vec![10, 11, 12, 13, 14]));
    assert_eq!(source.read_at(5, 0), Some(vec![]));
    assert_eq!(source.read_at(3, 3), None);
    assert_eq!(source.read_at(6, 0), None);
    assert_eq!(source.read_at(u64::MAX, 2), None);
    assert_eq!(TIFFReader.read_n(&source, 2, 2), Some(vec![12, 13]));
    assert_eq!(TIFFReader.read_n(&source, 4, 2), None);
}

#[test]
fn four_bytes_are_inline_five_are_not() {
    for big in [false, true] {
        let order = if big { TIFFByteOrder::BigEndian } else { TIFFByteOrder::LittleEndian };
        let file = build(
            big,
            &[],
            &[
                Entry { tag: 0x010e, tpe: BYTE, count: 4, value: vec![1, 2, 3, 4] },
                Entry { tag: 0x010f, tpe: BYTE, count: 5, value: vec![5, 6, 7, 8, 9] },
                short_entry(big, IMAGE_WIDTH, &[7, 9]),
                short_entry(big, IMAGE_LENGTH, &[7, 9, 11]),
            ],
        );
        let (ifd, skipped) = TIFFReader.read_IFD(order, &file, 8).unwrap();
        assert!(skipped.is_empty());
        assert_eq!(ifd.count, 4);
        assert_eq!(ifd.entries.len(), 4);
        // Four bytes: the value field holds the values themselves.
        assert_eq!(ifd.entries[0].tag, TIFFTag::ImageDescriptionTag);
        assert_eq!(ifd.entries[0].tpe, TagType::Byte);
        assert_eq!(ifd.entries[0].count, 4);
        assert_eq!(ifd.entries[0].value, TaggedData::Byte(vec![1, 2, 3, 4]));
        // Five bytes: the value field holds the offset of the values.
        assert_eq!(ifd.entries[1].count, 5);
        assert_eq!(ifd.entries[1].value_offset, 8 + 2 + 48 + 4);
        assert_eq!(ifd.entries[1].value, TaggedData::Byte(vec![5, 6, 7, 8, 9]));
        assert_eq!(ifd.entries[2].value, TaggedData::Short(vec![7, 9]));
        assert_eq!(ifd.entries[3].value_offset, 8 + 2 + 48 + 4 + 5);
        assert_eq!(ifd.entries[3].value, TaggedData::Short(vec![7, 9, 11]));
    }
}

#[test]
fn inline_value_ignores_what_the_field_would_point_at() {
    // The value field reads as offset 0x0000002a; the value is 42 all the same.
    let file = build(false, &[], &[short_entry(false, IMAGE_WIDTH, &[42])]);
    let entry = TIFFReader.read_tag(TIFFByteOrder::LittleEndian, 10, 0, &file).unwrap();
    assert_eq!(entry.value_offset, 42);
    assert_eq!(entry.value, TaggedData::Short(vec![42]));
}

#[test]
fn unknown_tag_is_left_out() {
    let file = build(
        false,
        &[],
        &[
            short_entry(false, IMAGE_WIDTH, &[3]),
            short_entry(false, 0x0104, &[1]),
            short_entry(false, IMAGE_LENGTH, &[5]),
        ],
    );
    let (ifd, skipped) = TIFFReader.read_IFD(TIFFByteOrder::LittleEndian, &file, 8).unwrap();
    assert_eq!(ifd.count, 3);
    assert_eq!(ifd.entries.len(), 2);
    assert_eq!(ifd.entries[0].tag, TIFFTag::ImageWidthTag);
    assert_eq!(ifd.entries[1].tag, TIFFTag::ImageLengthTag);
    assert_eq!(ifd.entries[1].value, TaggedData::Short(vec![5]));
    assert_eq!(skipped, vec![SkippedEntry { index: 1, error: TiffError::InvalidTag(0x0104) }]);
    assert_eq!(ifd.get_image_width(), Ok(3));
    assert_eq!(ifd.get_image_length(), Ok(5));
}

#[test]
fn unknown_type_is_left_out() {
    let file = build(
        true,
        &[],
        &[
            Entry { tag: IMAGE_WIDTH, tpe: 13, count: 1, value: vec![0, 3] },
            short_entry(true, IMAGE_LENGTH, &[5]),
        ],
    );
    let (ifd, skipped) = TIFFReader.read_IFD(TIFFByteOrder::BigEndian, &file, 8).unwrap();
    assert_eq!(ifd.entries.len(), 1);
    assert_eq!(ifd.entries[0].tag, TIFFTag::ImageLengthTag);
    assert_eq!(skipped, vec![SkippedEntry { index: 0, error: TiffError::InvalidTagType(13) }]);
    assert_eq!(
        TIFFReader.read_tag(TIFFByteOrder::BigEndian, 10, 0, &file).err(),
        Some(TiffError::InvalidTagType(13))
    );
}

#[test]
fn entry_past_the_end_is_left_out() {
    let mut file = build(false, &[], &[long_entry(false, STRIP_OFFSETS, &[1, 2, 3])]);
    // Cut the values off: the record is whole, what it points at is not.
    file.truncate(file.len() - 1);
    let (ifd, skipped) = TIFFReader.read_IFD(TIFFByteOrder::LittleEndian, &file, 8).unwrap();
    assert_eq!(ifd.count, 1);
    assert!(ifd.entries.is_empty());
    assert_eq!(skipped, vec![SkippedEntry { index: 0, error: TiffError::UnexpectedEof }]);
    // A directory that declares more records than the file holds.
    let file = vec![0x49u8, 0x49, 42, 0, 8, 0, 0, 0, 2, 0];
    let (ifd, skipped) = TIFFReader.read_IFD(TIFFByteOrder::LittleEndian, &file, 8).unwrap();
    assert_eq!(ifd.count, 2);
    assert!(ifd.entries.is_empty());
    assert_eq!(skipped.len(), 2);
    // No room for the entry count itself.
    assert_eq!(
        TIFFReader.read_IFD(TIFFByteOrder::LittleEndian, &file, 9).err(),
        Some(TiffError::UnexpectedEof)
    );
}

#[test]
fn first_entry_with_a_tag_wins() {
    let file = build(
        false,
        &[],
        &[
            short_entry(false, IMAGE_WIDTH, &[3]),
            short_entry(false, IMAGE_WIDTH, &[4]),
            Entry { tag: IMAGE_LENGTH, tpe: ASCII, count: 2, value: b"5\0".to_vec() },
            short_entry(false, IMAGE_LENGTH, &[5]),
            short_entry(false, BITS_PER_SAMPLE, &[17]),
        ],
    );
    let (ifd, _) = TIFFReader.read_IFD(TIFFByteOrder::LittleEndian, &file, 8).unwrap();
    assert_eq!(ifd.get(TIFFTag::ImageWidthTag).unwrap().value, TaggedData::Short(vec![3]));
    assert!(ifd.get(TIFFTag::ArtistTag).is_none());
    assert_eq!(ifd.get_image_width(), Ok(3));
    // The first entry with the tag is text: the later one is not looked at.
    assert_eq!(ifd.get_image_length(), Err(TiffError::ImageLengthNotFound));
    assert_eq!(ifd.get_bytes_per_sample(), Ok(2));
}

#[test]
fn strip_round_trip_2x2() {
    let file = strip_file(false, 2, 2, 8, &[10, 20, 30, 40]);
    let tiff = read(&file).unwrap();
    assert_eq!(tiff.ifds.len(), 1);
    assert_eq!(tiff.ifds[0].count, 5);
    assert_eq!(
        tiff.image_data,
        vec![vec![vec![10], vec![20]], vec![vec![30], vec![40]]]
    );
}

#[test]
fn value_at_column_and_row() {
    // Three columns, two rows.
    let file = strip_file(true, 3, 2, 8, &[1, 2, 3, 4, 5, 6]);
    let tiff = read(&file).unwrap();
    assert_eq!(tiff.image_data.len(), 2);
    assert_eq!(tiff.image_data[0].len(), 3);
    for row in 0..2usize {
        for column in 0..3usize {
            // The sample sits `row * width + column` bytes into the strip.
            let expected = file[DATA_START as usize + row * 3 + column] as u64;
            assert_eq!(tiff.get_value_at(column, row), expected);
        }
    }
    assert_eq!(tiff.get_value_at(2, 0), 3);
    assert_eq!(tiff.get_value_at(0, 1), 4);
}

#[test]
fn strips_of_wider_samples() {
    let file = strip_file(false, 2, 1, 16, &[0x34, 0x12, 0xff, 0xff]);
    assert_eq!(read(&file).unwrap().image_data, vec![vec![vec![0x1234], vec![0xffff]]]);
    let file = strip_file(true, 2, 1, 16, &[0x34, 0x12, 0xff, 0xfe]);
    assert_eq!(read(&file).unwrap().image_data, vec![vec![vec![0x3412], vec![0xfffe]]]);
    let file = strip_file(true, 1, 1, 32, &[1, 2, 3, 4]);
    assert_eq!(read(&file).unwrap().image_data, vec![vec![vec![0x0102_0304]]]);
    let file = strip_file(false, 1, 1, 64, &[1, 0, 0, 0, 0, 0, 0, 0x80]);
    assert_eq!(read(&file).unwrap().image_data, vec![vec![vec![0x8000_0000_0000_0001]]]);
}

#[test]
fn several_strips_follow_each_other() {
    let data = [1u8, 2, 3, 4, 5, 6];
    let file = build(
        false,
        &data,
        &[
            short_entry(false, IMAGE_WIDTH, &[2]),
            short_entry(false, IMAGE_LENGTH, &[3]),
            short_entry(false, BITS_PER_SAMPLE, &[8]),
            short_entry(false, ROWS_PER_STRIP, &[1]),
            // The strips are stored out of order in the file.
            long_entry(false, STRIP_OFFSETS, &[DATA_START + 4, DATA_START, DATA_START + 2]),
            long_entry(false, STRIP_BYTE_COUNTS, &[2, 2, 2]),
        ],
    );
    let tiff = read(&file).unwrap();
    assert_eq!(
        tiff.image_data,
        vec![vec![vec![5], vec![6]], vec![vec![1], vec![2]], vec![vec![3], vec![4]]]
    );
    match TIFFReader.get_image_size_data(&tiff.ifds[0]) {
        Ok(ImageSizeData::Image(strips)) => {
            assert_eq!(strips.rows_per_strip, 1);
            assert_eq!(strips.strip_offsets, vec![12, 8, 10]);
            assert_eq!(strips.strip_row_byte_counts, vec![2, 2, 2]);
        }
        _ => panic!("strips were expected"),
    }
}

#[test]
fn samples_of_a_pixel_are_interleaved() {
    let data = [1u8, 2, 3, 4, 5, 6, 7, 8, 9, 10, 11, 12];
    let file = build(
        false,
        &data,
        &[
            short_entry(false, IMAGE_WIDTH, &[2]),
            short_entry(false, IMAGE_LENGTH, &[2]),
            short_entry(false, BITS_PER_SAMPLE, &[8, 8, 8]),
            short_entry(false, SAMPLES_PER_PIXEL, &[3]),
            long_entry(false, STRIP_OFFSETS, &[DATA_START]),
            long_entry(false, STRIP_BYTE_COUNTS, &[12]),
        ],
    );
    let tiff = read(&file).unwrap();
    assert_eq!(
        tiff.image_data,
        vec![
            vec![vec![1, 2, 3], vec![4, 5, 6]],
            vec![vec![7, 8, 9], vec![10, 11, 12]],
        ]
    );
    assert_eq!(tiff.get_value_at(1, 1), 10);
}

#[test]
fn one_tile_equals_strips() {
    let data = [10u8, 20, 30, 40];
    let tiled = read(&tile_file(false, 2, 2, 2, 2, &data, 1)).unwrap();
    let strips = read(&strip_file(false, 2, 2, 8, &data)).unwrap();
    assert_eq!(tiled.image_data, strips.image_data);
    assert_eq!(tiled.image_data, vec![vec![vec![10], vec![20]], vec![vec![30], vec![40]]]);
    // Not square: three columns, two rows.
    let data = [1u8, 2, 3, 4, 5, 6];
    let tiled = read(&tile_file(true, 3, 2, 3, 2, &data, 1)).unwrap();
    let strips = read(&strip_file(true, 3, 2, 8, &data)).unwrap();
    assert_eq!(tiled.image_data, strips.image_data);
}

#[test]
fn tile_rows_are_placed_from_the_bottom() {
    // A 2x4 image (two columns, four rows) in two tiles of 2x2, one above
    // the other. The tile that is stored first is the lower one.
    let data = [1u8, 2, 3, 4, 5, 6, 7, 8];
    let tiff = read(&tile_file(false, 2, 4, 2, 2, &data, 2)).unwrap();
    assert_eq!(
        tiff.image_data,
        vec![
            vec![vec![5], vec![6]],
            vec![vec![7], vec![8]],
            vec![vec![1], vec![2]],
            vec![vec![3], vec![4]],
        ]
    );
}

#[test]
fn tiles_side_by_side() {
    // A 4x2 image in two tiles of 2x2, side by side.
    let data = [1u8, 2, 3, 4, 5, 6, 7, 8];
    let tiff = read(&tile_file(true, 4, 2, 2, 2, &data, 2)).unwrap();
    assert_eq!(
        tiff.image_data,
        vec![
            vec![vec![1], vec![2], vec![5], vec![6]],
            vec![vec![3], vec![4], vec![7], vec![8]],
        ]
    );
}

#[test]
fn overhang_of_tiles_is_left_out() {
    // A 3x3 image in four tiles of 2x2. Tile 0 and 1 are the lower row of
    // tiles: they cover rows 2 and 3, and row 3 is beyond the image. Tiles 1
    // and 3 cover columns 2 and 3, and column 3 is beyond the image.
    let data = [
        11u8, 12, 13, 14, // tile 0: rows 2..4, columns 0..2
        21, 22, 23, 24, // tile 1: rows 2..4, columns 2..4
        31, 32, 33, 34, // tile 2: rows 0..2, columns 0..2
        41, 42, 43, 44, // tile 3: rows 0..2, columns 2..4
    ];
    let tiff = read(&tile_file(false, 3, 3, 2, 2, &data, 4)).unwrap();
    assert_eq!(tiff.image_data.len(), 3);
    for row in &tiff.image_data {
        assert_eq!(row.len(), 3);
        for pixel in row {
            assert_eq!(pixel.len(), 1);
        }
    }
    assert_eq!(
        tiff.image_data,
        vec![
            vec![vec![31], vec![32], vec![41]],
            vec![vec![33], vec![34], vec![43]],
            vec![vec![11], vec![12], vec![21]],
        ]
    );
    assert_eq!(tiff.get_value_at(2, 0), 41);
    assert_eq!(tiff.get_value_at(0, 2), 11);
}

#[test]
fn single_pixel_tiles_turn_the_rows_over() {
    // Four tiles of one pixel each: the lower row of tiles is stored first.
    let tiff = read(&tile_file(false, 2, 2, 1, 1, &[1, 2, 3, 4], 4)).unwrap();
    assert_eq!(tiff.image_data, vec![vec![vec![3], vec![4]], vec![vec![1], vec![2]]]);
}

#[test]
fn empty_image_has_no_rows() {
    let tiff = read(&strip_file(false, 5, 0, 8, &[])).unwrap();
    assert_eq!(tiff.image_data, Vec::<Vec<Vec<u64>>>::new());
    let tiff = read(&strip_file(false, 0, 2, 8, &[])).unwrap();
    assert_eq!(tiff.image_data, vec![Vec::<Vec<u64>>::new(), Vec::new()]);
}

#[test]
fn geometry_must_be_declared() {
    let entries = |skip: u16| -> Vec<Entry> {
        let mut all = vec![
            short_entry(false, IMAGE_WIDTH, &[1]),
            short_entry(false, IMAGE_LENGTH, &[1]),
            short_entry(false, BITS_PER_SAMPLE, &[8]),
            long_entry(false, STRIP_OFFSETS, &[DATA_START]),
            long_entry(false, STRIP_BYTE_COUNTS, &[1]),
        ];
        all.retain(|e| e.tag != skip);
        all
    };
    assert!(read(&build(false, &[9], &entries(0))).is_ok());
    assert_eq!(
        read(&build(false, &[9], &entries(IMAGE_WIDTH))).err(),
        Some(TiffError::ImageWidthNotFound)
    );
    assert_eq!(
        read(&build(false, &[9], &entries(IMAGE_LENGTH))).err(),
        Some(TiffError::ImageLengthNotFound)
    );
    assert_eq!(
        read(&build(false, &[9], &entries(BITS_PER_SAMPLE))).err(),
        Some(TiffError::ImageDepthNotFound)
    );
    assert_eq!(
        read(&build(false, &[9], &entries(STRIP_OFFSETS))).err(),
        Some(TiffError::LayoutTagsNotFound)
    );
    assert_eq!(
        read(&build(false, &[9], &entries(STRIP_BYTE_COUNTS))).err(),
        Some(TiffError::LayoutTagsNotFound)
    );
}

#[test]
fn tile_tags_must_all_be_there() {
    for skip in [TILE_WIDTH, TILE_LENGTH, TILE_OFFSETS, TILE_BYTE_COUNTS] {
        let mut entries = vec![
            short_entry(false, IMAGE_WIDTH, &[1]),
            short_entry(false, IMAGE_LENGTH, &[1]),
            short_entry(false, BITS_PER_SAMPLE, &[8]),
            short_entry(false, TILE_WIDTH, &[1]),
            short_entry(false, TILE_LENGTH, &[1]),
            long_entry(false, TILE_OFFSETS, &[DATA_START]),
            long_entry(false, TILE_BYTE_COUNTS, &[1]),
        ];
        assert_eq!(read(&build(false, &[9], &entries)).unwrap().image_data, vec![vec![vec![9]]]);
        entries.retain(|e| e.tag != skip);
        assert_eq!(read(&build(false, &[9], &entries)).err(), Some(TiffError::LayoutTagsNotFound));
    }
}

#[test]
fn tile_offsets_and_counts_must_be_integers() {
    let entries = |offsets: Entry, counts: Entry| -> Vec<Entry> {
        vec![
            short_entry(false, IMAGE_WIDTH, &[1]),
            short_entry(false, IMAGE_LENGTH, &[1]),
            short_entry(false, BITS_PER_SAMPLE, &[8]),
            short_entry(false, TILE_WIDTH, &[1]),
            short_entry(false, TILE_LENGTH, &[1]),
            offsets,
            counts,
        ]
    };
    let text = |tag: u16| Entry { tag, tpe: ASCII, count: 1, value: vec![0] };
    assert_eq!(
        read(&build(
            false,
            &[9],
            &entries(text(TILE_OFFSETS), long_entry(false, TILE_BYTE_COUNTS, &[1]))
        ))
        .err(),
        Some(TiffError::OffsetsUnreadable)
    );
    assert_eq!(
        read(&build(
            false,
            &[9],
            &entries(long_entry(false, TILE_OFFSETS, &[DATA_START]), text(TILE_BYTE_COUNTS))
        ))
        .err(),
        Some(TiffError::ByteCountsUnreadable)
    );
}

#[test]
fn sample_width_must_be_supported() {
    for bits in [0u16, 1, 7, 24, 40, 128] {
        assert_eq!(
            read(&strip_file(false, 1, 1, bits, &[1, 2, 3])).err(),
            Some(TiffError::UnsupportedSampleWidth)
        );
    }
    // Bits that are no whole number of bytes are rounded down.
    assert_eq!(
        read(&strip_file(false, 1, 1, 15, &[7])).unwrap().image_data,
        vec![vec![vec![7]]]
    );
}

#[test]
fn stored_samples_must_fill_the_raster() {
    // One sample too few, and one too many.
    assert_eq!(
        read(&strip_file(false, 2, 2, 8, &[1, 2, 3])).err(),
        Some(TiffError::InconsistentGeometry)
    );
    assert_eq!(
        read(&strip_file(false, 2, 2, 8, &[1, 2, 3, 4, 5])).err(),
        Some(TiffError::InconsistentGeometry)
    );
    // A tile that is too short, a tile too many, and a tile without a width.
    assert_eq!(
        read(&tile_file(false, 2, 2, 2, 2, &[1, 2, 3], 1)).err(),
        Some(TiffError::InconsistentGeometry)
    );
    assert_eq!(
        read(&tile_file(false, 2, 2, 2, 2, &[1, 2, 3, 4, 5, 6, 7, 8], 2)).err(),
        Some(TiffError::InconsistentGeometry)
    );
    assert_eq!(
        read(&tile_file(false, 2, 2, 0, 2, &[1, 2, 3, 4], 1)).err(),
        Some(TiffError::InconsistentGeometry)
    );
}

#[test]
fn strips_must_lie_inside_the_file() {
    let file = build(
        false,
        &[1, 2, 3, 4],
        &[
            short_entry(false, IMAGE_WIDTH, &[2]),
            short_entry(false, IMAGE_LENGTH, &[2]),
            short_entry(false, BITS_PER_SAMPLE, &[8]),
            long_entry(false, STRIP_OFFSETS, &[100_000]),
            long_entry(false, STRIP_BYTE_COUNTS, &[4]),
        ],
    );
    assert_eq!(read(&file).err(), Some(TiffError::UnexpectedEof));
    let file = build(
        false,
        &[1, 2, 3, 4],
        &[
            short_entry(false, IMAGE_WIDTH, &[2]),
            short_entry(false, IMAGE_LENGTH, &[2]),
            short_entry(false, BITS_PER_SAMPLE, &[8]),
            short_entry(false, TILE_WIDTH, &[2]),
            short_entry(false, TILE_LENGTH, &[2]),
            long_entry(false, TILE_OFFSETS, &[100_000]),
            long_entry(false, TILE_BYTE_COUNTS, &[4]),
        ],
    );
    assert_eq!(read(&file).err(), Some(TiffError::UnexpectedEof));
}

#[test]
fn a_strip_holds_whole_samples_only() {
    // Five bytes of 16-bit samples are two samples; the fifth byte is left.
    let data = [1u8, 0, 2, 0, 9];
    let file = build(
        false,
        &data,
        &[
            short_entry(false, IMAGE_WIDTH, &[2]),
            short_entry(false, IMAGE_LENGTH, &[1]),
            short_entry(false, BITS_PER_SAMPLE, &[16]),
            long_entry(false, STRIP_OFFSETS, &[DATA_START]),
            long_entry(false, STRIP_BYTE_COUNTS, &[5]),
        ],
    );
    assert_eq!(read(&file).unwrap().image_data, vec![vec![vec![1], vec![2]]]);
    // More offsets than byte counts: the spare offset is no strip.
    let file = build(
        false,
        &[7, 8],
        &[
            short_entry(false, IMAGE_WIDTH, &[2]),
            short_entry(false, IMAGE_LENGTH, &[1]),
            short_entry(false, BITS_PER_SAMPLE, &[8]),
            long_entry(false, STRIP_OFFSETS, &[DATA_START, 100_000]),
            long_entry(false, STRIP_BYTE_COUNTS, &[2]),
        ],
    );
    assert_eq!(read(&file).unwrap().image_data, vec![vec![vec![7], vec![8]]]);
}

#[test]
fn samples_per_pixel_defaults_to_one() {
    let with = |samples: Entry| -> Vec<u8> {
        build(
            false,
            &[5, 6],
            &[
                short_entry(false, IMAGE_WIDTH, &[2]),
                short_entry(false, IMAGE_LENGTH, &[1]),
                short_entry(false, BITS_PER_SAMPLE, &[8]),
                samples,
                long_entry(false, STRIP_OFFSETS, &[DATA_START]),
                long_entry(false, STRIP_BYTE_COUNTS, &[2]),
            ],
        )
    };
    let one_each = vec![vec![vec![5u64], vec![6]]];
    assert_eq!(read(&with(short_entry(false, SAMPLES_PER_PIXEL, &[1]))).unwrap().image_data, one_each);
    assert_eq!(read(&with(short_entry(false, SAMPLES_PER_PIXEL, &[0]))).unwrap().image_data, one_each);
    assert_eq!(
        read(&with(Entry { tag: SAMPLES_PER_PIXEL, tpe: ASCII, count: 1, value: vec![0] }))
            .unwrap()
            .image_data,
        one_each
    );
    // Two samples for each of two pixels are more than the strip holds.
    assert_eq!(
        read(&with(short_entry(false, SAMPLES_PER_PIXEL, &[2]))).err(),
        Some(TiffError::InconsistentGeometry)
    );
    let geometry = TIFFReader
        .image_geometry(&read(&with(short_entry(false, SAMPLES_PER_PIXEL, &[1]))).unwrap().ifds[0])
        .unwrap();
    assert_eq!((geometry.length, geometry.width, geometry.depth, geometry.samples), (1, 2, 1, 1));
}

#[test]
fn tile_layout_is_found() {
    let tiff = read(&tile_file(true, 2, 2, 2, 2, &[1, 2, 3, 4], 1)).unwrap();
    match TIFFReader.get_image_size_data(&tiff.ifds[0]) {
        Ok(ImageSizeData::Tiles(tiles)) => {
            assert_eq!(tiles.tile_width, 2);
            assert_eq!(tiles.tile_length, 2);
            assert_eq!(tiles.tile_bytes_offsets.value, TaggedData::Long(vec![DATA_START]));
            assert_eq!(tiles.tile_bytes_counts.value, TaggedData::Long(vec![4]));
        }
        _ => panic!("tiles were expected"),
    }
    let image = TIFFReader.read_image_data(
        TIFFByteOrder::BigEndian,
        &tile_file(true, 2, 2, 2, 2, &[1, 2, 3, 4], 1),
        &tiff.ifds[0],
    );
    assert_eq!(image, Ok(vec![vec![vec![1], vec![2]], vec![vec![3], vec![4]]]));
}
