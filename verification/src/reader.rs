//! The decoder: from the bytes of a file to its header, its directory, the
//! values of the directory's entries and the raster.

use vstd::prelude::*;
use vstd::slice::{slice_subrange, slice_to_vec};
use crate::endian::{read_i16, read_i32, read_u16, read_u32, read_u64, signed16, signed32, signed8,
    u16_value, u32_value, u64_value};
use crate::lowlevel::{decode_byte_order, tag_size, TIFFByteOrder, TagType, TaggedData,
    TaggedDataView};
use crate::raster::image_of;
use crate::tiff::{decode_tag, decode_tag_type, tag_with_code, type_with_code, IFDEntry,
    IFDEntryView, IFDView, TIFFView, TiffError, IFD, TIFF};

verus! {

/// A source of bytes that can be read at any offset.
///
/// One positioned read stands for a seek followed by a read. The source does
/// not change while it is being decoded.
pub trait SeekableReader {
    /// The bytes of the source, from its first to its last.
    spec fn bytes(&self) -> Seq<u8>;

    /// The number of bytes in the source.
    fn len(&self) -> (n: u64)
        ensures
            n == self.bytes().len(),
    ;

    /// Reads `count` bytes that start `offset` bytes into the source.
    ///
    /// The read succeeds exactly when the whole span lies inside the source.
    fn read_at(&self, offset: u64, count: u64) -> (span: Option<Vec<u8>>)
        ensures
            span is Some <==> offset + count <= self.bytes().len(),
            span is Some ==> span->0@ == self.bytes().subrange(
                offset as int,
                offset + count,
            ),
    ;
}

impl SeekableReader for Vec<u8> {
    open spec fn bytes(&self) -> Seq<u8> {
        self@
    }

    fn len(&self) -> (n: u64) {
        Vec::len(self) as u64
    }

    fn read_at(&self, offset: u64, count: u64) -> (span: Option<Vec<u8>>) {
        let len: u64 = Vec::len(self) as u64;
        if offset > len || count > len - offset {
            return None;
        }
        let start: usize = offset as usize;
        let end: usize = (offset + count) as usize;
        Some(slice_to_vec(slice_subrange(self.as_slice(), start, end)))
    }
}

/// The text that `String::from_utf8_lossy` makes of a run of bytes: the bytes
/// read as UTF-8, each invalid sequence replaced by U+FFFD.
pub uninterp spec fn utf8_lossy(bytes: Seq<u8>) -> Seq<char>;

/// `String::from_utf8_lossy`, its result taken as an owned `String`.
/// Assumed: the text is the one that the function makes of these bytes, and
/// it depends on the bytes alone.
#[verifier::external_body]
fn lossy_text(bytes: &[u8]) -> (text: String)
    ensures
        text@ == utf8_lossy(bytes@),
{
    String::from_utf8_lossy(bytes).into_owned()
}

/// The `i`-th run of `width` bytes in `bytes`.
pub open spec fn chunk(bytes: Seq<u8>, i: int, width: int) -> Seq<u8> {
    bytes.subrange(i * width, (i + 1) * width)
}

/// The unsigned number that a sample of 0, 1, 2, 4 or 8 bytes stands for.
pub open spec fn sample_value(order: TIFFByteOrder, bytes: Seq<u8>) -> int {
    if bytes.len() == 1 {
        bytes[0] as int
    } else if bytes.len() == 2 {
        u16_value(order, bytes)
    } else if bytes.len() == 4 {
        u32_value(order, bytes)
    } else if bytes.len() == 8 {
        u64_value(order, bytes)
    } else {
        0
    }
}

/// The values that a run of bytes holds when read as values of type `tpe`.
///
/// A rational is the pair of its numerator and its denominator, in that
/// order. A float or a double is the bit pattern that was stored. Text is one
/// value, made of the whole run. An undefined type holds nothing.
pub open spec fn decoded_value(order: TIFFByteOrder, bytes: Seq<u8>, tpe: TagType)
    -> TaggedDataView {
    let n = bytes.len() as int;
    match tpe {
        TagType::Byte => TaggedDataView::Byte(bytes),
        TagType::ASCII => TaggedDataView::Ascii(utf8_lossy(bytes)),
        TagType::Short => TaggedDataView::Short(
            Seq::new((n / 2) as nat, |i: int| u16_value(order, chunk(bytes, i, 2)) as u16),
        ),
        TagType::Long => TaggedDataView::Long(
            Seq::new((n / 4) as nat, |i: int| u32_value(order, chunk(bytes, i, 4)) as u32),
        ),
        TagType::Rational => TaggedDataView::Rational(
            Seq::new(
                (n / 8) as nat,
                |i: int|
                    (
                        u32_value(order, chunk(bytes, 2 * i, 4)) as u32,
                        u32_value(order, chunk(bytes, 2 * i + 1, 4)) as u32,
                    ),
            ),
        ),
        TagType::SignedByte => TaggedDataView::SignedByte(
            Seq::new(n as nat, |i: int| signed8(bytes[i] as int) as i8),
        ),
        TagType::SignedShort => TaggedDataView::SignedShort(
            Seq::new(
                (n / 2) as nat,
                |i: int| signed16(u16_value(order, chunk(bytes, i, 2))) as i16,
            ),
        ),
        TagType::SignedLong => TaggedDataView::SignedLong(
            Seq::new(
                (n / 4) as nat,
                |i: int| signed32(u32_value(order, chunk(bytes, i, 4))) as i32,
            ),
        ),
        TagType::SignedRational => TaggedDataView::SignedRational(
            Seq::new(
                (n / 8) as nat,
                |i: int|
                    (
                        signed32(u32_value(order, chunk(bytes, 2 * i, 4))) as i32,
                        signed32(u32_value(order, chunk(bytes, 2 * i + 1, 4))) as i32,
                    ),
            ),
        ),
        TagType::Float => TaggedDataView::Float(
            Seq::new((n / 4) as nat, |i: int| u32_value(order, chunk(bytes, i, 4)) as u32),
        ),
        TagType::Double => TaggedDataView::Double(
            Seq::new((n / 8) as nat, |i: int| u64_value(order, chunk(bytes, i, 8)) as u64),
        ),
        TagType::Undefined => TaggedDataView::Byte(Seq::empty()),
    }
}

/// Reads `bytes` as a run of unsigned 16-bit values.
fn read_shorts(order: TIFFByteOrder, bytes: &[u8]) -> (values: Vec<u16>)
    ensures
        values@ == Seq::new(
            (bytes@.len() / 2) as nat,
            |i: int| u16_value(order, chunk(bytes@, i, 2)) as u16,
        ),
{
    let n: usize = bytes.len() / 2;
    let mut values: Vec<u16> = Vec::with_capacity(n);
    let mut i: usize = 0;
    while i < n
        invariant
            i <= n,
            2 * n <= bytes@.len() <= usize::MAX,
            values@ == Seq::new(
                i as nat,
                |k: int| u16_value(order, chunk(bytes@, k, 2)) as u16,
            ),
        decreases n - i,
    {
        let piece = slice_subrange(bytes, 2 * i, 2 * i + 2);
        values.push(read_u16(order, piece));
        i += 1;
    }
    values
}

/// Reads `bytes` as a run of unsigned 32-bit values.
fn read_longs(order: TIFFByteOrder, bytes: &[u8]) -> (values: Vec<u32>)
    ensures
        values@ == Seq::new(
            (bytes@.len() / 4) as nat,
            |i: int| u32_value(order, chunk(bytes@, i, 4)) as u32,
        ),
{
    let n: usize = bytes.len() / 4;
    let mut values: Vec<u32> = Vec::with_capacity(n);
    let mut i: usize = 0;
    while i < n
        invariant
            i <= n,
            4 * n <= bytes@.len() <= usize::MAX,
            values@ == Seq::new(
                i as nat,
                |k: int| u32_value(order, chunk(bytes@, k, 4)) as u32,
            ),
        decreases n - i,
    {
        let piece = slice_subrange(bytes, 4 * i, 4 * i + 4);
        values.push(read_u32(order, piece));
        i += 1;
    }
    values
}

/// Reads `bytes` as a run of 64-bit patterns.
fn read_doubles(order: TIFFByteOrder, bytes: &[u8]) -> (values: Vec<u64>)
    ensures
        values@ == Seq::new(
            (bytes@.len() / 8) as nat,
            |i: int| u64_value(order, chunk(bytes@, i, 8)) as u64,
        ),
{
    let n: usize = bytes.len() / 8;
    let mut values: Vec<u64> = Vec::with_capacity(n);
    let mut i: usize = 0;
    while i < n
        invariant
            i <= n,
            8 * n <= bytes@.len() <= usize::MAX,
            values@ == Seq::new(
                i as nat,
                |k: int| u64_value(order, chunk(bytes@, k, 8)) as u64,
            ),
        decreases n - i,
    {
        let piece = slice_subrange(bytes, 8 * i, 8 * i + 8);
        values.push(read_u64(order, piece));
        i += 1;
    }
    values
}

/// Reads `bytes` as a run of signed 16-bit values.
fn read_signed_shorts(order: TIFFByteOrder, bytes: &[u8]) -> (values: Vec<i16>)
    ensures
        values@ == Seq::new(
            (bytes@.len() / 2) as nat,
            |i: int| signed16(u16_value(order, chunk(bytes@, i, 2))) as i16,
        ),
{
    let n: usize = bytes.len() / 2;
    let mut values: Vec<i16> = Vec::with_capacity(n);
    let mut i: usize = 0;
    while i < n
        invariant
            i <= n,
            2 * n <= bytes@.len() <= usize::MAX,
            values@ == Seq::new(
                i as nat,
                |k: int| signed16(u16_value(order, chunk(bytes@, k, 2))) as i16,
            ),
        decreases n - i,
    {
        let piece = slice_subrange(bytes, 2 * i, 2 * i + 2);
        values.push(read_i16(order, piece));
        i += 1;
    }
    values
}

/// Reads `bytes` as a run of signed 32-bit values.
fn read_signed_longs(order: TIFFByteOrder, bytes: &[u8]) -> (values: Vec<i32>)
    ensures
        values@ == Seq::new(
            (bytes@.len() / 4) as nat,
            |i: int| signed32(u32_value(order, chunk(bytes@, i, 4))) as i32,
        ),
{
    let n: usize = bytes.len() / 4;
    let mut values: Vec<i32> = Vec::with_capacity(n);
    let mut i: usize = 0;
    while i < n
        invariant
            i <= n,
            4 * n <= bytes@.len() <= usize::MAX,
            values@ == Seq::new(
                i as nat,
                |k: int| signed32(u32_value(order, chunk(bytes@, k, 4))) as i32,
            ),
        decreases n - i,
    {
        let piece = slice_subrange(bytes, 4 * i, 4 * i + 4);
        values.push(read_i32(order, piece));
        i += 1;
    }
    values
}

/// Reads `bytes` as a run of unsigned fractions, each a numerator followed by a
/// denominator.
fn read_rationals(order: TIFFByteOrder, bytes: &[u8]) -> (values: Vec<(u32, u32)>)
    ensures
        values@ == Seq::new(
            (bytes@.len() / 8) as nat,
            |i: int| (u32_value(order, chunk(bytes@, 2 * i, 4)) as u32, u32_value(order, chunk(bytes@, 2 * i + 1, 4)) as u32),
        ),
{
    let n: usize = bytes.len() / 8;
    let mut values: Vec<(u32, u32)> = Vec::with_capacity(n);
    let mut i: usize = 0;
    while i < n
        invariant
            i <= n,
            8 * n <= bytes@.len() <= usize::MAX,
            values@ == Seq::new(
                i as nat,
                |k: int| (u32_value(order, chunk(bytes@, 2 * k, 4)) as u32, u32_value(order, chunk(bytes@, 2 * k + 1, 4)) as u32),
            ),
        decreases n - i,
    {
        let numerator = read_u32(order, slice_subrange(bytes, 8 * i, 8 * i + 4));
        let denominator = read_u32(order, slice_subrange(bytes, 8 * i + 4, 8 * i + 8));
        values.push((numerator, denominator));
        i += 1;
    }
    values
}

/// Reads `bytes` as a run of signed fractions, each a numerator followed by a
/// denominator.
fn read_signed_rationals(order: TIFFByteOrder, bytes: &[u8]) -> (values: Vec<(i32, i32)>)
    ensures
        values@ == Seq::new(
            (bytes@.len() / 8) as nat,
            |i: int| (signed32(u32_value(order, chunk(bytes@, 2 * i, 4))) as i32, signed32(u32_value(order, chunk(bytes@, 2 * i + 1, 4))) as i32),
        ),
{
    let n: usize = bytes.len() / 8;
    let mut values: Vec<(i32, i32)> = Vec::with_capacity(n);
    let mut i: usize = 0;
    while i < n
        invariant
            i <= n,
            8 * n <= bytes@.len() <= usize::MAX,
            values@ == Seq::new(
                i as nat,
                |k: int| (signed32(u32_value(order, chunk(bytes@, 2 * k, 4))) as i32, signed32(u32_value(order, chunk(bytes@, 2 * k + 1, 4))) as i32),
            ),
        decreases n - i,
    {
        let numerator = read_i32(order, slice_subrange(bytes, 8 * i, 8 * i + 4));
        let denominator = read_i32(order, slice_subrange(bytes, 8 * i + 4, 8 * i + 8));
        values.push((numerator, denominator));
        i += 1;
    }
    values
}

/// Reads each byte of `bytes` as a signed value in two's complement.
fn read_signed_bytes(bytes: &[u8]) -> (values: Vec<i8>)
    ensures
        values@ == Seq::new(bytes@.len(), |i: int| signed8(bytes@[i] as int) as i8),
{
    let n: usize = bytes.len();
    let mut values: Vec<i8> = Vec::with_capacity(n);
    let mut i: usize = 0;
    while i < n
        invariant
            i <= n,
            n == bytes@.len(),
            values@ == Seq::new(i as nat, |k: int| signed8(bytes@[k] as int) as i8),
        decreases n - i,
    {
        let b: u8 = bytes[i];
        let v: i8 = if b < 0x80 {
            b as i8
        } else {
            (b as i16 - 0x100) as i8
        };
        values.push(v);
        i += 1;
    }
    values
}


/// The byte order that the header of a file announces.
///
/// The first two bytes, read as a little-endian number, must be the code of
/// a byte order.
pub open spec fn header_byte_order(bytes: Seq<u8>) -> Result<TIFFByteOrder, TiffError> {
    if bytes.len() < 2 {
        Err(TiffError::UnexpectedEof)
    } else {
        let marker = u16_value(TIFFByteOrder::LittleEndian, bytes.subrange(0, 2));
        if marker == TIFFByteOrder::LittleEndian.code() {
            Ok(TIFFByteOrder::LittleEndian)
        } else if marker == TIFFByteOrder::BigEndian.code() {
            Ok(TIFFByteOrder::BigEndian)
        } else {
            Err(TiffError::InvalidByteOrder)
        }
    }
}

/// Whether the header carries the magic number: bytes 2 and 3 must be 42 in
/// the byte order of the file.
pub open spec fn header_magic(order: TIFFByteOrder, bytes: Seq<u8>) -> Result<(), TiffError> {
    if bytes.len() < 4 {
        Err(TiffError::UnexpectedEof)
    } else if u16_value(order, bytes.subrange(2, 4)) == 42 {
        Ok(())
    } else {
        Err(TiffError::InvalidMagic)
    }
}

/// Where the first directory starts: bytes 4 to 7 of the header.
pub open spec fn header_ifd_offset(order: TIFFByteOrder, bytes: Seq<u8>) -> Result<
    u32,
    TiffError,
> {
    if bytes.len() < 8 {
        Err(TiffError::UnexpectedEof)
    } else {
        Ok(u32_value(order, bytes.subrange(4, 8)) as u32)
    }
}

/// The number of bytes that the values of an entry take.
pub open spec fn value_size(count: u32, tpe: TagType) -> int {
    count * tpe.width()
}

/// Where the values of an entry start. Values of four bytes or less in all
/// are stored in the value field of the entry itself, eight bytes into the
/// record; longer ones start at the offset that the value field holds.
pub open spec fn value_start(record_start: int, total: int, value_offset: u32) -> int {
    if total <= 4 {
        record_start + 8
    } else {
        value_offset as int
    }
}

/// The directory entry whose twelve-byte record starts at `start`.
///
/// The record holds the code of the tag, the code of the value type, the
/// number of values and the value field. An entry fails to decode where the
/// record or the values reach past the end of the source, or where the tag
/// or the type is not recognised.
pub open spec fn entry_at(order: TIFFByteOrder, bytes: Seq<u8>, start: int) -> Result<
    IFDEntryView,
    TiffError,
> {
    if start + 12 > bytes.len() {
        Err(TiffError::UnexpectedEof)
    } else {
        let record = bytes.subrange(start, start + 12);
        let tag_code = u16_value(order, record) as u16;
        let type_code = u16_value(order, record.skip(2)) as u16;
        let count = u32_value(order, record.skip(4)) as u32;
        let value_offset = u32_value(order, record.skip(8)) as u32;
        match tag_with_code(tag_code) {
            None => Err(TiffError::InvalidTag(tag_code)),
            Some(tag) => match type_with_code(type_code) {
                None => Err(TiffError::InvalidTagType(type_code)),
                Some(tpe) => {
                    let total = value_size(count, tpe);
                    let at = value_start(start, total, value_offset);
                    if at + total > bytes.len() {
                        Err(TiffError::UnexpectedEof)
                    } else {
                        Ok(
                            IFDEntryView {
                                tag,
                                tpe,
                                count,
                                value_offset,
                                value: decoded_value(order, bytes.subrange(at, at + total), tpe),
                            },
                        )
                    }
                },
            },
        }
    }
}

/// The entries among the first `n` records after `base` that decode, in the
/// order of the file.
pub open spec fn directory_entries(order: TIFFByteOrder, bytes: Seq<u8>, base: int, n: nat) -> Seq<
    IFDEntryView,
>
    decreases n,
{
    if n == 0 {
        Seq::empty()
    } else {
        let earlier = directory_entries(order, bytes, base, (n - 1) as nat);
        match entry_at(order, bytes, base + 12 * (n - 1)) {
            Ok(e) => earlier.push(e),
            Err(_) => earlier,
        }
    }
}

/// The records among the first `n` after `base` that do not decode, each
/// with its index and the reason, in the order of the file.
pub open spec fn directory_failures(order: TIFFByteOrder, bytes: Seq<u8>, base: int, n: nat)
    -> Seq<SkippedEntry>
    decreases n,
{
    if n == 0 {
        Seq::empty()
    } else {
        let earlier = directory_failures(order, bytes, base, (n - 1) as nat);
        match entry_at(order, bytes, base + 12 * (n - 1)) {
            Ok(_) => earlier,
            Err(e) => earlier.push(SkippedEntry { index: (n - 1) as usize, error: e }),
        }
    }
}

/// The number of entries that the directory at `offset` declares.
pub open spec fn directory_count(order: TIFFByteOrder, bytes: Seq<u8>, offset: int) -> Result<
    u16,
    TiffError,
> {
    if offset + 2 > bytes.len() {
        Err(TiffError::UnexpectedEof)
    } else {
        Ok(u16_value(order, bytes.subrange(offset, offset + 2)) as u16)
    }
}

/// A directory record that was left out of the decoded directory.
#[derive(Clone, Copy, Debug, PartialEq, Eq, Structural)]
pub struct SkippedEntry {
    /// The index of the record in the directory, counted from 0.
    pub index: usize,
    /// Why the record did not decode.
    pub error: TiffError,
}


/// The directory that starts at `offset`: the number of entries it declares
/// and the entries that decode.
pub open spec fn directory_at(order: TIFFByteOrder, bytes: Seq<u8>, offset: int) -> Result<
    IFDView,
    TiffError,
> {
    match directory_count(order, bytes, offset) {
        Err(e) => Err(e),
        Ok(count) => Ok(
            IFDView { count, entries: directory_entries(order, bytes, offset + 2, count as nat) },
        ),
    }
}

/// The file that `bytes` hold, read in the byte order `order`: the first
/// directory and the raster it describes. Later directories are not read.
pub open spec fn tiff_of(order: TIFFByteOrder, bytes: Seq<u8>) -> Result<TIFFView, TiffError> {
    match header_magic(order, bytes) {
        Err(e) => Err(e),
        Ok(_) => match header_ifd_offset(order, bytes) {
            Err(e) => Err(e),
            Ok(offset) => match directory_at(order, bytes, offset as int) {
                Err(e) => Err(e),
                Ok(ifd) => match image_of(order, bytes, ifd) {
                    Err(e) => Err(e),
                    Ok(image_data) => Ok(TIFFView { ifds: seq![ifd], image_data }),
                },
            },
        },
    }
}

/// The file that `bytes` hold.
pub open spec fn decoded_file(bytes: Seq<u8>) -> Result<TIFFView, TiffError> {
    match header_byte_order(bytes) {
        Err(e) => Err(e),
        Ok(order) => tiff_of(order, bytes),
    }
}

/// A header whose first two bytes are both `I` selects the little-endian
/// order, one whose first two bytes are both `M` the big-endian order, and
/// every other pair of bytes is refused.
pub proof fn lemma_byte_order_gate(bytes: Seq<u8>)
    requires
        bytes.len() >= 2,
    ensures
        bytes[0] == 0x49 && bytes[1] == 0x49 <==> header_byte_order(bytes) == Ok::<
            TIFFByteOrder,
            TiffError,
        >(TIFFByteOrder::LittleEndian),
        bytes[0] == 0x4d && bytes[1] == 0x4d <==> header_byte_order(bytes) == Ok::<
            TIFFByteOrder,
            TiffError,
        >(TIFFByteOrder::BigEndian),
        !(bytes[0] == 0x49 && bytes[1] == 0x49) && !(bytes[0] == 0x4d && bytes[1] == 0x4d)
            <==> header_byte_order(bytes) == Err::<TIFFByteOrder, TiffError>(
            TiffError::InvalidByteOrder,
        ),
{
}

/// The values of a decoded entry come from the value field of its record
/// where they take four bytes or less in all, and from the offset that the
/// value field holds where they take more. Four bytes are still stored in
/// the record; five are not.
pub proof fn lemma_value_location(
    order: TIFFByteOrder,
    bytes: Seq<u8>,
    start: int,
    entry: IFDEntryView,
)
    requires
        entry_at(order, bytes, start) == Ok::<IFDEntryView, TiffError>(entry),
    ensures
        value_size(entry.count, entry.tpe) <= 4 ==> entry.value == decoded_value(
            order,
            bytes.subrange(start + 8, start + 8 + value_size(entry.count, entry.tpe)),
            entry.tpe,
        ),
        value_size(entry.count, entry.tpe) > 4 ==> entry.value == decoded_value(
            order,
            bytes.subrange(
                entry.value_offset as int,
                entry.value_offset + value_size(entry.count, entry.tpe),
            ),
            entry.tpe,
        ),
        forall|offset: u32| value_start(start, 4, offset) == start + 8,
        forall|offset: u32| value_start(start, 5, offset) == offset,
{
}

/// The entries of the first `i` records stay where they are when more
/// records are read.
pub proof fn lemma_directory_grows(
    order: TIFFByteOrder,
    bytes: Seq<u8>,
    base: int,
    i: nat,
    n: nat,
)
    requires
        i <= n,
    ensures
        directory_entries(order, bytes, base, i).is_prefix_of(
            directory_entries(order, bytes, base, n),
        ),
    decreases n,
{
    if i < n {
        lemma_directory_grows(order, bytes, base, i, (n - 1) as nat);
    }
}

/// A record that does not decode, such as one whose tag is not recognised,
/// is left out of the directory, and every record that decodes is in it:
/// after the entries of the records before it, whatever became of those.
pub proof fn lemma_directory_keeps_what_decodes(
    order: TIFFByteOrder,
    bytes: Seq<u8>,
    base: int,
    n: nat,
    i: int,
)
    requires
        0 <= i < n,
    ensures
        match entry_at(order, bytes, base + 12 * i) {
            Ok(e) => {
                let at = directory_entries(order, bytes, base, i as nat).len() as int;
                &&& at < directory_entries(order, bytes, base, n).len()
                &&& directory_entries(order, bytes, base, n)[at] == e
            },
            Err(_) => directory_entries(order, bytes, base, (i + 1) as nat) == directory_entries(
                order,
                bytes,
                base,
                i as nat,
            ),
        },
{
    lemma_directory_grows(order, bytes, base, (i + 1) as nat, n);
    let before = directory_entries(order, bytes, base, i as nat);
    let with_it = directory_entries(order, bytes, base, (i + 1) as nat);
    if let Ok(e) = entry_at(order, bytes, base + 12 * i) {
        assert(with_it[before.len() as int] == e);
    }
}

/// A record whose tag is not recognised does not decode.
pub proof fn lemma_unrecognised_tag_fails(order: TIFFByteOrder, bytes: Seq<u8>, start: int)
    requires
        0 <= start,
        start + 12 <= bytes.len(),
        tag_with_code(u16_value(order, bytes.subrange(start, start + 12)) as u16) is None,
    ensures
        entry_at(order, bytes, start) == Err::<IFDEntryView, TiffError>(
            TiffError::InvalidTag(u16_value(order, bytes.subrange(start, start + 12)) as u16),
        ),
{
}


/// The TIFF decoder.
pub struct TIFFReader;

impl TIFFReader {
    /// Decodes a file: its header, its first directory and its raster.
    pub fn read<R: SeekableReader>(&self, reader: &R) -> (tiff: Result<Box<TIFF>, TiffError>)
        ensures
            match tiff {
                Ok(t) => decoded_file(reader.bytes()) == Ok::<TIFFView, TiffError>((*t)@),
                Err(e) => decoded_file(reader.bytes()) == Err::<TIFFView, TiffError>(e),
            },
    {
        match self.read_byte_order(reader) {
            Err(e) => Err(e),
            Ok(order) => self.read_tiff(order, reader),
        }
    }

    /// Decodes what follows the byte order: the magic number, the offset of
    /// the first directory, that directory, and the raster.
    pub fn read_tiff<R: SeekableReader>(&self, order: TIFFByteOrder, reader: &R) -> (tiff: Result<
        Box<TIFF>,
        TiffError,
    >)
        ensures
            match tiff {
                Ok(t) => tiff_of(order, reader.bytes()) == Ok::<TIFFView, TiffError>((*t)@),
                Err(e) => tiff_of(order, reader.bytes()) == Err::<TIFFView, TiffError>(e),
            },
    {
        match self.read_magic(order, reader) {
            Err(e) => {
                return Err(e);
            },
            Ok(_) => {},
        }
        let ifd_offset: u32 = match self.read_ifd_offset(order, reader) {
            Err(e) => {
                return Err(e);
            },
            Ok(offset) => offset,
        };
        let ifd = match self.read_IFD(order, reader, ifd_offset) {
            Err(e) => {
                return Err(e);
            },
            Ok((ifd, _)) => ifd,
        };
        let image_data = match self.read_image_data(order, reader, &ifd) {
            Err(e) => {
                return Err(e);
            },
            Ok(image_data) => image_data,
        };
        let ghost directory = ifd@;
        let mut ifds: Vec<IFD> = Vec::new();
        ifds.push(ifd);
        let tiff = TIFF { ifds, image_data };
        assert(tiff@.ifds == seq![directory]);
        Ok(Box::new(tiff))
    }
    /// Reads the byte order from the first two bytes of the source.
    pub fn read_byte_order<R: SeekableReader>(&self, reader: &R) -> (order: Result<
        TIFFByteOrder,
        TiffError,
    >)
        ensures
            order == header_byte_order(reader.bytes()),
    {
        match reader.read_at(0, 2) {
            None => Err(TiffError::UnexpectedEof),
            Some(marker) => match decode_byte_order(
                read_u16(TIFFByteOrder::LittleEndian, marker.as_slice()),
            ) {
                Some(order) => Ok(order),
                None => Err(TiffError::InvalidByteOrder),
            },
        }
    }

    /// Checks the magic number that follows the byte order.
    pub fn read_magic<R: SeekableReader>(&self, order: TIFFByteOrder, reader: &R) -> (magic:
        Result<(), TiffError>)
        ensures
            magic == header_magic(order, reader.bytes()),
    {
        match reader.read_at(2, 2) {
            None => Err(TiffError::UnexpectedEof),
            Some(field) => if read_u16(order, field.as_slice()) == 42 {
                Ok(())
            } else {
                Err(TiffError::InvalidMagic)
            },
        }
    }

    /// Reads the offset of the first directory from the header.
    pub fn read_ifd_offset<R: SeekableReader>(&self, order: TIFFByteOrder, reader: &R) -> (offset:
        Result<u32, TiffError>)
        ensures
            offset == header_ifd_offset(order, reader.bytes()),
    {
        match reader.read_at(4, 4) {
            None => Err(TiffError::UnexpectedEof),
            Some(field) => Ok(read_u32(order, field.as_slice())),
        }
    }

    /// Reads one entry of a directory. `ifd_offset` is where the first record
    /// of the directory starts, and `entry_number` counts the records from 0.
    pub fn read_tag<R: SeekableReader>(
        &self,
        order: TIFFByteOrder,
        ifd_offset: u64,
        entry_number: usize,
        reader: &R,
    ) -> (entry: Result<IFDEntry, TiffError>)
        ensures
            match entry {
                Ok(e) => entry_at(order, reader.bytes(), ifd_offset + 12 * entry_number) == Ok::<
                    IFDEntryView,
                    TiffError,
                >(e@),
                Err(e) => entry_at(order, reader.bytes(), ifd_offset + 12 * entry_number) == Err::<
                    IFDEntryView,
                    TiffError,
                >(e),
            },
    {
        let len: u64 = reader.len();
        if len < 12 || ifd_offset > len - 12 || entry_number as u64 > (len - 12 - ifd_offset) / 12 {
            return Err(TiffError::UnexpectedEof);
        }
        let start: u64 = ifd_offset + 12 * (entry_number as u64);
        let record = match reader.read_at(start, 12) {
            None => {
                return Err(TiffError::UnexpectedEof);
            },
            Some(record) => record,
        };
        let tag_value: u16 = read_u16(order, record.as_slice());
        let tpe_value: u16 = read_u16(order, slice_subrange(record.as_slice(), 2, 12));
        let count_value: u32 = read_u32(order, slice_subrange(record.as_slice(), 4, 12));
        let value_offset_value: u32 = read_u32(order, slice_subrange(record.as_slice(), 8, 12));
        let tag = match decode_tag(tag_value) {
            None => {
                return Err(TiffError::InvalidTag(tag_value));
            },
            Some(tag) => tag,
        };
        let tpe = match decode_tag_type(tpe_value) {
            None => {
                return Err(TiffError::InvalidTagType(tpe_value));
            },
            Some(tpe) => tpe,
        };
        let value_size: u32 = tag_size(&tpe);
        assert(count_value * value_size <= 0x8_0000_0000) by (nonlinear_arith)
            requires
                count_value <= 0xffff_ffff,
                value_size <= 8,
        ;
        let total_size: u64 = (count_value as u64) * (value_size as u64);
        let at: u64 = if total_size <= 4 {
            start + 8
        } else {
            value_offset_value as u64
        };
        let values = match self.read_n(reader, at, total_size) {
            None => {
                return Err(TiffError::UnexpectedEof);
            },
            Some(values) => values,
        };
        assert(values@.len() % (tpe.width() as nat) == 0) by (nonlinear_arith)
            requires
                values@.len() == count_value * tpe.width(),
                tpe.width() > 0,
        ;
        Ok(
            IFDEntry {
                tag,
                count: count_value,
                value_offset: value_offset_value,
                value: self.bytes_to_tag_value(order, values, &tpe),
                tpe,
            },
        )
    }

    /// Reads the directory that starts at `ifd_offset`: the number of entries
    /// it declares, then one entry after the other.
    ///
    /// A record that does not decode is left out of the directory and listed
    /// among the skipped ones; the records after it are still read. Only a
    /// source that ends before the entry count makes the whole read fail.
    #[allow(non_snake_case)]
    pub fn read_IFD<R: SeekableReader>(&self, order: TIFFByteOrder, reader: &R, ifd_offset: u32)
        -> (directory: Result<(IFD, Vec<SkippedEntry>), TiffError>)
        ensures
            match directory {
                Ok((ifd, skipped)) => {
                    &&& directory_count(order, reader.bytes(), ifd_offset as int) == Ok::<
                        u16,
                        TiffError,
                    >(ifd.count)
                    &&& ifd@.entries == directory_entries(
                        order,
                        reader.bytes(),
                        ifd_offset + 2,
                        ifd.count as nat,
                    )
                    &&& skipped@ == directory_failures(
                        order,
                        reader.bytes(),
                        ifd_offset + 2,
                        ifd.count as nat,
                    )
                },
                Err(e) => directory_count(order, reader.bytes(), ifd_offset as int) == Err::<
                    u16,
                    TiffError,
                >(e),
            },
    {
        let entry_count: u16 = match reader.read_at(ifd_offset as u64, 2) {
            None => {
                return Err(TiffError::UnexpectedEof);
            },
            Some(field) => read_u16(order, field.as_slice()),
        };
        let mut ifd = IFD { count: entry_count, entries: Vec::with_capacity(entry_count as usize) };
        let mut skipped: Vec<SkippedEntry> = Vec::new();
        let base: u64 = ifd_offset as u64 + 2;
        let mut entry_number: usize = 0;
        while entry_number < entry_count as usize
            invariant
                entry_number <= entry_count,
                base == ifd_offset + 2,
                ifd.count == entry_count,
                ifd@.entries == directory_entries(
                    order,
                    reader.bytes(),
                    base as int,
                    entry_number as nat,
                ),
                skipped@ == directory_failures(
                    order,
                    reader.bytes(),
                    base as int,
                    entry_number as nat,
                ),
            decreases entry_count - entry_number,
        {
            match self.read_tag(order, base, entry_number, reader) {
                Ok(e) => ifd.entries.push(e),
                Err(error) => skipped.push(SkippedEntry { index: entry_number, error }),
            }
            entry_number += 1;
        }
        Ok((ifd, skipped))
    }

    /// Reads `bytes_to_read` bytes that start at `offset`, or nothing where
    /// the source ends before the last of them.
    pub fn read_n<R: SeekableReader>(&self, reader: &R, offset: u64, bytes_to_read: u64) -> (span:
        Option<Vec<u8>>)
        ensures
            span is Some <==> offset + bytes_to_read <= reader.bytes().len(),
            span is Some ==> span->0@ == reader.bytes().subrange(
                offset as int,
                offset + bytes_to_read,
            ),
    {
        reader.read_at(offset, bytes_to_read)
    }

    /// Decodes a run of bytes into the values of a tag of type `tpe`.
    ///
    /// The run must be a whole number of values long.
    pub fn bytes_to_tag_value(&self, order: TIFFByteOrder, vec: Vec<u8>, tpe: &TagType) -> (value:
        TaggedData)
        requires
            vec@.len() % (tpe.width() as nat) == 0,
        ensures
            value@ == decoded_value(order, vec@, *tpe),
    {
        match tpe {
            TagType::Byte => TaggedData::Byte(vec),
            TagType::ASCII => TaggedData::Ascii(lossy_text(vec.as_slice())),
            TagType::Short => TaggedData::Short(read_shorts(order, vec.as_slice())),
            TagType::Long => TaggedData::Long(read_longs(order, vec.as_slice())),
            TagType::Rational => TaggedData::Rational(read_rationals(order, vec.as_slice())),
            TagType::SignedByte => TaggedData::SignedByte(read_signed_bytes(vec.as_slice())),
            TagType::SignedShort => TaggedData::SignedShort(
                read_signed_shorts(order, vec.as_slice()),
            ),
            TagType::SignedLong => TaggedData::SignedLong(read_signed_longs(order, vec.as_slice())),
            TagType::SignedRational => TaggedData::SignedRational(
                read_signed_rationals(order, vec.as_slice()),
            ),
            TagType::Float => TaggedData::Float(read_longs(order, vec.as_slice())),
            TagType::Double => TaggedData::Double(read_doubles(order, vec.as_slice())),
            TagType::Undefined => TaggedData::Byte(Vec::new()),
        }
    }

    /// Converts the bytes of one sample into its unsigned value.
    ///
    /// A sample is 1, 2, 4 or 8 bytes long; an empty one counts as 0.
    pub fn vec_to_value(&self, order: TIFFByteOrder, vec: &[u8]) -> (value: u64)
        requires
            vec@.len() == 0 || vec@.len() == 1 || vec@.len() == 2 || vec@.len() == 4 || vec@.len()
                == 8,
        ensures
            value == sample_value(order, vec@),
    {
        let len: usize = vec.len();
        if len == 0 {
            0
        } else if len == 1 {
            vec[0] as u64
        } else if len == 2 {
            read_u16(order, vec) as u64
        } else if len == 4 {
            read_u32(order, vec) as u64
        } else {
            read_u64(order, vec)
        }
    }
}

} // verus!
