//! The registry of primitive types: the byte orders, the value types with
//! their element widths, and the scalar tag values.

use vstd::prelude::*;

verus! {

/// An unsigned 8-bit value.
pub type Bytes = u8;

/// An unsigned 16-bit value.
pub type Short = u16;

/// An unsigned 32-bit value.
pub type Long = u32;

/// A fraction of two unsigned 32-bit values, numerator first.
pub type Rational = (u32, u32);

/// A signed 8-bit value.
pub type SignedByte = i8;

/// A signed 16-bit value.
pub type SignedShort = i16;

/// A signed 32-bit value.
pub type SignedLong = i32;

/// A fraction of two signed 32-bit values, numerator first.
pub type SignedRational = (i32, i32);

/// The order in which the bytes of a multi-byte field are stored.
#[derive(Clone, Copy, Debug, PartialEq, Eq, Structural)]
pub enum TIFFByteOrder {
    LittleEndian,
    BigEndian,
}

impl TIFFByteOrder {
    /// The marker that announces this byte order in a file header.
    pub open spec fn code(self) -> u16 {
        match self {
            TIFFByteOrder::LittleEndian => 0x4949,
            TIFFByteOrder::BigEndian => 0x4d4d,
        }
    }
}

/// The byte order that a header marker announces, if it announces one.
pub fn decode_byte_order(value: u16) -> (order: Option<TIFFByteOrder>)
    ensures
        match order {
            Some(o) => o.code() == value,
            None => forall|o: TIFFByteOrder| o.code() != value,
        },
{
    if value == 0x4949 {
        Some(TIFFByteOrder::LittleEndian)
    } else if value == 0x4d4d {
        Some(TIFFByteOrder::BigEndian)
    } else {
        None
    }
}

/// The type of the values that a directory entry holds.
#[derive(Clone, Copy, Debug, PartialEq, Eq, Structural)]
pub enum TagType {
    Byte,
    ASCII,
    Short,
    Long,
    Rational,
    SignedByte,
    Undefined,
    SignedShort,
    SignedLong,
    SignedRational,
    Float,
    Double,
}

impl TagType {
    /// The number that stands for this type in a directory entry.
    pub open spec fn code(self) -> u16 {
        match self {
            TagType::Byte => 1,
            TagType::ASCII => 2,
            TagType::Short => 3,
            TagType::Long => 4,
            TagType::Rational => 5,
            TagType::SignedByte => 6,
            TagType::Undefined => 7,
            TagType::SignedShort => 8,
            TagType::SignedLong => 9,
            TagType::SignedRational => 10,
            TagType::Float => 11,
            TagType::Double => 12,
        }
    }

    /// The number of bytes that one value of this type takes in a file.
    pub open spec fn width(self) -> u32 {
        match self {
            TagType::Byte | TagType::ASCII | TagType::SignedByte | TagType::Undefined => 1,
            TagType::Short | TagType::SignedShort => 2,
            TagType::Long | TagType::SignedLong | TagType::Float => 4,
            TagType::Rational | TagType::SignedRational | TagType::Double => 8,
        }
    }
}

/// Returns the number of bytes that one value of type `t` takes.
pub fn tag_size(t: &TagType) -> (size: u32)
    ensures
        size == t.width(),
        size == 1 || size == 2 || size == 4 || size == 8,
{
    match *t {
        TagType::Byte => 1,
        TagType::ASCII => 1,
        TagType::Short => 2,
        TagType::Long => 4,
        TagType::Rational => 8,
        TagType::SignedByte => 1,
        TagType::Undefined => 1,
        TagType::SignedShort => 2,
        TagType::SignedLong => 4,
        TagType::SignedRational => 8,
        TagType::Float => 4,
        TagType::Double => 8,
    }
}

/// A single value of a tag, with its type. A floating-point value is held as
/// the bits of its IEEE 754 encoding.
#[derive(Debug)]
pub enum TagValue {
    Byte(Bytes),
    Ascii(String),
    Short(Short),
    Long(Long),
    Rational(Rational),
    SignedByte(SignedByte),
    SignedShort(SignedShort),
    SignedLong(SignedLong),
    SignedRational(SignedRational),
    Float(u32),
    Double(u64),
}

impl TagValue {
    /// The value as an unsigned 16-bit number, where it is one.
    pub fn as_short(&self) -> (short: Option<u16>)
        ensures
            short == match *self {
                TagValue::Short(x) => Some(x),
                _ => None,
            },
    {
        if let TagValue::Short(x) = self {
            Some(*x)
        } else {
            None
        }
    }
}

/// The values of a directory entry: one sequence of values of one type.
///
/// Floating-point values are held as the bits of their IEEE 754 encoding,
/// `Float` in 32 bits and `Double` in 64.
#[derive(Debug, PartialEq, Eq)]
pub enum TaggedData {
    Byte(Vec<u8>),
    Ascii(String),
    Short(Vec<u16>),
    Long(Vec<u32>),
    Rational(Vec<(u32, u32)>),
    SignedByte(Vec<i8>),
    SignedShort(Vec<i16>),
    SignedLong(Vec<i32>),
    SignedRational(Vec<(i32, i32)>),
    Float(Vec<u32>),
    Double(Vec<u64>),
}

/// The mathematical value of a `TaggedData`.
pub enum TaggedDataView {
    Byte(Seq<u8>),
    Ascii(Seq<char>),
    Short(Seq<u16>),
    Long(Seq<u32>),
    Rational(Seq<(u32, u32)>),
    SignedByte(Seq<i8>),
    SignedShort(Seq<i16>),
    SignedLong(Seq<i32>),
    SignedRational(Seq<(i32, i32)>),
    Float(Seq<u32>),
    Double(Seq<u64>),
}

impl View for TaggedData {
    type V = TaggedDataView;

    open spec fn view(&self) -> TaggedDataView {
        match self {
            TaggedData::Byte(v) => TaggedDataView::Byte(v@),
            TaggedData::Ascii(v) => TaggedDataView::Ascii(v@),
            TaggedData::Short(v) => TaggedDataView::Short(v@),
            TaggedData::Long(v) => TaggedDataView::Long(v@),
            TaggedData::Rational(v) => TaggedDataView::Rational(v@),
            TaggedData::SignedByte(v) => TaggedDataView::SignedByte(v@),
            TaggedData::SignedShort(v) => TaggedDataView::SignedShort(v@),
            TaggedData::SignedLong(v) => TaggedDataView::SignedLong(v@),
            TaggedData::SignedRational(v) => TaggedDataView::SignedRational(v@),
            TaggedData::Float(v) => TaggedDataView::Float(v@),
            TaggedData::Double(v) => TaggedDataView::Double(v@),
        }
    }
}

impl TaggedDataView {
    /// The values as unsigned integers, where the type is `Byte`, `Short` or
    /// `Long`.
    pub open spec fn unsigned_ints(self) -> Option<Seq<usize>> {
        match self {
            TaggedDataView::Byte(v) => Some(v.map_values(|x: u8| x as usize)),
            TaggedDataView::Short(v) => Some(v.map_values(|x: u16| x as usize)),
            TaggedDataView::Long(v) => Some(v.map_values(|x: u32| x as usize)),
            _ => None,
        }
    }

    /// The values as unsigned 16-bit numbers, where the type is `Short`.
    pub open spec fn shorts(self) -> Option<Seq<u16>> {
        match self {
            TaggedDataView::Short(v) => Some(v),
            _ => None,
        }
    }
}

impl Clone for TaggedData {
    fn clone(&self) -> (copy: Self)
        ensures
            copy@ == self@,
    {
        match self {
            TaggedData::Byte(v) => TaggedData::Byte(copy_values(v)),
            TaggedData::Ascii(v) => TaggedData::Ascii(v.clone()),
            TaggedData::Short(v) => TaggedData::Short(copy_values(v)),
            TaggedData::Long(v) => TaggedData::Long(copy_values(v)),
            TaggedData::Rational(v) => TaggedData::Rational(copy_values(v)),
            TaggedData::SignedByte(v) => TaggedData::SignedByte(copy_values(v)),
            TaggedData::SignedShort(v) => TaggedData::SignedShort(copy_values(v)),
            TaggedData::SignedLong(v) => TaggedData::SignedLong(copy_values(v)),
            TaggedData::SignedRational(v) => TaggedData::SignedRational(copy_values(v)),
            TaggedData::Float(v) => TaggedData::Float(copy_values(v)),
            TaggedData::Double(v) => TaggedData::Double(copy_values(v)),
        }
    }
}

/// A new vector with the elements of `values`.
fn copy_values<T: Copy>(values: &Vec<T>) -> (copy: Vec<T>)
    ensures
        copy@ == values@,
{
    let mut copy: Vec<T> = Vec::with_capacity(values.len());
    let mut i: usize = 0;
    while i < values.len()
        invariant
            i <= values.len(),
            copy@ == values@.take(i as int),
        decreases values.len() - i,
    {
        copy.push(values[i]);
        i += 1;
    }
    copy
}

impl TaggedData {
    /// The values as unsigned integers, where the type is `Byte`, `Short` or
    /// `Long`; `None` for every other type.
    pub fn as_unsigned_ints(&self) -> (ints: Option<Vec<usize>>)
        ensures
            match ints {
                Some(v) => self@.unsigned_ints() == Some(v@),
                None => self@.unsigned_ints() is None,
            },
    {
        match self {
            TaggedData::Byte(v) => {
                let mut out: Vec<usize> = Vec::with_capacity(v.len());
                let mut i: usize = 0;
                while i < v.len()
                    invariant
                        i <= v.len(),
                        out@ == v@.take(i as int).map_values(|x: u8| x as usize),
                    decreases v.len() - i,
                {
                    out.push(v[i] as usize);
                    i += 1;
                }
                Some(out)
            },
            TaggedData::Short(v) => {
                let mut out: Vec<usize> = Vec::with_capacity(v.len());
                let mut i: usize = 0;
                while i < v.len()
                    invariant
                        i <= v.len(),
                        out@ == v@.take(i as int).map_values(|x: u16| x as usize),
                    decreases v.len() - i,
                {
                    out.push(v[i] as usize);
                    i += 1;
                }
                Some(out)
            },
            TaggedData::Long(v) => {
                let mut out: Vec<usize> = Vec::with_capacity(v.len());
                let mut i: usize = 0;
                while i < v.len()
                    invariant
                        i <= v.len(),
                        out@ == v@.take(i as int).map_values(|x: u32| x as usize),
                    decreases v.len() - i,
                {
                    out.push(v[i] as usize);
                    i += 1;
                }
                Some(out)
            },
            _ => None,
        }
    }

    /// The values as unsigned 16-bit numbers, where the type is `Short`;
    /// `None` for every other type.
    pub fn as_shorts(&self) -> (shorts: Option<Vec<u16>>)
        ensures
            match shorts {
                Some(v) => self@.shorts() == Some(v@),
                None => self@.shorts() is None,
            },
    {
        match self {
            TaggedData::Short(v) => Some(copy_values(v)),
            _ => None,
        }
    }
}

/// How the value of a sample maps to a shade.
#[derive(Clone, Copy, Debug, PartialEq, Eq, Structural)]
pub enum PhotometricInterpretation {
    WhiteIsZero,
    BlackIsZero,
}

impl PhotometricInterpretation {
    /// The number that stands for this value in a file.
    pub open spec fn code(self) -> u16 {
        match self {
            PhotometricInterpretation::WhiteIsZero => 0,
            PhotometricInterpretation::BlackIsZero => 1,
        }
    }
}

/// The compression of the stored samples.
#[derive(Clone, Copy, Debug, PartialEq, Eq, Structural)]
pub enum Compression {
    Uncompressed,
    Huffman,
    Lzw,
    Ojpeg,
    Jpeg,
    PackBits,
}

impl Compression {
    /// The number that stands for this value in a file.
    pub open spec fn code(self) -> u16 {
        match self {
            Compression::Uncompressed => 1,
            Compression::Huffman => 2,
            Compression::Lzw => 5,
            Compression::Ojpeg => 6,
            Compression::Jpeg => 7,
            Compression::PackBits => 32773,
        }
    }
}

/// The unit in which the resolution is given.
#[derive(Clone, Copy, Debug, PartialEq, Eq, Structural)]
pub enum ResolutionUnit {
    NoUnit,
    Inch,
    Centimetre,
}

impl ResolutionUnit {
    /// The number that stands for this value in a file.
    pub open spec fn code(self) -> u16 {
        match self {
            ResolutionUnit::NoUnit => 1,
            ResolutionUnit::Inch => 2,
            ResolutionUnit::Centimetre => 3,
        }
    }
}

/// How the bits of a sample are to be read.
#[derive(Clone, Copy, Debug, PartialEq, Eq, Structural)]
pub enum SampleFormat {
    UnsignedInteger,
    TwosComplementSignedInteger,
    IEEEFloatingPoint,
    Undefined,
}

impl SampleFormat {
    /// The number that stands for this value in a file.
    pub open spec fn code(self) -> u16 {
        match self {
            SampleFormat::UnsignedInteger => 1,
            SampleFormat::TwosComplementSignedInteger => 2,
            SampleFormat::IEEEFloatingPoint => 3,
            SampleFormat::Undefined => 4,
        }
    }
}

/// The kind of image, which decides the tags it needs.
#[derive(Clone, Copy, Debug, PartialEq, Eq, Structural)]
pub enum ImageType {
    Bilevel,
    Grayscale,
    PaletteColour,
    Rgb,
    YCbCr,
}

/// Where row 0 and column 0 of the raster lie in the picture.
#[derive(Clone, Copy, Debug, PartialEq, Eq, Structural)]
pub enum ImageOrientation {
    /// Row 0 at the top, column 0 on the left.
    TopLeft,
    /// Row 0 at the top, column 0 on the right.
    TopRight,
    /// Row 0 at the bottom, column 0 on the right.
    BottomRight,
    /// Row 0 at the bottom, column 0 on the left.
    BottomLeft,
    /// Row 0 on the left, column 0 at the top.
    LeftTop,
    /// Row 0 on the right, column 0 at the top.
    RightTop,
    /// Row 0 on the right, column 0 at the bottom.
    RightBottom,
    /// Row 0 on the left, column 0 at the bottom.
    LeftBottom,
}

impl ImageOrientation {
    /// The number that stands for this value in a file.
    pub open spec fn code(self) -> u16 {
        match self {
            ImageOrientation::TopLeft => 1,
            ImageOrientation::TopRight => 2,
            ImageOrientation::BottomRight => 3,
            ImageOrientation::BottomLeft => 4,
            ImageOrientation::LeftTop => 5,
            ImageOrientation::RightTop => 6,
            ImageOrientation::RightBottom => 7,
            ImageOrientation::LeftBottom => 8,
        }
    }
}

/// The identifier of a directory entry.
#[allow(non_camel_case_types)]
#[derive(Clone, Copy, Debug, PartialEq, Eq, Hash, Structural)]
pub enum TIFFTag {
    // Baseline tags
    ArtistTag,
    BitsPerSampleTag,
    CellLengthTag,
    CellWidthTag,
    ColorMapTag,
    CompressionTag,
    CopyrightTag,
    DateTimeTag,
    ExtraSamplesTag,
    FillOrderTag,
    FreeByteCountsTag,
    FreeOffsetsTag,
    GrayResponseCurveTag,
    GrayResponseUnitTag,
    HostComputerTag,
    ImageDescriptionTag,
    ImageLengthTag,
    ImageWidthTag,
    MakeTag,
    MaxSampleValueTag,
    MinSampleValueTag,
    ModelTag,
    NewSubfileTypeTag,
    OrientationTag,
    PhotometricInterpretationTag,
    PlanarConfigurationTag,
    PredictorTag,
    ResolutionUnitTag,
    RowsPerStripTag,
    SampleFormatTag,
    SamplesPerPixelTag,
    SoftwareTag,
    StripByteCountsTag,
    StripOffsetsTag,
    SubfileTypeTag,
    ThresholdingTag,
    XResolutionTag,
    YResolutionTag,
    // Tiled images
    TileWidthTag,
    TileHeightTag,
    TileOffsetsTag,
    TileByteCountTag,
    // Colorimetry
    WhitePointTag,
    PrimaryChromaticities,
    TransferFunction,
    TransferRange,
    ReferenceBlackWhite,
    // YCbCr images
    YCbCrCoefficients,
    YCbCrSubsampling,
    YCbCrPositioning,
    // TIFF/EP and geographic tags
    SubIFDsTag,
    JPEGTablesTag,
    CFARepeatPatternDimTag,
    BatteryLevelTag,
    ModelPixelScaleTag,
    IPTCTag,
    ModelTiepointTag,
    ModelTransformationTag,
    InterColorProfileTag,
    GeoKeyDirectoryTag,
    GeoDoubleParamsTag,
    GeoAsciiParamsTag,
    InterlaceTag,
    TimeZoneOffsetTag,
    SelfTimerModeTag,
    NoiseTag,
    ImageNumberTag,
    SecurityClassificationTag,
    ImageHistoryTag,
    EPStandardIdTag,
    // Extension tags
    XMPTag,
    // Private tags
    PhotoshopTag,
    EXIFTag,
    GDALMETADATA,
    GDALNODATA,
}

impl TIFFTag {
    /// The number that stands for this tag in a directory entry.
    pub open spec fn code(self) -> u16 {
        match self {
            TIFFTag::ArtistTag => 0x013b,
            TIFFTag::BitsPerSampleTag => 0x0102,
            TIFFTag::CellLengthTag => 0x0109,
            TIFFTag::CellWidthTag => 0x0108,
            TIFFTag::ColorMapTag => 0x0140,
            TIFFTag::CompressionTag => 0x0103,
            TIFFTag::CopyrightTag => 0x8298,
            TIFFTag::DateTimeTag => 0x0132,
            TIFFTag::ExtraSamplesTag => 0x0152,
            TIFFTag::FillOrderTag => 0x010a,
            TIFFTag::FreeByteCountsTag => 0x0121,
            TIFFTag::FreeOffsetsTag => 0x0120,
            TIFFTag::GrayResponseCurveTag => 0x0123,
            TIFFTag::GrayResponseUnitTag => 0x0122,
            TIFFTag::HostComputerTag => 0x013c,
            TIFFTag::ImageDescriptionTag => 0x010e,
            TIFFTag::ImageLengthTag => 0x0101,
            TIFFTag::ImageWidthTag => 0x0100,
            TIFFTag::MakeTag => 0x010f,
            TIFFTag::MaxSampleValueTag => 0x0119,
            TIFFTag::MinSampleValueTag => 0x0118,
            TIFFTag::ModelTag => 0x0110,
            TIFFTag::NewSubfileTypeTag => 0x00fe,
            TIFFTag::OrientationTag => 0x0112,
            TIFFTag::PhotometricInterpretationTag => 0x0106,
            TIFFTag::PlanarConfigurationTag => 0x011c,
            TIFFTag::PredictorTag => 0x013d,
            TIFFTag::ResolutionUnitTag => 0x0128,
            TIFFTag::RowsPerStripTag => 0x0116,
            TIFFTag::SampleFormatTag => 0x0153,
            TIFFTag::SamplesPerPixelTag => 0x0115,
            TIFFTag::SoftwareTag => 0x0131,
            TIFFTag::StripByteCountsTag => 0x0117,
            TIFFTag::StripOffsetsTag => 0x0111,
            TIFFTag::SubfileTypeTag => 0x00ff,
            TIFFTag::ThresholdingTag => 0x0107,
            TIFFTag::XResolutionTag => 0x011a,
            TIFFTag::YResolutionTag => 0x011b,
            TIFFTag::TileWidthTag => 0x0142,
            TIFFTag::TileHeightTag => 0x0143,
            TIFFTag::TileOffsetsTag => 0x0144,
            TIFFTag::TileByteCountTag => 0x0145,
            TIFFTag::WhitePointTag => 0x013e,
            TIFFTag::PrimaryChromaticities => 0x013f,
            TIFFTag::TransferFunction => 0x012d,
            TIFFTag::TransferRange => 0x0156,
            TIFFTag::ReferenceBlackWhite => 0x0214,
            TIFFTag::YCbCrCoefficients => 0x0211,
            TIFFTag::YCbCrSubsampling => 0x0212,
            TIFFTag::YCbCrPositioning => 0x0213,
            TIFFTag::SubIFDsTag => 0x014a,
            TIFFTag::JPEGTablesTag => 0x015b,
            TIFFTag::CFARepeatPatternDimTag => 0x828d,
            TIFFTag::BatteryLevelTag => 0x828f,
            TIFFTag::ModelPixelScaleTag => 0x830e,
            TIFFTag::IPTCTag => 0x83bb,
            TIFFTag::ModelTiepointTag => 0x8482,
            TIFFTag::ModelTransformationTag => 0x85d8,
            TIFFTag::InterColorProfileTag => 0x8773,
            TIFFTag::GeoKeyDirectoryTag => 0x87af,
            TIFFTag::GeoDoubleParamsTag => 0x87b0,
            TIFFTag::GeoAsciiParamsTag => 0x87b1,
            TIFFTag::InterlaceTag => 0x8829,
            TIFFTag::TimeZoneOffsetTag => 0x882a,
            TIFFTag::SelfTimerModeTag => 0x882b,
            TIFFTag::NoiseTag => 0x920d,
            TIFFTag::ImageNumberTag => 0x9211,
            TIFFTag::SecurityClassificationTag => 0x9212,
            TIFFTag::ImageHistoryTag => 0x9213,
            TIFFTag::EPStandardIdTag => 0x9216,
            TIFFTag::XMPTag => 0x02bc,
            TIFFTag::PhotoshopTag => 0x8649,
            TIFFTag::EXIFTag => 0x8769,
            TIFFTag::GDALMETADATA => 0xa480,
            TIFFTag::GDALNODATA => 0xa481,
        }
    }
}

} // verus!
