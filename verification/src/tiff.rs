//! The decoded file: its directory, the entries of the directory, and the
//! geo keys nested in one of them.

use vstd::prelude::*;
use crate::lowlevel::{ImageType, Long, TIFFByteOrder, TIFFTag, TagType, TaggedData,
    TaggedDataView};

verus! {

/// Why a file, or one part of it, could not be decoded.
#[derive(Clone, Copy, Debug, PartialEq, Eq, Structural)]
pub enum TiffError {
    /// The first two bytes announce neither byte order.
    InvalidByteOrder,
    /// The magic number of the header is not 42.
    InvalidMagic,
    /// The source ends before the last byte of a field or of a value.
    UnexpectedEof,
    /// A directory entry carries a tag that is not recognised.
    InvalidTag(u16),
    /// A directory entry carries a value type that is not recognised.
    InvalidTagType(u16),
    /// The directory does not give the number of rows.
    ImageLengthNotFound,
    /// The directory does not give the number of columns.
    ImageWidthNotFound,
    /// The directory does not give the number of bits of a sample.
    ImageDepthNotFound,
    /// The directory describes neither strips nor tiles.
    LayoutTagsNotFound,
    /// The tile offsets are not unsigned integers.
    OffsetsUnreadable,
    /// The tile byte counts are not unsigned integers.
    ByteCountsUnreadable,
    /// A sample is not 1, 2, 4 or 8 bytes wide.
    UnsupportedSampleWidth,
    /// The stored samples do not fill the raster that the directory declares.
    InconsistentGeometry,
    /// The directory has no geo key directory made of 16-bit values.
    GeoKeyDirectoryNotFound,
    /// The geo key directory is shorter than its four-value header.
    GeoKeyDirectoryTruncated,
}

/// A decoded file: its directories and the samples of its raster.
///
/// `image_data` is indexed by row, then by column, then by the sample within
/// the pixel.
#[derive(Debug)]
pub struct TIFF {
    pub ifds: Vec<IFD>,
    pub image_data: Vec<Vec<Vec<u64>>>,
}

/// The mathematical value of a `TIFF`.
pub struct TIFFView {
    pub ifds: Seq<IFDView>,
    pub image_data: Seq<Seq<Seq<u64>>>,
}

impl View for TIFF {
    type V = TIFFView;

    open spec fn view(&self) -> TIFFView {
        TIFFView {
            ifds: self.ifds@.map_values(|d: IFD| d@),
            image_data: self.image_data.deep_view(),
        }
    }
}

impl TIFF {
    /// Whether the raster has a pixel in column `lon` of row `lat`, and that
    /// pixel a sample.
    pub open spec fn has_value_at(&self, lon: usize, lat: usize) -> bool {
        &&& lat < self@.image_data.len()
        &&& lon < self@.image_data[lat as int].len()
        &&& 0 < self@.image_data[lat as int][lon as int].len()
    }

    /// Gets the first sample of the pixel in column `lon` of row `lat`.
    pub fn get_value_at(&self, lon: usize, lat: usize) -> (value: u64)
        requires
            self.has_value_at(lon, lat),
        ensures
            value == self@.image_data[lat as int][lon as int][0],
    {
        self.image_data[lat][lon][0]
    }
}

/// The header of a file: its byte order and where its first directory starts.
#[derive(Debug)]
pub struct TIFFHeader {
    pub byte_order: TIFFByteOrder,
    pub ifd_offset: Long,
}

/// An image file directory: the number of entries that the file declares, and
/// the entries that could be decoded, in the order of the file.
#[derive(Debug)]
pub struct IFD {
    pub count: u16,
    pub entries: Vec<IFDEntry>,
}

/// One entry of a directory: a tag, the type and number of its values, the
/// raw value field, and the values themselves.
#[derive(Debug)]
pub struct IFDEntry {
    pub tag: TIFFTag,
    pub tpe: TagType,
    pub count: Long,
    pub value_offset: Long,
    pub value: TaggedData,
}

/// The mathematical value of an `IFDEntry`.
pub struct IFDEntryView {
    pub tag: TIFFTag,
    pub tpe: TagType,
    pub count: u32,
    pub value_offset: u32,
    pub value: TaggedDataView,
}

impl View for IFDEntry {
    type V = IFDEntryView;

    open spec fn view(&self) -> IFDEntryView {
        IFDEntryView {
            tag: self.tag,
            tpe: self.tpe,
            count: self.count,
            value_offset: self.value_offset,
            value: self.value@,
        }
    }
}

impl Clone for IFDEntry {
    fn clone(&self) -> (copy: Self)
        ensures
            copy@ == self@,
    {
        IFDEntry {
            tag: self.tag,
            tpe: self.tpe,
            count: self.count,
            value_offset: self.value_offset,
            value: self.value.clone(),
        }
    }
}

/// The mathematical value of an `IFD`.
pub struct IFDView {
    pub count: u16,
    pub entries: Seq<IFDEntryView>,
}

impl View for IFD {
    type V = IFDView;

    open spec fn view(&self) -> IFDView {
        IFDView { count: self.count, entries: self.entries@.map_values(|e: IFDEntry| e@) }
    }
}

/// The first of `entries`, from index `from` on, that carries `tag`.
pub open spec fn find_from(entries: Seq<IFDEntryView>, tag: TIFFTag, from: int) -> Option<
    IFDEntryView,
>
    decreases entries.len() - from,
{
    if from < 0 || from >= entries.len() {
        None
    } else if entries[from].tag == tag {
        Some(entries[from])
    } else {
        find_from(entries, tag, from + 1)
    }
}

impl IFDView {
    /// The first entry that carries `tag`. Entries that repeat a tag are not
    /// merged: the later ones are never found.
    pub open spec fn find(self, tag: TIFFTag) -> Option<IFDEntryView> {
        find_from(self.entries, tag, 0)
    }

    /// The first value of the first entry that carries `tag`, where that
    /// entry holds unsigned integers and at least one of them.
    pub open spec fn first_unsigned(self, tag: TIFFTag) -> Option<usize> {
        match self.find(tag) {
            Some(e) => match e.value.unsigned_ints() {
                Some(v) => if v.len() > 0 {
                    Some(v[0])
                } else {
                    None
                },
                None => None,
            },
            None => None,
        }
    }

    /// All values of the first entry that carries `tag`, where that entry
    /// holds unsigned integers.
    pub open spec fn all_unsigned(self, tag: TIFFTag) -> Option<Seq<usize>> {
        match self.find(tag) {
            Some(e) => e.value.unsigned_ints(),
            None => None,
        }
    }
}

impl IFD {
    /// Returns a copy of the first entry that carries `tag`.
    pub fn get(&self, tag: TIFFTag) -> (entry: Option<IFDEntry>)
        ensures
            match entry {
                Some(e) => self@.find(tag) == Some(e@),
                None => self@.find(tag) is None,
            },
    {
        let ghost views = self@.entries;
        let mut i: usize = 0;
        while i < self.entries.len()
            invariant
                i <= self.entries.len(),
                views == self@.entries,
                find_from(views, tag, 0) == find_from(views, tag, i as int),
            decreases self.entries.len() - i,
        {
            if self.entries[i].tag == tag {
                return Some(self.entries[i].clone());
            }
            i += 1;
        }
        None
    }

    /// The first value of the first entry that carries `tag`, as an unsigned
    /// integer.
    fn first_value(&self, tag: TIFFTag) -> (value: Option<usize>)
        ensures
            value == self@.first_unsigned(tag),
    {
        match self.get(tag) {
            Some(e) => match e.value.as_unsigned_ints() {
                Some(v) => if v.len() > 0 {
                    Some(v[0])
                } else {
                    None
                },
                None => None,
            },
            None => None,
        }
    }

    /// The number of rows of the image.
    pub fn get_image_length(&self) -> (length: Result<usize, TiffError>)
        ensures
            match length {
                Ok(n) => self@.first_unsigned(TIFFTag::ImageLengthTag) == Some(n),
                Err(e) => self@.first_unsigned(TIFFTag::ImageLengthTag) is None && e
                    == TiffError::ImageLengthNotFound,
            },
    {
        match self.first_value(TIFFTag::ImageLengthTag) {
            Some(n) => Ok(n),
            None => Err(TiffError::ImageLengthNotFound),
        }
    }

    /// The number of columns of the image.
    pub fn get_image_width(&self) -> (width: Result<usize, TiffError>)
        ensures
            match width {
                Ok(n) => self@.first_unsigned(TIFFTag::ImageWidthTag) == Some(n),
                Err(e) => self@.first_unsigned(TIFFTag::ImageWidthTag) is None && e
                    == TiffError::ImageWidthNotFound,
            },
    {
        match self.first_value(TIFFTag::ImageWidthTag) {
            Some(n) => Ok(n),
            None => Err(TiffError::ImageWidthNotFound),
        }
    }

    /// The number of bytes of one sample: the declared bits per sample,
    /// divided by eight and rounded down.
    pub fn get_bytes_per_sample(&self) -> (depth: Result<usize, TiffError>)
        ensures
            match depth {
                Ok(n) => match self@.first_unsigned(TIFFTag::BitsPerSampleTag) {
                    Some(bits) => n == bits / 8,
                    None => false,
                },
                Err(e) => self@.first_unsigned(TIFFTag::BitsPerSampleTag) is None && e
                    == TiffError::ImageDepthNotFound,
            },
    {
        match self.first_value(TIFFTag::BitsPerSampleTag) {
            Some(bits) => Ok(bits / 8),
            None => Err(TiffError::ImageDepthNotFound),
        }
    }
}

/// What the header of a geo key directory declares.
#[derive(Clone, Copy, Debug, PartialEq, Eq, Structural)]
pub struct GeoKeyDirectoryInfo {
    pub directory_version: u16,
    pub revision: u16,
    pub minor_revision: u16,
    pub number_of_keys: u16,
}

/// A geo key with its value. A key whose id is not recognised is kept as
/// `Unknown`, with its id and its value.
#[derive(Clone, Copy, Debug, PartialEq, Eq, Structural)]
pub enum GeoKey {
    GTModelTypeGeoKey(u16),
    GTRasterTypeGeoKey(u16),
    GeographicTypeGeoKey(u16),
    GeogGeodeticDatumGeoKey(u16),
    GeogPrimeMeridianGeoKey(u16),
    GeogLinearUnitsGeoKey(u16),
    GeogLinearUnitSizeGeoKey(u16),
    GeogAngularUnitsGeoKey(u16),
    GeogAngularUnitSizeGeoKey(u16),
    GeogEllipsoidGeoKey(u16),
    GeogSemiMajorAxisGeoKey(u16),
    GeogSemiMinorAxisGeoKey(u16),
    GeogInvFlatteningGeoKey(u16),
    GeogAzimuthUnitsGeoKey(u16),
    GeogPrimeMeridianLongGeoKey(u16),
    Unknown(u16, u16),
}

impl GeoKey {
    /// The id of the key.
    pub open spec fn id(self) -> u16 {
        match self {
            GeoKey::GTModelTypeGeoKey(_) => 1024,
            GeoKey::GTRasterTypeGeoKey(_) => 1025,
            GeoKey::GeographicTypeGeoKey(_) => 2048,
            GeoKey::GeogGeodeticDatumGeoKey(_) => 2050,
            GeoKey::GeogPrimeMeridianGeoKey(_) => 2051,
            GeoKey::GeogLinearUnitsGeoKey(_) => 2052,
            GeoKey::GeogLinearUnitSizeGeoKey(_) => 2053,
            GeoKey::GeogAngularUnitsGeoKey(_) => 2054,
            GeoKey::GeogAngularUnitSizeGeoKey(_) => 2055,
            GeoKey::GeogEllipsoidGeoKey(_) => 2056,
            GeoKey::GeogSemiMajorAxisGeoKey(_) => 2057,
            GeoKey::GeogSemiMinorAxisGeoKey(_) => 2058,
            GeoKey::GeogInvFlatteningGeoKey(_) => 2059,
            GeoKey::GeogAzimuthUnitsGeoKey(_) => 2060,
            GeoKey::GeogPrimeMeridianLongGeoKey(_) => 2061,
            GeoKey::Unknown(id, _) => id,
        }
    }

    /// The value of the key.
    pub open spec fn value(self) -> u16 {
        match self {
            GeoKey::GTModelTypeGeoKey(value) => value,
            GeoKey::GTRasterTypeGeoKey(value) => value,
            GeoKey::GeographicTypeGeoKey(value) => value,
            GeoKey::GeogGeodeticDatumGeoKey(value) => value,
            GeoKey::GeogPrimeMeridianGeoKey(value) => value,
            GeoKey::GeogLinearUnitsGeoKey(value) => value,
            GeoKey::GeogLinearUnitSizeGeoKey(value) => value,
            GeoKey::GeogAngularUnitsGeoKey(value) => value,
            GeoKey::GeogAngularUnitSizeGeoKey(value) => value,
            GeoKey::GeogEllipsoidGeoKey(value) => value,
            GeoKey::GeogSemiMajorAxisGeoKey(value) => value,
            GeoKey::GeogSemiMinorAxisGeoKey(value) => value,
            GeoKey::GeogInvFlatteningGeoKey(value) => value,
            GeoKey::GeogAzimuthUnitsGeoKey(value) => value,
            GeoKey::GeogPrimeMeridianLongGeoKey(value) => value,
            GeoKey::Unknown(_, value) => value,
        }
    }

    /// Whether `id` is the id of a recognised key.
    pub open spec fn is_recognised(id: u16) -> bool {
        id == 1024 || id == 1025 || id == 2048 || 2050 <= id <= 2061
    }

    /// The key with this id and this value.
    pub open spec fn of(id: u16, value: u16) -> GeoKey {
        match id {
            1024 => GeoKey::GTModelTypeGeoKey(value),
            1025 => GeoKey::GTRasterTypeGeoKey(value),
            2048 => GeoKey::GeographicTypeGeoKey(value),
            2050 => GeoKey::GeogGeodeticDatumGeoKey(value),
            2051 => GeoKey::GeogPrimeMeridianGeoKey(value),
            2052 => GeoKey::GeogLinearUnitsGeoKey(value),
            2053 => GeoKey::GeogLinearUnitSizeGeoKey(value),
            2054 => GeoKey::GeogAngularUnitsGeoKey(value),
            2055 => GeoKey::GeogAngularUnitSizeGeoKey(value),
            2056 => GeoKey::GeogEllipsoidGeoKey(value),
            2057 => GeoKey::GeogSemiMajorAxisGeoKey(value),
            2058 => GeoKey::GeogSemiMinorAxisGeoKey(value),
            2059 => GeoKey::GeogInvFlatteningGeoKey(value),
            2060 => GeoKey::GeogAzimuthUnitsGeoKey(value),
            2061 => GeoKey::GeogPrimeMeridianLongGeoKey(value),
            _ => GeoKey::Unknown(id, value),
        }
    }

    /// Makes the key with this id and this value.
    pub fn new(id: u16, value: u16) -> (key: GeoKey)
        ensures
            key == GeoKey::of(id, value),
            key.id() == id,
            key.value() == value,
            key is Unknown <==> !GeoKey::is_recognised(id),
    {
        match id {
            1024 => GeoKey::GTModelTypeGeoKey(value),
            1025 => GeoKey::GTRasterTypeGeoKey(value),
            2048 => GeoKey::GeographicTypeGeoKey(value),
            2050 => GeoKey::GeogGeodeticDatumGeoKey(value),
            2051 => GeoKey::GeogPrimeMeridianGeoKey(value),
            2052 => GeoKey::GeogLinearUnitsGeoKey(value),
            2053 => GeoKey::GeogLinearUnitSizeGeoKey(value),
            2054 => GeoKey::GeogAngularUnitsGeoKey(value),
            2055 => GeoKey::GeogAngularUnitSizeGeoKey(value),
            2056 => GeoKey::GeogEllipsoidGeoKey(value),
            2057 => GeoKey::GeogSemiMajorAxisGeoKey(value),
            2058 => GeoKey::GeogSemiMinorAxisGeoKey(value),
            2059 => GeoKey::GeogInvFlatteningGeoKey(value),
            2060 => GeoKey::GeogAzimuthUnitsGeoKey(value),
            2061 => GeoKey::GeogPrimeMeridianLongGeoKey(value),
            x => GeoKey::Unknown(x, value),
        }
    }
}

/// A record of a geo key directory that was left out: its value is stored
/// elsewhere, or it has several values.
#[derive(Clone, Copy, Debug, PartialEq, Eq, Structural)]
pub struct SkippedGeoKey {
    pub id: u16,
    pub location: u16,
    pub count: u16,
}

/// The header of a geo key directory: its first four values.
pub open spec fn geo_key_header(values: Seq<u16>) -> Option<GeoKeyDirectoryInfo> {
    if values.len() < 4 {
        None
    } else {
        Some(
            GeoKeyDirectoryInfo {
                directory_version: values[0],
                revision: values[1],
                minor_revision: values[2],
                number_of_keys: values[3],
            },
        )
    }
}

/// The number of key records that are read: as many as the header declares,
/// or as many whole records of four values as follow the header, where those
/// are fewer.
pub open spec fn geo_key_record_count(values: Seq<u16>) -> nat {
    let declared = values[3] as int;
    let stored = values.len() / 4 - 1;
    if declared <= stored {
        declared as nat
    } else {
        stored as nat
    }
}

/// Whether a key record holds its value itself. A record that names a
/// location other than 0 and a count other than 1 does not.
pub open spec fn geo_key_is_direct(location: u16, count: u16) -> bool {
    !(location != 0 && count != 1)
}

/// The keys of the first `n` records that hold their value themselves, in
/// the order of the records. Record `i` is the four values from index
/// `4 + 4 * i` on: id, location, count, value.
pub open spec fn geo_keys_of(values: Seq<u16>, n: nat) -> Seq<GeoKey>
    decreases n,
{
    if n == 0 {
        Seq::empty()
    } else {
        let earlier = geo_keys_of(values, (n - 1) as nat);
        let at = 4 * (n as int);
        if geo_key_is_direct(values[at + 1], values[at + 2]) {
            earlier.push(GeoKey::of(values[at], values[at + 3]))
        } else {
            earlier
        }
    }
}

/// The records among the first `n` that do not hold their value themselves.
pub open spec fn geo_keys_skipped(values: Seq<u16>, n: nat) -> Seq<SkippedGeoKey>
    decreases n,
{
    if n == 0 {
        Seq::empty()
    } else {
        let earlier = geo_keys_skipped(values, (n - 1) as nat);
        let at = 4 * (n as int);
        if geo_key_is_direct(values[at + 1], values[at + 2]) {
            earlier
        } else {
            earlier.push(
                SkippedGeoKey { id: values[at], location: values[at + 1], count: values[at + 2] },
            )
        }
    }
}

/// Reads the header of a geo key directory.
pub fn decode_geo_key_header(values: &Vec<u16>) -> (info: Option<GeoKeyDirectoryInfo>)
    ensures
        info == geo_key_header(values@),
{
    if values.len() < 4 {
        None
    } else {
        Some(
            GeoKeyDirectoryInfo {
                directory_version: values[0],
                revision: values[1],
                minor_revision: values[2],
                number_of_keys: values[3],
            },
        )
    }
}

/// Decodes the values of a geo key directory: a header of four values, then
/// one record of four values for each key.
///
/// Returns the keys, and beside them the records that were left out.
/// Fails only where the header is not whole.
pub fn decode_geo_key_directory(values: &Vec<u16>) -> (decoded: Result<
    (Vec<GeoKey>, Vec<SkippedGeoKey>),
    TiffError,
>)
    ensures
        match decoded {
            Ok((keys, skipped)) => {
                &&& values@.len() >= 4
                &&& keys@ == geo_keys_of(values@, geo_key_record_count(values@))
                &&& skipped@ == geo_keys_skipped(values@, geo_key_record_count(values@))
            },
            Err(e) => values@.len() < 4 && e == TiffError::GeoKeyDirectoryTruncated,
        },
{
    let info = match decode_geo_key_header(values) {
        None => {
            return Err(TiffError::GeoKeyDirectoryTruncated);
        },
        Some(info) => info,
    };
    let stored: usize = values.len() / 4 - 1;
    let n: usize = if info.number_of_keys as usize <= stored {
        info.number_of_keys as usize
    } else {
        stored
    };
    let mut keys: Vec<GeoKey> = Vec::new();
    let mut skipped: Vec<SkippedGeoKey> = Vec::new();
    let mut i: usize = 0;
    while i < n
        invariant
            i <= n,
            n == geo_key_record_count(values@),
            4 * n + 4 <= values@.len(),
            keys@ == geo_keys_of(values@, i as nat),
            skipped@ == geo_keys_skipped(values@, i as nat),
        decreases n - i,
    {
        let at: usize = 4 * i + 4;
        let id: u16 = values[at];
        let location: u16 = values[at + 1];
        let count: u16 = values[at + 2];
        let value: u16 = values[at + 3];
        if location != 0 && count != 1 {
            skipped.push(SkippedGeoKey { id, location, count });
        } else {
            keys.push(GeoKey::new(id, value));
        }
        i += 1;
    }
    Ok((keys, skipped))
}

/// The geo keys of a directory: those of the first entry that carries the
/// geo key directory tag, whose values must be unsigned 16-bit numbers.
pub open spec fn geo_keys(ifd: IFDView) -> Result<Seq<GeoKey>, TiffError> {
    match ifd.find(TIFFTag::GeoKeyDirectoryTag) {
        None => Err(TiffError::GeoKeyDirectoryNotFound),
        Some(e) => match e.value.shorts() {
            None => Err(TiffError::GeoKeyDirectoryNotFound),
            Some(values) => if values.len() < 4 {
                Err(TiffError::GeoKeyDirectoryTruncated)
            } else {
                Ok(geo_keys_of(values, geo_key_record_count(values)))
            },
        },
    }
}

impl IFD {
    /// Decodes the geo keys that the directory holds.
    ///
    /// A record whose value is stored elsewhere is left out, and the records
    /// after it are still decoded.
    pub fn get_geo_keys(&self) -> (keys: Result<Vec<GeoKey>, TiffError>)
        ensures
            match keys {
                Ok(k) => geo_keys(self@) == Ok::<Seq<GeoKey>, TiffError>(k@),
                Err(e) => geo_keys(self@) == Err::<Seq<GeoKey>, TiffError>(e),
            },
    {
        let values = match self.get(TIFFTag::GeoKeyDirectoryTag) {
            None => {
                return Err(TiffError::GeoKeyDirectoryNotFound);
            },
            Some(e) => match e.value.as_shorts() {
                None => {
                    return Err(TiffError::GeoKeyDirectoryNotFound);
                },
                Some(values) => values,
            },
        };
        match decode_geo_key_directory(&values) {
            Ok((keys, _)) => Ok(keys),
            Err(e) => Err(e),
        }
    }
}

/// The tag whose code is `code`, where a recognised tag has that code.
pub open spec fn tag_with_code(code: u16) -> Option<TIFFTag> {
    if exists|t: TIFFTag| t.code() == code {
        Some(choose|t: TIFFTag| t.code() == code)
    } else {
        None
    }
}

/// The value type whose code is `code`, where a recognised type has that code.
pub open spec fn type_with_code(code: u16) -> Option<TagType> {
    if exists|t: TagType| t.code() == code {
        Some(choose|t: TagType| t.code() == code)
    } else {
        None
    }
}

/// Decodes the number of a tag into the tag it stands for.
///
/// The result is the one tag whose code is `value`, and `None` where no
/// recognised tag has that code.
pub fn decode_tag(value: u16) -> (tag: Option<TIFFTag>)
    ensures
        match tag {
            Some(t) => t.code() == value,
            None => forall|t: TIFFTag| t.code() != value,
        },
        tag == tag_with_code(value),
{
    let tag = match value {
        0x013b => Some(TIFFTag::ArtistTag),
        0x0102 => Some(TIFFTag::BitsPerSampleTag),
        0x0109 => Some(TIFFTag::CellLengthTag),
        0x0108 => Some(TIFFTag::CellWidthTag),
        0x0140 => Some(TIFFTag::ColorMapTag),
        0x0103 => Some(TIFFTag::CompressionTag),
        0x8298 => Some(TIFFTag::CopyrightTag),
        0x0132 => Some(TIFFTag::DateTimeTag),
        0x0152 => Some(TIFFTag::ExtraSamplesTag),
        0x010a => Some(TIFFTag::FillOrderTag),
        0x0121 => Some(TIFFTag::FreeByteCountsTag),
        0x0120 => Some(TIFFTag::FreeOffsetsTag),
        0x0123 => Some(TIFFTag::GrayResponseCurveTag),
        0x0122 => Some(TIFFTag::GrayResponseUnitTag),
        0x013c => Some(TIFFTag::HostComputerTag),
        0x010e => Some(TIFFTag::ImageDescriptionTag),
        0x0101 => Some(TIFFTag::ImageLengthTag),
        0x0100 => Some(TIFFTag::ImageWidthTag),
        0x010f => Some(TIFFTag::MakeTag),
        0x0119 => Some(TIFFTag::MaxSampleValueTag),
        0x0118 => Some(TIFFTag::MinSampleValueTag),
        0x0110 => Some(TIFFTag::ModelTag),
        0x00fe => Some(TIFFTag::NewSubfileTypeTag),
        0x0112 => Some(TIFFTag::OrientationTag),
        0x0106 => Some(TIFFTag::PhotometricInterpretationTag),
        0x011c => Some(TIFFTag::PlanarConfigurationTag),
        0x013d => Some(TIFFTag::PredictorTag),
        0x0128 => Some(TIFFTag::ResolutionUnitTag),
        0x0116 => Some(TIFFTag::RowsPerStripTag),
        0x0153 => Some(TIFFTag::SampleFormatTag),
        0x0115 => Some(TIFFTag::SamplesPerPixelTag),
        0x0131 => Some(TIFFTag::SoftwareTag),
        0x0117 => Some(TIFFTag::StripByteCountsTag),
        0x0111 => Some(TIFFTag::StripOffsetsTag),
        0x00ff => Some(TIFFTag::SubfileTypeTag),
        0x0107 => Some(TIFFTag::ThresholdingTag),
        0x011a => Some(TIFFTag::XResolutionTag),
        0x011b => Some(TIFFTag::YResolutionTag),
        0x0142 => Some(TIFFTag::TileWidthTag),
        0x0143 => Some(TIFFTag::TileHeightTag),
        0x0144 => Some(TIFFTag::TileOffsetsTag),
        0x0145 => Some(TIFFTag::TileByteCountTag),
        0x013e => Some(TIFFTag::WhitePointTag),
        0x013f => Some(TIFFTag::PrimaryChromaticities),
        0x012d => Some(TIFFTag::TransferFunction),
        0x0156 => Some(TIFFTag::TransferRange),
        0x0214 => Some(TIFFTag::ReferenceBlackWhite),
        0x0211 => Some(TIFFTag::YCbCrCoefficients),
        0x0212 => Some(TIFFTag::YCbCrSubsampling),
        0x0213 => Some(TIFFTag::YCbCrPositioning),
        0x014a => Some(TIFFTag::SubIFDsTag),
        0x015b => Some(TIFFTag::JPEGTablesTag),
        0x828d => Some(TIFFTag::CFARepeatPatternDimTag),
        0x828f => Some(TIFFTag::BatteryLevelTag),
        0x830e => Some(TIFFTag::ModelPixelScaleTag),
        0x83bb => Some(TIFFTag::IPTCTag),
        0x8482 => Some(TIFFTag::ModelTiepointTag),
        0x85d8 => Some(TIFFTag::ModelTransformationTag),
        0x8773 => Some(TIFFTag::InterColorProfileTag),
        0x87af => Some(TIFFTag::GeoKeyDirectoryTag),
        0x87b0 => Some(TIFFTag::GeoDoubleParamsTag),
        0x87b1 => Some(TIFFTag::GeoAsciiParamsTag),
        0x8829 => Some(TIFFTag::InterlaceTag),
        0x882a => Some(TIFFTag::TimeZoneOffsetTag),
        0x882b => Some(TIFFTag::SelfTimerModeTag),
        0x920d => Some(TIFFTag::NoiseTag),
        0x9211 => Some(TIFFTag::ImageNumberTag),
        0x9212 => Some(TIFFTag::SecurityClassificationTag),
        0x9213 => Some(TIFFTag::ImageHistoryTag),
        0x9216 => Some(TIFFTag::EPStandardIdTag),
        0x02bc => Some(TIFFTag::XMPTag),
        0x8649 => Some(TIFFTag::PhotoshopTag),
        0x8769 => Some(TIFFTag::EXIFTag),
        0xa480 => Some(TIFFTag::GDALMETADATA),
        0xa481 => Some(TIFFTag::GDALNODATA),
        _ => None,
    };
    proof {
        if let Some(t) = tag {
            lemma_tag_code_injective(t, choose|t: TIFFTag| t.code() == value);
        }
    }
    tag
}

/// Decodes the number of a value type into the type it stands for.
///
/// The result is the one type whose code is `tpe`, and `None` where no
/// recognised type has that code.
pub fn decode_tag_type(tpe: u16) -> (tag_type: Option<TagType>)
    ensures
        match tag_type {
            Some(t) => t.code() == tpe,
            None => forall|t: TagType| t.code() != tpe,
        },
        tag_type == type_with_code(tpe),
{
    let tag_type = match tpe {
        1 => Some(TagType::Byte),
        2 => Some(TagType::ASCII),
        3 => Some(TagType::Short),
        4 => Some(TagType::Long),
        5 => Some(TagType::Rational),
        6 => Some(TagType::SignedByte),
        7 => Some(TagType::Undefined),
        8 => Some(TagType::SignedShort),
        9 => Some(TagType::SignedLong),
        10 => Some(TagType::SignedRational),
        11 => Some(TagType::Float),
        12 => Some(TagType::Double),
        _ => None,
    };
    proof {
        if let Some(t) = tag_type {
            lemma_tag_type_code_injective(t, choose|t: TagType| t.code() == tpe);
        }
    }
    tag_type
}

/// The tags that a grayscale image must have.
pub open spec fn required_grayscale_tags() -> Seq<TIFFTag> {
    seq![
        TIFFTag::ImageWidthTag,
        TIFFTag::ImageLengthTag,
        TIFFTag::BitsPerSampleTag,
        TIFFTag::CompressionTag,
        TIFFTag::PhotometricInterpretationTag,
        TIFFTag::StripOffsetsTag,
        TIFFTag::RowsPerStripTag,
        TIFFTag::StripByteCountsTag,
        TIFFTag::XResolutionTag,
        TIFFTag::YResolutionTag,
        TIFFTag::ResolutionUnitTag,
    ]
}

/// The tags that an RGB image must have.
pub open spec fn required_rgb_image_tags() -> Seq<TIFFTag> {
    seq![
        TIFFTag::ImageWidthTag,
        TIFFTag::ImageLengthTag,
        TIFFTag::BitsPerSampleTag,
        TIFFTag::CompressionTag,
        TIFFTag::PhotometricInterpretationTag,
        TIFFTag::StripOffsetsTag,
        TIFFTag::SamplesPerPixelTag,
        TIFFTag::RowsPerStripTag,
        TIFFTag::StripByteCountsTag,
        TIFFTag::XResolutionTag,
        TIFFTag::YResolutionTag,
        TIFFTag::ResolutionUnitTag,
    ]
}

/// Whether `tag` is among `tags`.
fn has_tag(tags: &Vec<TIFFTag>, tag: TIFFTag) -> (found: bool)
    ensures
        found == tags@.contains(tag),
{
    let mut i: usize = 0;
    while i < tags.len()
        invariant
            i <= tags.len(),
            forall|j: int| 0 <= j < i ==> tags@[j] != tag,
        decreases tags.len() - i,
    {
        if tags[i] == tag {
            return true;
        }
        i += 1;
    }
    false
}

/// The tags of `wanted` that are not among `known`, each once, in the order
/// in which `wanted` first names them.
fn tags_beyond(wanted: &Vec<TIFFTag>, known: &Vec<TIFFTag>) -> (extra: Vec<TIFFTag>)
    ensures
        extra@.no_duplicates(),
        forall|t: TIFFTag| extra@.contains(t) <==> wanted@.contains(t) && !known@.contains(t),
{
    let mut extra: Vec<TIFFTag> = Vec::new();
    let mut i: usize = 0;
    while i < wanted.len()
        invariant
            i <= wanted.len(),
            extra@.no_duplicates(),
            forall|t: TIFFTag|
                extra@.contains(t) <==> wanted@.take(i as int).contains(t) && !known@.contains(t),
        decreases wanted.len() - i,
    {
        let tag = wanted[i];
        let ghost before = extra@;
        let ghost seen = wanted@.take(i as int);
        let is_new = !has_tag(known, tag) && !has_tag(&extra, tag);
        if is_new {
            extra.push(tag);
        }
        proof {
            assert(wanted@.take(i + 1) == seen.push(tag));
            assert forall|t: TIFFTag|
                extra@.contains(t) <==> seen.push(tag).contains(t) && !known@.contains(t) by {
                vstd::seq_lib::lemma_seq_contains_after_push(seen, tag, t);
                if is_new {
                    vstd::seq_lib::lemma_seq_contains_after_push(before, tag, t);
                }
            }
        }
        i += 1;
    }
    assert(wanted@.take(wanted@.len() as int) == wanted@);
    extra
}

/// Returns the tags that an image of type `typ` needs beyond those of a
/// grayscale image, where that is known for the type.
///
/// It is known for RGB images alone: the tags that an RGB image must have,
/// without those that a grayscale image must have, each once.
pub fn validate_required_tags_for(typ: &ImageType) -> (tags: Option<Vec<TIFFTag>>)
    ensures
        match tags {
            Some(v) => {
                &&& *typ == ImageType::Rgb
                &&& v@.no_duplicates()
                &&& forall|t: TIFFTag|
                    v@.contains(t) <==> required_rgb_image_tags().contains(t)
                        && !required_grayscale_tags().contains(t)
                &&& v@ == seq![TIFFTag::SamplesPerPixelTag]
            },
            None => *typ != ImageType::Rgb,
        },
{
    let grayscale: Vec<TIFFTag> = vec![
        TIFFTag::ImageWidthTag,
        TIFFTag::ImageLengthTag,
        TIFFTag::BitsPerSampleTag,
        TIFFTag::CompressionTag,
        TIFFTag::PhotometricInterpretationTag,
        TIFFTag::StripOffsetsTag,
        TIFFTag::RowsPerStripTag,
        TIFFTag::StripByteCountsTag,
        TIFFTag::XResolutionTag,
        TIFFTag::YResolutionTag,
        TIFFTag::ResolutionUnitTag,
    ];
    let rgb: Vec<TIFFTag> = vec![
        TIFFTag::ImageWidthTag,
        TIFFTag::ImageLengthTag,
        TIFFTag::BitsPerSampleTag,
        TIFFTag::CompressionTag,
        TIFFTag::PhotometricInterpretationTag,
        TIFFTag::StripOffsetsTag,
        TIFFTag::SamplesPerPixelTag,
        TIFFTag::RowsPerStripTag,
        TIFFTag::StripByteCountsTag,
        TIFFTag::XResolutionTag,
        TIFFTag::YResolutionTag,
        TIFFTag::ResolutionUnitTag,
    ];
    match *typ {
        ImageType::Bilevel => None,
        ImageType::Grayscale => None,
        ImageType::PaletteColour => None,
        ImageType::Rgb => {
            let extra = tags_beyond(&rgb, &grayscale);
            proof {
                assert forall|t: TIFFTag| extra@.contains(t) <==> t
                    == TIFFTag::SamplesPerPixelTag by {
                    lemma_rgb_needs_samples_per_pixel(t);
                }
                assert(extra@.contains(TIFFTag::SamplesPerPixelTag));
                if extra@.len() > 1 {
                    assert(extra@.contains(extra@[0]) && extra@.contains(extra@[1]));
                }
            }
            Some(extra)
        },
        ImageType::YCbCr => None,
    }
}

/// What an RGB image needs beyond a grayscale one is the number of samples
/// of a pixel, and nothing else.
pub proof fn lemma_rgb_needs_samples_per_pixel(t: TIFFTag)
    ensures
        (required_rgb_image_tags().contains(t) && !required_grayscale_tags().contains(t)) <==> t
            == TIFFTag::SamplesPerPixelTag,
{
    let rgb = required_rgb_image_tags();
    let gray = required_grayscale_tags();
    assert(rgb[6] == TIFFTag::SamplesPerPixelTag);
    if rgb.contains(t) && t != TIFFTag::SamplesPerPixelTag {
        // Without its seventh tag, the one list is the other.
        let j = choose|j: int| 0 <= j < rgb.len() && rgb[j] == t;
        let k = if j < 6 {
            j
        } else {
            j - 1
        };
        assert(gray[k] == t);
    }
}

/// No two tags share a code, so a code names at most one tag.
pub proof fn lemma_tag_code_injective(a: TIFFTag, b: TIFFTag)
    requires
        a.code() == b.code(),
    ensures
        a == b,
{
}

/// Decoding the code of a tag gives the tag back.
pub proof fn lemma_tag_with_code_inverts(t: TIFFTag)
    ensures
        tag_with_code(t.code()) == Some(t),
{
    lemma_tag_code_injective(t, choose|u: TIFFTag| u.code() == t.code());
}

/// No two value types share a code.
pub proof fn lemma_tag_type_code_injective(a: TagType, b: TagType)
    requires
        a.code() == b.code(),
    ensures
        a == b,
{
}

/// Decoding the code of a value type gives the type back.
pub proof fn lemma_type_with_code_inverts(t: TagType)
    ensures
        type_with_code(t.code()) == Some(t),
{
    lemma_tag_type_code_injective(t, choose|u: TagType| u.code() == t.code());
}

} // verus!
