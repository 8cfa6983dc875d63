//! The raster: its geometry, the samples as they are stored in strips or in
//! tiles, and their arrangement by row, column and sample.

use vstd::prelude::*;
use vstd::slice::slice_subrange;
use crate::lowlevel::{TIFFByteOrder, TIFFTag};
use crate::reader::{sample_value, SeekableReader, TIFFReader};
use crate::tiff::{IFDEntry, IFDEntryView, IFDView, TiffError, IFD};

verus! {

/// The size of an image and of its samples.
#[derive(Clone, Copy, Debug, PartialEq, Eq, Structural)]
pub struct ImageGeometry {
    /// The number of rows.
    pub length: usize,
    /// The number of columns.
    pub width: usize,
    /// The number of bytes of one sample: 1, 2, 4 or 8.
    pub depth: usize,
    /// The number of samples of one pixel, at least 1.
    pub samples: usize,
}

/// The number of samples that the directory declares for a pixel: the value
/// of the samples-per-pixel tag, and 1 where the tag is absent, holds no
/// unsigned integer, or holds 0.
pub open spec fn samples_per_pixel(ifd: IFDView) -> usize {
    match ifd.first_unsigned(TIFFTag::SamplesPerPixelTag) {
        Some(s) => if s == 0 {
            1
        } else {
            s
        },
        None => 1,
    }
}

/// The geometry that a directory declares.
///
/// The number of rows, the number of columns and the bits per sample must
/// each be there, and a sample must be 1, 2, 4 or 8 bytes wide.
pub open spec fn geometry_of(ifd: IFDView) -> Result<ImageGeometry, TiffError> {
    match ifd.first_unsigned(TIFFTag::ImageLengthTag) {
        None => Err(TiffError::ImageLengthNotFound),
        Some(length) => match ifd.first_unsigned(TIFFTag::ImageWidthTag) {
            None => Err(TiffError::ImageWidthNotFound),
            Some(width) => match ifd.first_unsigned(TIFFTag::BitsPerSampleTag) {
                None => Err(TiffError::ImageDepthNotFound),
                Some(bits) => {
                    let depth = (bits / 8) as usize;
                    if depth == 1 || depth == 2 || depth == 4 || depth == 8 {
                        Ok(ImageGeometry { length, width, depth, samples: samples_per_pixel(ifd) })
                    } else {
                        Err(TiffError::UnsupportedSampleWidth)
                    }
                },
            },
        },
    }
}

/// The samples of one stored span: `n` samples of `depth` bytes each, one
/// after the other from `offset` on.
pub open spec fn span_samples(
    order: TIFFByteOrder,
    bytes: Seq<u8>,
    depth: int,
    offset: int,
    n: int,
) -> Seq<u64> {
    Seq::new(
        n as nat,
        |k: int|
            sample_value(order, bytes.subrange(offset + k * depth, offset + (k + 1) * depth)) as u64,
    )
}

/// The number of spans that are stored: a span needs an offset and a byte
/// count, so the shorter of the two lists decides.
pub open spec fn span_count(offsets: Seq<usize>, byte_counts: Seq<usize>) -> nat {
    if offsets.len() <= byte_counts.len() {
        offsets.len()
    } else {
        byte_counts.len()
    }
}

/// Whether each of the first `m` spans lies inside the source. A span holds
/// as many whole samples as its byte count allows.
pub open spec fn spans_readable(
    bytes: Seq<u8>,
    depth: int,
    offsets: Seq<usize>,
    byte_counts: Seq<usize>,
    m: nat,
) -> bool {
    forall|i: int|
        0 <= i < m ==> #[trigger] offsets[i] + (byte_counts[i] as int / depth) * depth
                <= bytes.len()
}

/// The samples of the first `m` spans, in the order of the spans.
pub open spec fn stored_samples(
    order: TIFFByteOrder,
    bytes: Seq<u8>,
    depth: int,
    offsets: Seq<usize>,
    byte_counts: Seq<usize>,
    m: nat,
) -> Seq<u64>
    decreases m,
{
    if m == 0 {
        Seq::empty()
    } else {
        stored_samples(order, bytes, depth, offsets, byte_counts, (m - 1) as nat) + span_samples(
            order,
            bytes,
            depth,
            offsets[m - 1] as int,
            byte_counts[m - 1] as int / depth,
        )
    }
}

/// How the stored samples are laid out.
#[derive(Clone, Copy, Debug, PartialEq, Eq, Structural)]
pub enum SampleOrder {
    /// Row after row from the top, as strips store them.
    Strips,
    /// Tile after tile, each tile row after row.
    Tiles { tile_width: usize, tile_length: usize },
}

/// `a` divided by `b`, rounded up.
pub open spec fn ceil_div(a: int, b: int) -> int {
    if a % b == 0 {
        a / b
    } else {
        a / b + 1
    }
}

/// The number of tiles side by side that cover the width of the image.
pub open spec fn tiles_across(g: ImageGeometry, tile_width: int) -> int {
    ceil_div(g.width as int, tile_width)
}

/// The number of tiles one above the other that cover the length of the
/// image.
pub open spec fn tiles_down(g: ImageGeometry, tile_length: int) -> int {
    ceil_div(g.length as int, tile_length)
}

/// The number of samples that one tile stores, overhang included.
pub open spec fn tile_samples(g: ImageGeometry, tile_width: int, tile_length: int) -> int {
    tile_width * tile_length * g.samples
}

/// The number of samples that a raster of this geometry holds.
pub open spec fn raster_samples(g: ImageGeometry) -> int {
    g.length * g.width * g.samples
}

/// The number of samples that have to be stored for a raster of this
/// geometry in this layout.
pub open spec fn stored_len(g: ImageGeometry, order: SampleOrder) -> int {
    match order {
        SampleOrder::Strips => raster_samples(g),
        SampleOrder::Tiles { tile_width, tile_length } => tiles_across(g, tile_width as int)
            * tiles_down(g, tile_length as int) * tile_samples(
            g,
            tile_width as int,
            tile_length as int,
        ),
    }
}

/// Where among the stored samples the sample `s` of the pixel in row `r` and
/// column `c` is found.
///
/// Strips store the rows from the top, each row pixel after pixel, each
/// pixel sample after sample. Tiles are stored row of tiles after row of
/// tiles, and the first row of tiles is the lowest one in the image: the
/// tile that holds row `r` is in the row of tiles counted from the bottom.
/// Inside a tile the samples run as they do in strips.
pub open spec fn sample_index(g: ImageGeometry, order: SampleOrder, r: int, c: int, s: int)
    -> int {
    match order {
        SampleOrder::Strips => (r * g.width + c) * g.samples + s,
        SampleOrder::Tiles { tile_width, tile_length } => {
            let tile_row = tiles_down(g, tile_length as int) - 1 - r / (tile_length as int);
            let tile_col = c / (tile_width as int);
            let tile = tile_row * tiles_across(g, tile_width as int) + tile_col;
            let inside = ((r % (tile_length as int)) * tile_width + c % (tile_width as int))
                * g.samples + s;
            tile * tile_samples(g, tile_width as int, tile_length as int) + inside
        },
    }
}

/// The raster: for each row its pixels, for each pixel its samples, each
/// taken from its place among the stored samples.
pub open spec fn arranged(stored: Seq<u64>, g: ImageGeometry, order: SampleOrder) -> Seq<
    Seq<Seq<u64>>,
> {
    Seq::new(
        g.length as nat,
        |r: int|
            Seq::new(
                g.width as nat,
                |c: int| Seq::new(g.samples as nat, |s: int| stored[sample_index(g, order, r, c, s)]),
            ),
    )
}

/// Whether a layout can be used with a geometry: tiles must have a width and
/// a length.
pub open spec fn order_usable(order: SampleOrder) -> bool {
    match order {
        SampleOrder::Strips => true,
        SampleOrder::Tiles { tile_width, tile_length } => tile_width > 0 && tile_length > 0,
    }
}

/// A position `k` inside the `n`-th of `a` blocks of `b` items each lies
/// before the end of the last block.
proof fn lemma_block_index(a: int, b: int, n: int, k: int)
    requires
        0 <= n < a,
        0 <= k < b,
    ensures
        0 <= n * b,
        0 <= n * b + k < a * b,
        n * b + b <= a * b,
{
    assert(n * b + b <= a * b) by (nonlinear_arith)
        requires
            0 <= n < a,
            0 <= b,
    ;
    assert(0 <= n * b) by (nonlinear_arith)
        requires
            0 <= n,
            0 <= b,
    ;
}

/// The quotient of a position by a block size is less than the number of
/// blocks that cover all positions.
proof fn lemma_quotient_below_ceil(x: int, len: int, b: int)
    requires
        0 <= x < len,
        0 < b,
    ensures
        0 <= x / b < ceil_div(len, b),
        0 <= x % b < b,
{
    vstd::arithmetic::div_mod::lemma_fundamental_div_mod(x, b);
    vstd::arithmetic::div_mod::lemma_fundamental_div_mod(len, b);
    vstd::arithmetic::div_mod::lemma_mod_bound(x, b);
    vstd::arithmetic::div_mod::lemma_mod_bound(len, b);
    vstd::arithmetic::div_mod::lemma_div_is_ordered(x, len, b);
    vstd::arithmetic::div_mod::lemma_div_pos_is_pos(x, b);
    if len % b == 0 {
        if x / b >= len / b {
            assert(b * (x / b) >= b * (len / b)) by (nonlinear_arith)
                requires
                    x / b >= len / b,
                    b > 0,
            ;
        }
    }
}

/// Every sample of the raster has its place among the stored samples.
pub proof fn lemma_sample_index_in_range(
    g: ImageGeometry,
    order: SampleOrder,
    r: int,
    c: int,
    s: int,
)
    requires
        order_usable(order),
        0 <= r < g.length,
        0 <= c < g.width,
        0 <= s < g.samples,
    ensures
        0 <= sample_index(g, order, r, c, s) < stored_len(g, order),
{
    match order {
        SampleOrder::Strips => {
            lemma_block_index(g.length as int, g.width as int, r, c);
            lemma_block_index(g.length * g.width, g.samples as int, r * g.width + c, s);
        },
        SampleOrder::Tiles { tile_width, tile_length } => {
            let tw = tile_width as int;
            let tl = tile_length as int;
            let across = tiles_across(g, tw);
            let down = tiles_down(g, tl);
            lemma_quotient_below_ceil(r, g.length as int, tl);
            lemma_quotient_below_ceil(c, g.width as int, tw);
            let tile_row = down - 1 - r / tl;
            let tile_col = c / tw;
            lemma_block_index(down, across, tile_row, tile_col);
            lemma_block_index(tl, tw, r % tl, c % tw);
            lemma_block_index(tl * tw, g.samples as int, (r % tl) * tw + c % tw, s);
            lemma_block_index(
                down * across,
                tile_samples(g, tw, tl),
                tile_row * across + tile_col,
                ((r % tl) * tw + c % tw) * g.samples + s,
            );
            assert(down * across * tile_samples(g, tw, tl) == across * down * tile_samples(
                g,
                tw,
                tl,
            )) by (nonlinear_arith);
        },
    }
}

/// What a directory says about strips: where each starts, how many bytes
/// each holds, and how many rows each covers.
#[derive(Debug)]
pub struct StripImageData {
    pub strip_offsets: Vec<usize>,
    pub strip_row_byte_counts: Vec<usize>,
    pub rows_per_strip: u32,
}

/// What a directory says about tiles: their size, and the entries that hold
/// where each starts and how many bytes each holds.
#[derive(Debug)]
pub struct TiledImageData {
    pub tile_width: usize,
    pub tile_length: usize,
    pub tile_bytes_counts: IFDEntry,
    pub tile_bytes_offsets: IFDEntry,
}

/// The storage layout of an image.
#[derive(Debug)]
pub enum ImageSizeData {
    Tiles(TiledImageData),
    Image(StripImageData),
}

/// Whether a directory describes strips: it does where the strip offsets and
/// the strip byte counts are both there as unsigned integers.
pub open spec fn is_strip_layout(ifd: IFDView) -> bool {
    ifd.all_unsigned(TIFFTag::StripOffsetsTag) is Some && ifd.all_unsigned(
        TIFFTag::StripByteCountsTag,
    ) is Some
}

/// Whether a directory describes tiles: it does where the width and the
/// length of a tile, the tile offsets and the tile byte counts are all there.
pub open spec fn is_tile_layout(ifd: IFDView) -> bool {
    &&& ifd.first_unsigned(TIFFTag::TileWidthTag) is Some
    &&& ifd.first_unsigned(TIFFTag::TileHeightTag) is Some
    &&& ifd.find(TIFFTag::TileOffsetsTag) is Some
    &&& ifd.find(TIFFTag::TileByteCountTag) is Some
}

/// The number of rows of a strip that a directory declares, and the largest
/// number where it declares none.
pub open spec fn rows_per_strip(ifd: IFDView) -> u32 {
    match ifd.first_unsigned(TIFFTag::RowsPerStripTag) {
        Some(rows) => rows as u32,
        None => u32::MAX,
    }
}

/// Whether the stored tiles fit the geometry: tiles have a width and a
/// length, there is one tile for each place of the grid that covers the
/// image, and each tile stores all its samples, overhang included.
pub open spec fn tiles_consistent(
    g: ImageGeometry,
    tile_width: int,
    tile_length: int,
    byte_counts: Seq<usize>,
    m: nat,
) -> bool {
    &&& tile_width > 0
    &&& tile_length > 0
    &&& m == tiles_across(g, tile_width) * tiles_down(g, tile_length)
    &&& forall|i: int|
        0 <= i < m ==> (#[trigger] byte_counts[i]) as int / (g.depth as int) == tile_samples(
            g,
            tile_width,
            tile_length,
        )
}

/// The raster of an image that is stored in strips.
///
/// The strips must lie inside the source, and together they must hold
/// exactly the samples of the raster.
pub open spec fn strip_image(
    order: TIFFByteOrder,
    bytes: Seq<u8>,
    ifd: IFDView,
    offsets: Seq<usize>,
    byte_counts: Seq<usize>,
) -> Result<Seq<Seq<Seq<u64>>>, TiffError> {
    match geometry_of(ifd) {
        Err(e) => Err(e),
        Ok(g) => {
            let m = span_count(offsets, byte_counts);
            let stored = stored_samples(order, bytes, g.depth as int, offsets, byte_counts, m);
            if !spans_readable(bytes, g.depth as int, offsets, byte_counts, m) {
                Err(TiffError::UnexpectedEof)
            } else if stored.len() != raster_samples(g) {
                Err(TiffError::InconsistentGeometry)
            } else {
                Ok(arranged(stored, g, SampleOrder::Strips))
            }
        },
    }
}

/// The raster of an image that is stored in tiles.
///
/// The offsets and the byte counts must be unsigned integers, the tiles must
/// fit the geometry, and each must lie inside the source.
pub open spec fn tiled_image(
    order: TIFFByteOrder,
    bytes: Seq<u8>,
    ifd: IFDView,
    tile_width: usize,
    tile_length: usize,
    offsets_entry: IFDEntryView,
    byte_counts_entry: IFDEntryView,
) -> Result<Seq<Seq<Seq<u64>>>, TiffError> {
    match geometry_of(ifd) {
        Err(e) => Err(e),
        Ok(g) => match offsets_entry.value.unsigned_ints() {
            None => Err(TiffError::OffsetsUnreadable),
            Some(offsets) => match byte_counts_entry.value.unsigned_ints() {
                None => Err(TiffError::ByteCountsUnreadable),
                Some(byte_counts) => {
                    let m = span_count(offsets, byte_counts);
                    if !tiles_consistent(g, tile_width as int, tile_length as int, byte_counts, m) {
                        Err(TiffError::InconsistentGeometry)
                    } else if !spans_readable(bytes, g.depth as int, offsets, byte_counts, m) {
                        Err(TiffError::UnexpectedEof)
                    } else {
                        Ok(
                            arranged(
                                stored_samples(
                                    order,
                                    bytes,
                                    g.depth as int,
                                    offsets,
                                    byte_counts,
                                    m,
                                ),
                                g,
                                SampleOrder::Tiles { tile_width, tile_length },
                            ),
                        )
                    }
                },
            },
        },
    }
}

/// The raster of the image that a directory describes.
///
/// An image is stored in strips where the directory describes strips, and
/// in tiles otherwise.
pub open spec fn image_of(order: TIFFByteOrder, bytes: Seq<u8>, ifd: IFDView) -> Result<
    Seq<Seq<Seq<u64>>>,
    TiffError,
> {
    if is_strip_layout(ifd) {
        strip_image(
            order,
            bytes,
            ifd,
            ifd.all_unsigned(TIFFTag::StripOffsetsTag)->0,
            ifd.all_unsigned(TIFFTag::StripByteCountsTag)->0,
        )
    } else if is_tile_layout(ifd) {
        tiled_image(
            order,
            bytes,
            ifd,
            ifd.first_unsigned(TIFFTag::TileWidthTag)->0,
            ifd.first_unsigned(TIFFTag::TileHeightTag)->0,
            ifd.find(TIFFTag::TileOffsetsTag)->0,
            ifd.find(TIFFTag::TileByteCountTag)->0,
        )
    } else {
        Err(TiffError::LayoutTagsNotFound)
    }
}

/// The stored samples are as many as the spans hold together; where every
/// span holds `t` samples, they are `m` times `t`.
proof fn lemma_stored_len(
    order: TIFFByteOrder,
    bytes: Seq<u8>,
    depth: int,
    offsets: Seq<usize>,
    byte_counts: Seq<usize>,
    m: nat,
    t: int,
)
    requires
        0 <= t,
        forall|i: int| 0 <= i < m ==> (#[trigger] byte_counts[i]) as int / depth == t,
    ensures
        stored_samples(order, bytes, depth, offsets, byte_counts, m).len() == m * t,
    decreases m,
{
    if m > 0 {
        lemma_stored_len(order, bytes, depth, offsets, byte_counts, (m - 1) as nat, t);
        assert((m - 1) * t + t == m * t) by (nonlinear_arith);
    } else {
        assert(0 * t == 0);
    }
}

/// `a` divided by `b`, rounded up.
fn div_ceil(a: usize, b: usize) -> (q: usize)
    requires
        b > 0,
    ensures
        q == ceil_div(a as int, b as int),
        q <= a,
{
    proof {
        vstd::arithmetic::div_mod::lemma_fundamental_div_mod(a as int, b as int);
        vstd::arithmetic::div_mod::lemma_mod_bound(a as int, b as int);
        vstd::arithmetic::div_mod::lemma_div_pos_is_pos(a as int, b as int);
        assert(a % b != 0 ==> a / b < a) by (nonlinear_arith)
            requires
                a == b * (a / b) + a % b,
                0 <= a % b < b,
                0 <= a / b,
        ;
    }
    if a % b == 0 {
        a / b
    } else {
        a / b + 1
    }
}

/// Finds the first sample of the pixel in row `r` and column `c` among the
/// stored samples. The other samples of the pixel follow it.
fn pixel_start(g: &ImageGeometry, order: &SampleOrder, r: usize, c: usize) -> (start: usize)
    requires
        order_usable(*order),
        r < g.length,
        c < g.width,
        0 < g.samples,
        stored_len(*g, *order) <= usize::MAX,
    ensures
        start == sample_index(*g, *order, r as int, c as int, 0),
        start + g.samples <= stored_len(*g, *order),
{
    proof {
        lemma_sample_index_in_range(*g, *order, r as int, c as int, g.samples - 1);
    }
    match order {
        SampleOrder::Strips => {
            proof {
                lemma_block_index(g.length as int, g.width as int, r as int, c as int);
                lemma_block_index(
                    g.length * g.width,
                    g.samples as int,
                    r * g.width + c,
                    g.samples - 1,
                );
                assert(r * g.width + c <= (r * g.width + c) * g.samples) by (nonlinear_arith)
                    requires
                        0 <= r * g.width + c,
                        1 <= g.samples,
                ;
            }
            (r * g.width + c) * g.samples
        },
        SampleOrder::Tiles { tile_width, tile_length } => {
            let tw: usize = *tile_width;
            let tl: usize = *tile_length;
            let across: usize = div_ceil(g.width, tw);
            let down: usize = div_ceil(g.length, tl);
            proof {
                let t = tile_samples(*g, tw as int, tl as int);
                lemma_quotient_below_ceil(r as int, g.length as int, tl as int);
                lemma_quotient_below_ceil(c as int, g.width as int, tw as int);
                let tile_row = down - 1 - r / tl;
                let tile_col = c as int / tw as int;
                lemma_block_index(down as int, across as int, tile_row, tile_col);
                lemma_block_index(tl as int, tw as int, r as int % tl as int, c as int % tw as int);
                lemma_block_index(
                    tl * tw,
                    g.samples as int,
                    (r % tl) * tw + c % tw,
                    g.samples - 1,
                );
                assert(t >= 1 && tw * tl <= t) by (nonlinear_arith)
                    requires
                        t == tw * tl * g.samples,
                        tw >= 1,
                        tl >= 1,
                        g.samples >= 1,
                ;
                lemma_block_index(
                    down * across,
                    t,
                    tile_row * across + tile_col,
                    ((r % tl) * tw + c % tw) * g.samples + g.samples - 1,
                );
                assert(down * across * t == across * down * t) by (nonlinear_arith);
                assert(down * across <= down * across * t) by (nonlinear_arith)
                    requires
                        t >= 1,
                        0 <= down * across,
                ;
                assert((r % tl) * tw <= tl * tw) by (nonlinear_arith)
                    requires
                        0 <= r % tl < tl,
                        0 <= tw,
                ;
                assert(0 <= (r % tl) * tw + c % tw <= ((r % tl) * tw + c % tw) * g.samples)
                    by (nonlinear_arith)
                    requires
                        0 <= (r % tl) * tw + c % tw,
                        1 <= g.samples,
                ;
                assert(0 <= tile_row * across) by (nonlinear_arith)
                    requires
                        0 <= tile_row,
                        0 <= across,
                ;
                assert(0 <= (tile_row * across + tile_col) * t) by (nonlinear_arith)
                    requires
                        0 <= tile_row * across + tile_col,
                        0 <= t,
                ;
            }
            let tile_row: usize = down - 1 - r / tl;
            let tile_col: usize = c / tw;
            let tile: usize = tile_row * across + tile_col;
            let inside: usize = ((r % tl) * tw + c % tw) * g.samples;
            tile * (tw * tl * g.samples) + inside
        },
    }
}

/// Arranges the stored samples into the raster: rows of pixels of samples.
pub(crate) fn arrange(stored: &Vec<u64>, g: &ImageGeometry, order: &SampleOrder) -> (image: Vec<
    Vec<Vec<u64>>,
>)
    requires
        order_usable(*order),
        0 < g.samples,
        stored@.len() == stored_len(*g, *order),
    ensures
        image.deep_view() == arranged(stored@, *g, *order),
{
    let total: usize = stored.len();
    let mut image: Vec<Vec<Vec<u64>>> = Vec::with_capacity(g.length);
    let mut r: usize = 0;
    while r < g.length
        invariant
            r <= g.length,
            order_usable(*order),
            0 < g.samples,
            stored@.len() == stored_len(*g, *order),
            stored@.len() == total,
            image@.len() == r,
            forall|i: int|
                0 <= i < r ==> (#[trigger] image@[i]).deep_view() == arranged(
                    stored@,
                    *g,
                    *order,
                )[i],
        decreases g.length - r,
    {
        let mut row: Vec<Vec<u64>> = Vec::with_capacity(g.width);
        let mut c: usize = 0;
        while c < g.width
            invariant
                r < g.length,
                c <= g.width,
                order_usable(*order),
                0 < g.samples,
                stored@.len() == stored_len(*g, *order),
                stored@.len() == total,
                row@.len() == c,
                forall|j: int|
                    0 <= j < c ==> (#[trigger] row@[j]).deep_view() == arranged(
                        stored@,
                        *g,
                        *order,
                    )[r as int][j],
            decreases g.width - c,
        {
            let start: usize = pixel_start(g, order, r, c);
            let mut pixel: Vec<u64> = Vec::with_capacity(g.samples);
            let mut s: usize = 0;
            while s < g.samples
                invariant
                    r < g.length,
                    c < g.width,
                    s <= g.samples,
                    start == sample_index(*g, *order, r as int, c as int, 0),
                    start + g.samples <= stored@.len(),
                    stored@.len() == total,
                    pixel@.len() == s,
                    forall|k: int|
                        0 <= k < s ==> #[trigger] pixel@[k] == stored@[sample_index(
                            *g,
                            *order,
                            r as int,
                            c as int,
                            k,
                        )],
                decreases g.samples - s,
            {
                pixel.push(stored[start + s]);
                s += 1;
            }
            row.push(pixel);
            c += 1;
        }
        image.push(row);
        r += 1;
    }
    image
}

/// A raster has as many rows as the image is long, each row as many pixels
/// as the image is wide, and each pixel as many samples as were declared:
/// whatever the tiles hold beyond the edges of the image is not in it.
pub proof fn lemma_raster_shape(stored: Seq<u64>, g: ImageGeometry, order: SampleOrder)
    ensures
        arranged(stored, g, order).len() == g.length,
        forall|r: int|
            0 <= r < g.length ==> (#[trigger] arranged(stored, g, order)[r]).len() == g.width,
        forall|r: int, c: int|
            0 <= r < g.length && 0 <= c < g.width ==> (#[trigger] arranged(
                stored,
                g,
                order,
            )[r][c]).len() == g.samples,
{
}

/// The sample `s` of the pixel in row `r` and column `c` of a raster is the
/// stored sample at the place that the layout gives it.
pub proof fn lemma_raster_sample(
    stored: Seq<u64>,
    g: ImageGeometry,
    order: SampleOrder,
    r: int,
    c: int,
    s: int,
)
    requires
        0 <= r < g.length,
        0 <= c < g.width,
        0 <= s < g.samples,
    ensures
        arranged(stored, g, order)[r][c][s] == stored[sample_index(g, order, r, c, s)],
{
}

/// The number of samples that the first `i` spans hold together.
pub open spec fn samples_before(depth: int, byte_counts: Seq<usize>, i: nat) -> int
    decreases i,
{
    if i == 0 {
        0
    } else {
        samples_before(depth, byte_counts, (i - 1) as nat) + byte_counts[i - 1] as int / depth
    }
}

/// The stored samples of the first `m` spans are as many as those spans hold
/// together.
pub proof fn lemma_stored_samples_len(
    order: TIFFByteOrder,
    bytes: Seq<u8>,
    depth: int,
    offsets: Seq<usize>,
    byte_counts: Seq<usize>,
    m: nat,
)
    requires
        depth > 0,
    ensures
        stored_samples(order, bytes, depth, offsets, byte_counts, m).len() == samples_before(
            depth,
            byte_counts,
            m,
        ),
        samples_before(depth, byte_counts, m) >= 0,
    decreases m,
{
    if m > 0 {
        lemma_stored_samples_len(order, bytes, depth, offsets, byte_counts, (m - 1) as nat);
        vstd::arithmetic::div_mod::lemma_div_pos_is_pos(byte_counts[m - 1] as int, depth);
    }
}

/// The `k`-th sample of span `i` is found among the stored samples after
/// all samples of the spans before it, and its value is that of the `depth`
/// bytes that start `k * depth` bytes into the span.
pub proof fn lemma_stored_sample(
    order: TIFFByteOrder,
    bytes: Seq<u8>,
    depth: int,
    offsets: Seq<usize>,
    byte_counts: Seq<usize>,
    m: nat,
    i: int,
    k: int,
)
    requires
        depth > 0,
        0 <= i < m,
        0 <= k < byte_counts[i] as int / depth,
    ensures
        0 <= samples_before(depth, byte_counts, i as nat) + k < stored_samples(
            order,
            bytes,
            depth,
            offsets,
            byte_counts,
            m,
        ).len(),
        stored_samples(order, bytes, depth, offsets, byte_counts, m)[samples_before(
            depth,
            byte_counts,
            i as nat,
        ) + k] == sample_value(
            order,
            bytes.subrange(offsets[i] + k * depth, offsets[i] + (k + 1) * depth),
        ) as u64,
    decreases m,
{
    lemma_stored_samples_len(order, bytes, depth, offsets, byte_counts, (m - 1) as nat);
    lemma_stored_samples_len(order, bytes, depth, offsets, byte_counts, m);
    lemma_stored_samples_len(order, bytes, depth, offsets, byte_counts, i as nat);
    if i < m - 1 {
        lemma_stored_sample(order, bytes, depth, offsets, byte_counts, (m - 1) as nat, i, k);
    }
}

/// Where one tile covers the whole image, each sample has the same place
/// among the stored samples as it has in strips.
pub proof fn lemma_single_tile_index(g: ImageGeometry, r: int, c: int, s: int)
    requires
        0 <= r < g.length,
        0 <= c < g.width,
    ensures
        sample_index(
            g,
            SampleOrder::Tiles { tile_width: g.width, tile_length: g.length },
            r,
            c,
            s,
        ) == sample_index(g, SampleOrder::Strips, r, c, s),
{
    let w = g.width as int;
    let l = g.length as int;
    vstd::arithmetic::div_mod::lemma_mod_self_0(w);
    vstd::arithmetic::div_mod::lemma_mod_self_0(l);
    vstd::arithmetic::div_mod::lemma_div_by_self(w);
    vstd::arithmetic::div_mod::lemma_div_by_self(l);
    vstd::arithmetic::div_mod::lemma_basic_div(r, l);
    vstd::arithmetic::div_mod::lemma_basic_div(c, w);
    vstd::arithmetic::div_mod::lemma_small_mod(r as nat, l as nat);
    vstd::arithmetic::div_mod::lemma_small_mod(c as nat, w as nat);
    let tile_row = tiles_down(g, l) - 1 - r / l;
    let tile = tile_row * tiles_across(g, w) + c / w;
    assert(tile == 0) by (nonlinear_arith)
        requires
            tile == tile_row * tiles_across(g, w) + c / w,
            tile_row == 0,
            c / w == 0,
    ;
    assert(tile * tile_samples(g, w, l) == 0) by (nonlinear_arith)
        requires
            tile == 0,
    ;
}

/// The row, the column and the sample within the pixel at which the `k`-th
/// sample of the `n`-th stored tile is placed.
///
/// Tile `n` stands in column `n % across` and row `n / across` of the grid
/// of tiles. Its columns start at its place in the grid times the width of
/// a tile. Its rows are counted from the bottom: they start at the length
/// of the whole grid less the length of the rows of tiles up to and with
/// its own. Inside the tile the samples run row by row, pixel by pixel.
pub open spec fn tile_placement(g: ImageGeometry, tile_width: int, tile_length: int, n: int, k: int)
    -> (int, int, int) {
    let across = tiles_across(g, tile_width);
    let down = tiles_down(g, tile_length);
    let tile_col = n % across;
    let tile_row = n / across;
    let start_row = down * tile_length - (tile_row + 1) * tile_length;
    let start_col = tile_col * tile_width;
    let pixel = k / (g.samples as int);
    (start_row + pixel / tile_width, start_col + pixel % tile_width, k % (g.samples as int))
}

/// A stored sample that is placed inside the image is the one that the
/// raster takes for that place: reading the raster place by place gives
/// what writing it tile by tile gives, and a sample that is placed beyond
/// the right or the lower edge is taken for no place.
pub proof fn lemma_tile_placement(
    g: ImageGeometry,
    tile_width: usize,
    tile_length: usize,
    n: int,
    k: int,
)
    requires
        tile_width > 0,
        tile_length > 0,
        g.samples > 0,
        0 <= n < tiles_across(g, tile_width as int) * tiles_down(g, tile_length as int),
        0 <= k < tile_samples(g, tile_width as int, tile_length as int),
    ensures
        ({
            let (row, col, s) = tile_placement(g, tile_width as int, tile_length as int, n, k);
            &&& 0 <= row
            &&& 0 <= col
            &&& 0 <= s < g.samples
            &&& sample_index(g, SampleOrder::Tiles { tile_width, tile_length }, row, col, s) == n
                * tile_samples(g, tile_width as int, tile_length as int) + k
        }),
{
    let tw = tile_width as int;
    let tl = tile_length as int;
    let sp = g.samples as int;
    let across = tiles_across(g, tw);
    let down = tiles_down(g, tl);
    let t = tile_samples(g, tw, tl);
    let tile_col = n % across;
    let tile_row = n / across;
    let pixel = k / sp;
    let s = k % sp;
    let x = pixel % tw;
    let y = pixel / tw;
    let row = down * tl - (tile_row + 1) * tl + y;
    let col = tile_col * tw + x;
    // The grid has a tile, so it has a column and a row of tiles.
    assert(across > 0 && down > 0) by (nonlinear_arith)
        requires
            0 <= n < across * down,
            across >= 0,
            down >= 0,
    ;
    // Where the sample lies inside its tile.
    vstd::arithmetic::div_mod::lemma_fundamental_div_mod(k, sp);
    vstd::arithmetic::div_mod::lemma_mod_bound(k, sp);
    vstd::arithmetic::div_mod::lemma_div_pos_is_pos(k, sp);
    assert(sp * (tw * tl) == t) by (nonlinear_arith)
        requires
            t == tw * tl * sp,
    ;
    vstd::arithmetic::div_mod::lemma_multiply_divide_lt(k, sp, tw * tl);
    vstd::arithmetic::div_mod::lemma_fundamental_div_mod(pixel, tw);
    vstd::arithmetic::div_mod::lemma_mod_bound(pixel, tw);
    vstd::arithmetic::div_mod::lemma_div_pos_is_pos(pixel, tw);
    vstd::arithmetic::div_mod::lemma_multiply_divide_lt(pixel, tw, tl);
    // Where the tile lies in the grid.
    vstd::arithmetic::div_mod::lemma_fundamental_div_mod(n, across);
    vstd::arithmetic::div_mod::lemma_mod_bound(n, across);
    vstd::arithmetic::div_mod::lemma_div_pos_is_pos(n, across);
    vstd::arithmetic::div_mod::lemma_multiply_divide_lt(n, across, down);
    // The row and the column lead back to the tile and to the place in it.
    let rows_above = down - 1 - tile_row;
    assert(row == rows_above * tl + y) by (nonlinear_arith)
        requires
            row == down * tl - (tile_row + 1) * tl + y,
            rows_above == down - 1 - tile_row,
    ;
    assert(0 <= rows_above * tl) by (nonlinear_arith)
        requires
            0 <= rows_above,
            0 < tl,
    ;
    assert(0 <= tile_col * tw) by (nonlinear_arith)
        requires
            0 <= tile_col,
            0 < tw,
    ;
    vstd::arithmetic::div_mod::lemma_fundamental_div_mod_converse(row, tl, rows_above, y);
    vstd::arithmetic::div_mod::lemma_fundamental_div_mod_converse(col, tw, tile_col, x);
    assert(tile_row * across + tile_col == n) by (nonlinear_arith)
        requires
            n == across * tile_row + tile_col,
    ;
    assert((y * tw + x) * sp + s == k) by (nonlinear_arith)
        requires
            pixel == tw * y + x,
            k == sp * pixel + s,
    ;
}

/// An image stored as one tile that covers it exactly decodes where the
/// same spans decode as strips, and then to the same raster.
pub proof fn lemma_single_tile_equals_strips(
    order: TIFFByteOrder,
    bytes: Seq<u8>,
    ifd: IFDView,
    offsets_entry: IFDEntryView,
    byte_counts_entry: IFDEntryView,
)
    requires
        geometry_of(ifd) is Ok,
        geometry_of(ifd)->Ok_0.width > 0,
        geometry_of(ifd)->Ok_0.length > 0,
        offsets_entry.value.unsigned_ints() is Some,
        byte_counts_entry.value.unsigned_ints() is Some,
        span_count(
            offsets_entry.value.unsigned_ints()->0,
            byte_counts_entry.value.unsigned_ints()->0,
        ) == 1,
    ensures
        ({
            let g = geometry_of(ifd)->Ok_0;
            let tiled = tiled_image(
                order,
                bytes,
                ifd,
                g.width,
                g.length,
                offsets_entry,
                byte_counts_entry,
            );
            let strips = strip_image(
                order,
                bytes,
                ifd,
                offsets_entry.value.unsigned_ints()->0,
                byte_counts_entry.value.unsigned_ints()->0,
            );
            &&& tiled is Ok <==> strips is Ok
            &&& tiled is Ok ==> tiled == strips
        }),
{
    let g = geometry_of(ifd)->Ok_0;
    let offsets = offsets_entry.value.unsigned_ints()->0;
    let byte_counts = byte_counts_entry.value.unsigned_ints()->0;
    let w = g.width as int;
    let l = g.length as int;
    let depth = g.depth as int;
    let stored = stored_samples(order, bytes, depth, offsets, byte_counts, 1);
    let tiles = SampleOrder::Tiles { tile_width: g.width, tile_length: g.length };
    vstd::arithmetic::div_mod::lemma_mod_self_0(w);
    vstd::arithmetic::div_mod::lemma_mod_self_0(l);
    vstd::arithmetic::div_mod::lemma_div_by_self(w);
    vstd::arithmetic::div_mod::lemma_div_by_self(l);
    assert(tiles_across(g, w) == 1);
    assert(tile_samples(g, w, l) == raster_samples(g)) by (nonlinear_arith)
        requires
            tile_samples(g, w, l) == w * l * g.samples,
            raster_samples(g) == l * w * g.samples,
    ;
    lemma_stored_samples_len(order, bytes, depth, offsets, byte_counts, 1);
    assert(samples_before(depth, byte_counts, 1) == samples_before(depth, byte_counts, 0)
        + byte_counts[0] as int / depth);
    assert forall|r: int, c: int, s: int|
        0 <= r < g.length && 0 <= c < g.width implies #[trigger] sample_index(g, tiles, r, c, s)
        == sample_index(g, SampleOrder::Strips, r, c, s) by {
        lemma_single_tile_index(g, r, c, s);
    }
    assert(arranged(stored, g, tiles) =~~= arranged(stored, g, SampleOrder::Strips));
}

/// The first value of the first entry of `ifd` that carries `tag`, as an
/// unsigned integer.
fn first_unsigned_of(ifd: &IFD, tag: TIFFTag) -> (value: Option<usize>)
    ensures
        value == ifd@.first_unsigned(tag),
        value is Some ==> value->0 <= u32::MAX,
{
    match all_unsigned_of(ifd, tag) {
        Some(v) => if v.len() > 0 {
            Some(v[0])
        } else {
            None
        },
        None => None,
    }
}

/// All values of the first entry of `ifd` that carries `tag`, as unsigned
/// integers.
fn all_unsigned_of(ifd: &IFD, tag: TIFFTag) -> (values: Option<Vec<usize>>)
    ensures
        match values {
            Some(v) => ifd@.all_unsigned(tag) == Some(v@) && forall|i: int|
                0 <= i < v@.len() ==> v@[i] <= u32::MAX,
            None => ifd@.all_unsigned(tag) is None,
        },
{
    match ifd.get(tag) {
        Some(e) => e.value.as_unsigned_ints(),
        None => None,
    }
}

/// The number of samples of a raster, where it fits in a `usize`.
fn raster_len(g: &ImageGeometry) -> (len: Option<usize>)
    requires
        g.samples > 0,
    ensures
        match len {
            Some(n) => n == raster_samples(*g),
            None => raster_samples(*g) > usize::MAX,
        },
{
    match g.length.checked_mul(g.width) {
        None => {
            assert(g.length * g.width * g.samples >= g.length * g.width) by (nonlinear_arith)
                requires
                    g.samples >= 1,
                    g.length * g.width >= 0,
            ;
            None
        },
        Some(pixels) => pixels.checked_mul(g.samples),
    }
}

/// Checks that the stored tiles fit the geometry.
fn tiles_fit(
    g: &ImageGeometry,
    tile_width: usize,
    tile_length: usize,
    offsets: &Vec<usize>,
    byte_counts: &Vec<usize>,
) -> (fit: bool)
    requires
        g.depth > 0,
        g.samples > 0,
    ensures
        fit == tiles_consistent(
            *g,
            tile_width as int,
            tile_length as int,
            byte_counts@,
            span_count(offsets@, byte_counts@),
        ),
{
    if tile_width == 0 || tile_length == 0 {
        return false;
    }
    let m: usize = if offsets.len() <= byte_counts.len() {
        offsets.len()
    } else {
        byte_counts.len()
    };
    let across: usize = div_ceil(g.width, tile_width);
    let down: usize = div_ceil(g.length, tile_length);
    match across.checked_mul(down) {
        Some(tiles) if tiles == m => {},
        _ => {
            return false;
        },
    }
    let per_tile: Option<usize> = match tile_width.checked_mul(tile_length) {
        None => {
            assert(tile_width * tile_length * g.samples >= tile_width * tile_length)
                by (nonlinear_arith)
                requires
                    g.samples >= 1,
                    tile_width * tile_length >= 0,
            ;
            None
        },
        Some(pixels) => pixels.checked_mul(g.samples),
    };
    let mut i: usize = 0;
    while i < m
        invariant
            i <= m,
            m == span_count(offsets@, byte_counts@),
            g.depth > 0,
            match per_tile {
                Some(t) => t == tile_samples(*g, tile_width as int, tile_length as int),
                None => tile_samples(*g, tile_width as int, tile_length as int) > usize::MAX,
            },
            forall|j: int|
                0 <= j < i ==> (#[trigger] byte_counts@[j]) as int / (g.depth as int)
                    == tile_samples(*g, tile_width as int, tile_length as int),
        decreases m - i,
    {
        let held: usize = byte_counts[i] / g.depth;
        match per_tile {
            Some(t) if t == held => {},
            _ => {
                return false;
            },
        }
        i += 1;
    }
    true
}

impl TIFFReader {
    /// Gathers the geometry of the image from its directory.
    pub fn image_geometry(&self, ifd: &IFD) -> (geometry: Result<ImageGeometry, TiffError>)
        ensures
            geometry == geometry_of(ifd@),
    {
        let length = match ifd.get_image_length() {
            Ok(length) => length,
            Err(e) => {
                return Err(e);
            },
        };
        let width = match ifd.get_image_width() {
            Ok(width) => width,
            Err(e) => {
                return Err(e);
            },
        };
        let depth = match ifd.get_bytes_per_sample() {
            Ok(depth) => depth,
            Err(e) => {
                return Err(e);
            },
        };
        if !(depth == 1 || depth == 2 || depth == 4 || depth == 8) {
            return Err(TiffError::UnsupportedSampleWidth);
        }
        let samples = match ifd.get(TIFFTag::SamplesPerPixelTag) {
            Some(e) => match e.value.as_unsigned_ints() {
                Some(v) => if v.len() > 0 && v[0] != 0 {
                    v[0]
                } else {
                    1
                },
                None => 1,
            },
            None => 1,
        };
        Ok(ImageGeometry { length, width, depth, samples })
    }

    /// Reads the samples of all stored spans, one span after the other.
    ///
    /// Fails where a span reaches past the end of the source.
    pub(crate) fn read_samples<R: SeekableReader>(
        &self,
        order: TIFFByteOrder,
        reader: &R,
        depth: usize,
        offsets: &Vec<usize>,
        byte_counts: &Vec<usize>,
    ) -> (samples: Result<Vec<u64>, TiffError>)
        requires
            depth == 1 || depth == 2 || depth == 4 || depth == 8,
        ensures
            match samples {
                Ok(v) => {
                    &&& spans_readable(
                        reader.bytes(),
                        depth as int,
                        offsets@,
                        byte_counts@,
                        span_count(offsets@, byte_counts@),
                    )
                    &&& v@ == stored_samples(
                        order,
                        reader.bytes(),
                        depth as int,
                        offsets@,
                        byte_counts@,
                        span_count(offsets@, byte_counts@),
                    )
                },
                Err(e) => e == TiffError::UnexpectedEof && !spans_readable(
                    reader.bytes(),
                    depth as int,
                    offsets@,
                    byte_counts@,
                    span_count(offsets@, byte_counts@),
                ),
            },
    {
        let m: usize = if offsets.len() <= byte_counts.len() {
            offsets.len()
        } else {
            byte_counts.len()
        };
        let mut samples: Vec<u64> = Vec::new();
        let mut i: usize = 0;
        while i < m
            invariant
                i <= m,
                m == span_count(offsets@, byte_counts@),
                depth == 1 || depth == 2 || depth == 4 || depth == 8,
                spans_readable(reader.bytes(), depth as int, offsets@, byte_counts@, i as nat),
                samples@ == stored_samples(
                    order,
                    reader.bytes(),
                    depth as int,
                    offsets@,
                    byte_counts@,
                    i as nat,
                ),
            decreases m - i,
        {
            let byte_count: usize = byte_counts[i];
            let n: usize = byte_count / depth;
            assert(n * depth <= byte_count) by (nonlinear_arith)
                requires
                    n == byte_count as int / depth as int,
                    depth > 0,
            ;
            let span = match reader.read_at(offsets[i] as u64, (n * depth) as u64) {
                None => {
                    return Err(TiffError::UnexpectedEof);
                },
                Some(span) => span,
            };
            let ghost before = samples@;
            let mut k: usize = 0;
            while k < n
                invariant
                    k <= n,
                    i < m,
                    m == span_count(offsets@, byte_counts@),
                    depth == 1 || depth == 2 || depth == 4 || depth == 8,
                    n * depth <= usize::MAX,
                    span@ == reader.bytes().subrange(
                        offsets[i as int] as int,
                        offsets[i as int] + n * depth,
                    ),
                    offsets[i as int] + n * depth <= reader.bytes().len(),
                    samples@ == before + span_samples(
                        order,
                        reader.bytes(),
                        depth as int,
                        offsets[i as int] as int,
                        k as int,
                    ),
                decreases n - k,
            {
                assert((k + 1) * depth <= n * depth) by (nonlinear_arith)
                    requires
                        k < n,
                        depth > 0,
                ;
                assert(k * depth + depth == (k + 1) * depth) by (nonlinear_arith);
                let piece = slice_subrange(span.as_slice(), k * depth, k * depth + depth);
                assert(piece@ == reader.bytes().subrange(
                    offsets[i as int] + k * depth,
                    offsets[i as int] + (k + 1) * depth,
                ));
                samples.push(self.vec_to_value(order, piece));
                k += 1;
            }
            i += 1;
        }
        Ok(samples)
    }
    /// Finds out how the image is stored: in strips where the directory
    /// describes strips, in tiles otherwise.
    pub fn get_image_size_data(&self, ifd: &IFD) -> (layout: Result<ImageSizeData, TiffError>)
        ensures
            match layout {
                Ok(ImageSizeData::Image(strips)) => {
                    &&& ifd@.all_unsigned(TIFFTag::StripOffsetsTag) == Some(strips.strip_offsets@)
                    &&& ifd@.all_unsigned(TIFFTag::StripByteCountsTag) == Some(
                        strips.strip_row_byte_counts@,
                    )
                    &&& strips.rows_per_strip == rows_per_strip(ifd@)
                },
                Ok(ImageSizeData::Tiles(tiles)) => {
                    &&& !is_strip_layout(ifd@)
                    &&& ifd@.first_unsigned(TIFFTag::TileWidthTag) == Some(tiles.tile_width)
                    &&& ifd@.first_unsigned(TIFFTag::TileHeightTag) == Some(tiles.tile_length)
                    &&& ifd@.find(TIFFTag::TileOffsetsTag) == Some(tiles.tile_bytes_offsets@)
                    &&& ifd@.find(TIFFTag::TileByteCountTag) == Some(tiles.tile_bytes_counts@)
                },
                Err(e) => e == TiffError::LayoutTagsNotFound && !is_strip_layout(ifd@)
                    && !is_tile_layout(ifd@),
            },
    {
        let rows_per_strip: u32 = match first_unsigned_of(ifd, TIFFTag::RowsPerStripTag) {
            Some(rows) => rows as u32,
            None => u32::MAX,
        };
        let strip_offsets = all_unsigned_of(ifd, TIFFTag::StripOffsetsTag);
        let strip_row_byte_counts = all_unsigned_of(ifd, TIFFTag::StripByteCountsTag);
        match (strip_offsets, strip_row_byte_counts) {
            (Some(strip_offsets), Some(strip_row_byte_counts)) => Ok(
                ImageSizeData::Image(
                    StripImageData { strip_offsets, strip_row_byte_counts, rows_per_strip },
                ),
            ),
            _ => {
                let tile_width = match first_unsigned_of(ifd, TIFFTag::TileWidthTag) {
                    Some(tile_width) => tile_width,
                    None => {
                        return Err(TiffError::LayoutTagsNotFound);
                    },
                };
                let tile_length = match first_unsigned_of(ifd, TIFFTag::TileHeightTag) {
                    Some(tile_length) => tile_length,
                    None => {
                        return Err(TiffError::LayoutTagsNotFound);
                    },
                };
                let tile_bytes_offsets = match ifd.get(TIFFTag::TileOffsetsTag) {
                    Some(entry) => entry,
                    None => {
                        return Err(TiffError::LayoutTagsNotFound);
                    },
                };
                let tile_bytes_counts = match ifd.get(TIFFTag::TileByteCountTag) {
                    Some(entry) => entry,
                    None => {
                        return Err(TiffError::LayoutTagsNotFound);
                    },
                };
                Ok(
                    ImageSizeData::Tiles(
                        TiledImageData {
                            tile_width,
                            tile_length,
                            tile_bytes_offsets,
                            tile_bytes_counts,
                        },
                    ),
                )
            },
        }
    }

    /// Reads the raster of the image that `ifd` describes.
    pub fn read_image_data<R: SeekableReader>(
        &self,
        order: TIFFByteOrder,
        reader: &R,
        ifd: &IFD,
    ) -> (image: Result<Vec<Vec<Vec<u64>>>, TiffError>)
        ensures
            match image {
                Ok(img) => image_of(order, reader.bytes(), ifd@) == Ok::<
                    Seq<Seq<Seq<u64>>>,
                    TiffError,
                >(img.deep_view()),
                Err(e) => image_of(order, reader.bytes(), ifd@) == Err::<
                    Seq<Seq<Seq<u64>>>,
                    TiffError,
                >(e),
            },
    {
        match self.get_image_size_data(ifd) {
            Err(e) => Err(e),
            Ok(ImageSizeData::Tiles(specifications)) => self.read_tiled_image(
                order,
                reader,
                ifd,
                specifications,
            ),
            Ok(ImageSizeData::Image(specifications)) => self.read_strip_image(
                order,
                reader,
                ifd,
                specifications,
            ),
        }
    }

    /// Reads the raster of an image that is stored in strips.
    ///
    /// The samples of the strips, one strip after the other, fill the raster
    /// row by row from the top: sample after sample of a pixel, pixel after
    /// pixel of a row.
    pub fn read_strip_image<R: SeekableReader>(
        &self,
        order: TIFFByteOrder,
        reader: &R,
        ifd: &IFD,
        specifications: StripImageData,
    ) -> (image: Result<Vec<Vec<Vec<u64>>>, TiffError>)
        ensures
            match image {
                Ok(img) => strip_image(
                    order,
                    reader.bytes(),
                    ifd@,
                    specifications.strip_offsets@,
                    specifications.strip_row_byte_counts@,
                ) == Ok::<Seq<Seq<Seq<u64>>>, TiffError>(img.deep_view()),
                Err(e) => strip_image(
                    order,
                    reader.bytes(),
                    ifd@,
                    specifications.strip_offsets@,
                    specifications.strip_row_byte_counts@,
                ) == Err::<Seq<Seq<Seq<u64>>>, TiffError>(e),
            },
    {
        let g = match self.image_geometry(ifd) {
            Ok(g) => g,
            Err(e) => {
                return Err(e);
            },
        };
        let stored = match self.read_samples(
            order,
            reader,
            g.depth,
            &specifications.strip_offsets,
            &specifications.strip_row_byte_counts,
        ) {
            Ok(stored) => stored,
            Err(e) => {
                return Err(e);
            },
        };
        if raster_len(&g) == Some(stored.len()) {
            Ok(arrange(&stored, &g, &SampleOrder::Strips))
        } else {
            Err(TiffError::InconsistentGeometry)
        }
    }

    /// Reads the raster of an image that is stored in tiles.
    ///
    /// The tiles cover the image as a grid, and they are stored row of tiles
    /// after row of tiles, the lowest row first. What a tile holds beyond the
    /// right or the lower edge of the image is read and left out.
    pub fn read_tiled_image<R: SeekableReader>(
        &self,
        order: TIFFByteOrder,
        reader: &R,
        ifd: &IFD,
        specifications: TiledImageData,
    ) -> (image: Result<Vec<Vec<Vec<u64>>>, TiffError>)
        ensures
            match image {
                Ok(img) => tiled_image(
                    order,
                    reader.bytes(),
                    ifd@,
                    specifications.tile_width,
                    specifications.tile_length,
                    specifications.tile_bytes_offsets@,
                    specifications.tile_bytes_counts@,
                ) == Ok::<Seq<Seq<Seq<u64>>>, TiffError>(img.deep_view()),
                Err(e) => tiled_image(
                    order,
                    reader.bytes(),
                    ifd@,
                    specifications.tile_width,
                    specifications.tile_length,
                    specifications.tile_bytes_offsets@,
                    specifications.tile_bytes_counts@,
                ) == Err::<Seq<Seq<Seq<u64>>>, TiffError>(e),
            },
    {
        let g = match self.image_geometry(ifd) {
            Ok(g) => g,
            Err(e) => {
                return Err(e);
            },
        };
        let offsets = match specifications.tile_bytes_offsets.value.as_unsigned_ints() {
            Some(offsets) => offsets,
            None => {
                return Err(TiffError::OffsetsUnreadable);
            },
        };
        let byte_counts = match specifications.tile_bytes_counts.value.as_unsigned_ints() {
            Some(byte_counts) => byte_counts,
            None => {
                return Err(TiffError::ByteCountsUnreadable);
            },
        };
        let tile_width: usize = specifications.tile_width;
        let tile_length: usize = specifications.tile_length;
        if !tiles_fit(&g, tile_width, tile_length, &offsets, &byte_counts) {
            return Err(TiffError::InconsistentGeometry);
        }
        let stored = match self.read_samples(order, reader, g.depth, &offsets, &byte_counts) {
            Ok(stored) => stored,
            Err(e) => {
                return Err(e);
            },
        };
        proof {
            let m = span_count(offsets@, byte_counts@);
            let t = tile_samples(g, tile_width as int, tile_length as int);
            assert(0 <= t) by (nonlinear_arith)
                requires
                    t == tile_width * tile_length * g.samples,
            ;
            lemma_stored_len(order, reader.bytes(), g.depth as int, offsets@, byte_counts@, m, t);
        }
        Ok(arrange(&stored, &g, &SampleOrder::Tiles { tile_width, tile_length }))
    }
}

} // verus!
