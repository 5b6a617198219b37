//! Captured frames, the updates that carry them to a client, and the bitmap
//! form of a frame: cut into tiles, or cut down to what changed.

use bytes::Bytes;
use vstd::prelude::*;
use vstd::slice::slice_subrange;

verus! {

/// Bytes per pixel.
pub const PIXEL_BYTES: usize = 4;

/// A shared, immutable byte buffer.
#[verifier::external_type_specification]
#[verifier::external_body]
pub struct ExBytes(bytes::Bytes);

/// The bytes that a buffer holds.
pub uninterp spec fn content(buffer: bytes::Bytes) -> Seq<u8>;

/// `bytes::Bytes::from`: takes over a vector, whose bytes the buffer then holds.
#[verifier::external_body]
pub(crate) fn share(data: Vec<u8>) -> (buffer: Bytes)
    ensures
        content(buffer) == data@,
{
    Bytes::from(data)
}

/// `bytes::Bytes::as_ref`: the buffer's bytes as a slice.
#[verifier::external_body]
pub(crate) fn as_bytes(buffer: &Bytes) -> (data: &[u8])
    ensures
        data@ == content(*buffer),
{
    buffer.as_ref()
}

/// `bytes::Bytes::clone`: another handle on the same bytes.
#[verifier::external_body]
pub(crate) fn another(buffer: &Bytes) -> (other: Bytes)
    ensures
        content(other) == content(*buffer),
{
    buffer.clone()
}

/// A rectangle of a frame, in pixels.
#[derive(Clone, Copy, Debug, PartialEq, Eq, Structural)]
pub struct Rect {
    pub x: u32,
    pub y: u32,
    pub width: u32,
    pub height: u32,
}

/// The pixels of a captured frame.
#[derive(Debug)]
pub enum FrameData {
    /// BGRA rows.
    Raw(Bytes),
    /// A buffer of the platform, which only its encoder reads.
    PixelBuffer,
}

/// A frame as the screen capturer delivers it.
#[derive(Debug)]
pub struct CapturedFrame {
    pub width: u32,
    pub height: u32,
    pub data: FrameData,
    /// Bytes from the start of one row to the next.
    pub stride: usize,
    pub timestamp_us: u64,
    /// What changed since the frame before; empty where that is not known.
    pub dirty_rects: Vec<Rect>,
}

/// How the bytes of a bitmap make pixels.
#[derive(Clone, Copy, Debug, PartialEq, Eq, Structural)]
pub enum PixelFormat {
    BgrA32,
}

/// A rectangle of pixels for the client's screen.
#[derive(Debug)]
pub struct BitmapUpdate {
    pub x: u16,
    pub y: u16,
    pub width: u16,
    pub height: u16,
    pub format: PixelFormat,
    pub data: Bytes,
    pub stride: usize,
}

/// What a bitmap update says.
pub struct BitmapView {
    pub x: int,
    pub y: int,
    pub width: int,
    pub height: int,
    pub format: PixelFormat,
    pub data: Seq<u8>,
    pub stride: int,
}

impl View for BitmapUpdate {
    type V = BitmapView;

    open spec fn view(&self) -> BitmapView {
        BitmapView {
            x: self.x as int,
            y: self.y as int,
            width: self.width as int,
            height: self.height as int,
            format: self.format,
            data: content(self.data),
            stride: self.stride as int,
        }
    }
}

/// What a frame with raw pixels holds.
pub open spec fn pixels(frame: CapturedFrame) -> Seq<u8> {
    match frame.data {
        FrameData::Raw(buffer) => content(buffer),
        FrameData::PixelBuffer => Seq::empty(),
    }
}

/// The lowest sixteen bits of a number.
pub open spec fn low16(n: u32) -> int {
    n as int % 0x1_0000
}

/// The lowest sixteen bits of a number.
pub fn to_u16(n: u32) -> (r: u16)
    ensures
        r == low16(n),
{
    assert(n as u16 == n % 0x1_0000) by (bit_vector);
    #[verifier::truncate]
    (n as u16)
}

/// The `len` bytes of `data` from `start`, or none where it ends before them.
pub open spec fn row_at(data: Seq<u8>, start: int, len: int) -> Seq<u8> {
    if start + len <= data.len() {
        data.subrange(start, start + len)
    } else {
        Seq::empty()
    }
}

/// The pixels of a rectangle of `width` by `height` pixels at `x`, `y`, row by
/// row, in a picture whose rows start `stride` bytes apart.
pub open spec fn region(data: Seq<u8>, stride: int, x: int, y: int, width: int, height: nat) -> Seq<
    u8,
>
    decreases height,
{
    if height == 0 {
        Seq::empty()
    } else {
        region(data, stride, x, y, width, (height - 1) as nat) + row_at(
            data,
            (y + height - 1) * stride + x * PIXEL_BYTES,
            width * PIXEL_BYTES,
        )
    }
}

/// A region whose rows all lie within the picture holds every pixel of it.
pub proof fn region_is_complete(
    data: Seq<u8>,
    stride: int,
    x: int,
    y: int,
    width: int,
    height: nat,
)
    requires
        0 <= x,
        0 <= y,
        0 <= width,
        (x + width) * PIXEL_BYTES <= stride,
        (y + height) * stride <= data.len(),
    ensures
        region(data, stride, x, y, width, height).len() == width * height * PIXEL_BYTES,
        forall|row: int, i: int|
            #![trigger data[(y + row) * stride + x * PIXEL_BYTES + i]]
            0 <= row < height && 0 <= i < width * PIXEL_BYTES ==> region(
                data,
                stride,
                x,
                y,
                width,
                height,
            )[row * (width * PIXEL_BYTES) + i] == data[(y + row) * stride + x * PIXEL_BYTES + i],
    decreases height,
{
    let line = width * PIXEL_BYTES;
    if height > 0 {
        let above = (height - 1) as nat;
        assert((y + height) * stride == (y + above) * stride + stride) by (nonlinear_arith)
            requires
                height == above + 1,
        ;
        region_is_complete(data, stride, x, y, width, above);
        assert(width * height * PIXEL_BYTES == width * above * PIXEL_BYTES + line)
            by (nonlinear_arith)
            requires
                height == above + 1,
                line == width * PIXEL_BYTES,
        ;
        assert(width * above * PIXEL_BYTES == above * line) by (nonlinear_arith)
            requires
                line == width * PIXEL_BYTES,
        ;
        let start = (y + height - 1) * stride + x * PIXEL_BYTES;
        assert(start >= 0) by (nonlinear_arith)
            requires
                start == (y + above) * stride + x * PIXEL_BYTES,
                y >= 0,
                x >= 0,
                stride >= 0,
        ;
        let all = region(data, stride, x, y, width, height);
        let upper = region(data, stride, x, y, width, above);
        assert forall|row: int, i: int|
            #![trigger data[(y + row) * stride + x * PIXEL_BYTES + i]]
            0 <= row < height && 0 <= i < line implies all[row * line + i] == data[(y + row)
            * stride + x * PIXEL_BYTES + i] by {
            if row < above {
                assert(0 <= row * line + i < above * line) by (nonlinear_arith)
                    requires
                        0 <= row < above,
                        0 <= i < line,
                ;
            }
        }
    }
}

/// Copies a rectangle out of a picture, leaving out rows beyond its end.
pub(crate) fn copy_region(
    data: &[u8],
    stride: usize,
    x: usize,
    y: usize,
    width: usize,
    height: usize,
) -> (out: Vec<u8>)
    requires
        height > 0,
        y + height <= usize::MAX,
        (y + height - 1) * stride + (x + width) * PIXEL_BYTES <= usize::MAX,
        width * PIXEL_BYTES * height <= isize::MAX,
    ensures
        out@ == region(data@, stride as int, x as int, y as int, width as int, height as nat),
{
    proof {
        assert(width * PIXEL_BYTES <= width * PIXEL_BYTES * height) by (nonlinear_arith)
            requires
                height >= 1,
        ;
        assert((y + height - 1) * stride >= 0) by (nonlinear_arith)
            requires
                y >= 0,
                height >= 1,
                stride >= 0,
        ;
    }
    let line: usize = width * PIXEL_BYTES;
    let left: usize = x * PIXEL_BYTES;
    let mut out: Vec<u8> = Vec::with_capacity(line * height);
    let mut row: usize = 0;
    while row < height
        invariant
            row <= height,
            line == width * PIXEL_BYTES,
            left == x * PIXEL_BYTES,
            (y + height - 1) * stride + left + line <= usize::MAX,
            y + height <= usize::MAX,
            out@ == region(data@, stride as int, x as int, y as int, width as int, row as nat),
        decreases height - row,
    {
        proof {
            assert((y + row) * stride <= (y + height - 1) * stride) by (nonlinear_arith)
                requires
                    row <= height - 1,
                    stride >= 0,
            ;
        }
        let start: usize = (y + row) * stride + left;
        if start + line <= data.len() {
            out.extend_from_slice(slice_subrange(data, start, start + line));
        }
        row += 1;
        assert(out@ =~= region(
            data@,
            stride as int,
            x as int,
            y as int,
            width as int,
            row as nat,
        ));
    }
    out
}

/// How many tiles of `tile` pixels cover `size` pixels.
pub open spec fn tile_count(size: int, tile: int) -> int {
    (size + tile - 1) / tile
}

/// How many pixels the tile with number `index` covers.
pub open spec fn tile_extent(size: int, tile: int, index: int) -> int {
    if size - index * tile < tile {
        size - index * tile
    } else {
        tile
    }
}

/// The tile in the given row and column of tiles.
pub open spec fn tile_at(frame: CapturedFrame, tile: int, row: int, col: int) -> BitmapView {
    let width = tile_extent(low16(frame.width), tile, col);
    let height = tile_extent(low16(frame.height), tile, row);
    BitmapView {
        x: col * tile,
        y: row * tile,
        width,
        height,
        format: PixelFormat::BgrA32,
        data: region(
            pixels(frame),
            frame.stride as int,
            col * tile,
            row * tile,
            width,
            height as nat,
        ),
        stride: width * PIXEL_BYTES,
    }
}

/// The tiles of a frame, row by row. A buffer of the platform has none.
pub open spec fn tiles(frame: CapturedFrame, tile: int) -> Seq<BitmapView> {
    let cols = tile_count(low16(frame.width), tile);
    let rows = tile_count(low16(frame.height), tile);
    if frame.data is Raw {
        Seq::new((rows * cols) as nat, |i: int| tile_at(frame, tile, i / cols, i % cols))
    } else {
        Seq::empty()
    }
}

/// Whether the offsets into a frame's pixels, and a copy of them, fit the
/// machine.
pub open spec fn fits(frame: CapturedFrame, width: int, height: int) -> bool {
    width > 0 && height > 0 ==> {
        &&& (height - 1) * frame.stride + width * PIXEL_BYTES <= usize::MAX
        &&& width * PIXEL_BYTES * height <= isize::MAX
    }
}

/// Where the tile with number `index` lies.
proof fn lemma_tile_extent(size: int, tile: int, index: int)
    requires
        0 <= size,
        0 < tile,
        0 <= index < tile_count(size, tile),
    ensures
        0 <= index * tile < size,
        0 < tile_extent(size, tile, index) <= tile,
        index * tile + tile_extent(size, tile, index) <= size,
        size > 0,
{
    let n = tile_count(size, tile);
    vstd::arithmetic::div_mod::lemma_fundamental_div_mod(size + tile - 1, tile);
    assert(tile * n <= size + tile - 1);
    assert(index * tile + tile <= tile * n) by (nonlinear_arith)
        requires
            index + 1 <= n,
            tile > 0,
    ;
    assert(index * tile >= 0) by (nonlinear_arith)
        requires
            index >= 0,
            tile > 0,
    ;
}

/// Cuts a frame into tiles of at most `tile_size` by `tile_size` pixels.
pub fn frame_to_bitmap_updates(frame: &CapturedFrame, tile_size: u16) -> (updates: Vec<
    BitmapUpdate,
>)
    requires
        frame.data is Raw ==> {
            &&& tile_size > 0
            &&& low16(frame.width) + tile_size <= u16::MAX
            &&& low16(frame.height) + tile_size <= u16::MAX
            &&& fits(*frame, low16(frame.width), low16(frame.height))
        },
    ensures
        updates@.len() == tiles(*frame, tile_size as int).len(),
        forall|i: int|
            0 <= i < updates@.len() ==> (#[trigger] updates@[i])@ == tiles(
                *frame,
                tile_size as int,
            )[i],
{
    let mut updates: Vec<BitmapUpdate> = Vec::new();
    let bgra: &[u8] = match &frame.data {
        FrameData::Raw(buffer) => as_bytes(buffer),
        FrameData::PixelBuffer => return updates,
    };
    let width: u16 = to_u16(frame.width);
    let height: u16 = to_u16(frame.height);
    let cols: u16 = (width + tile_size - 1) / tile_size;
    let rows: u16 = (height + tile_size - 1) / tile_size;
    let ghost t = tile_size as int;
    let ghost all = tiles(*frame, t);
    let mut row: u16 = 0;
    proof {
        assert(0 * cols == 0);
        assert(rows * cols >= 0) by (nonlinear_arith)
            requires
                rows >= 0,
                cols >= 0,
        ;
    }
    while row < rows
        invariant
            tile_size > 0,
            t == tile_size,
            row <= rows,
            frame.data is Raw,
            width == low16(frame.width),
            height == low16(frame.height),
            bgra@ == pixels(*frame),
            cols == tile_count(width as int, t),
            rows == tile_count(height as int, t),
            all == tiles(*frame, t),
            all.len() == rows * cols,
            fits(*frame, width as int, height as int),
            updates@.len() == row * cols,
            forall|i: int| 0 <= i < updates@.len() ==> (#[trigger] updates@[i])@ == all[i],
        decreases rows - row,
    {
        let mut col: u16 = 0;
        while col < cols
            invariant
                tile_size > 0,
                t == tile_size,
                row < rows,
                col <= cols,
                frame.data is Raw,
                width == low16(frame.width),
                height == low16(frame.height),
                bgra@ == pixels(*frame),
                cols == tile_count(width as int, t),
                rows == tile_count(height as int, t),
                all == tiles(*frame, t),
                all.len() == rows * cols,
                fits(*frame, width as int, height as int),
                updates@.len() == row * cols + col,
                forall|i: int| 0 <= i < updates@.len() ==> (#[trigger] updates@[i])@ == all[i],
            decreases cols - col,
        {
            proof {
                lemma_tile_extent(width as int, t, col as int);
                lemma_tile_extent(height as int, t, row as int);
            }
            let x: u16 = col * tile_size;
            let y: u16 = row * tile_size;
            let w: u16 = if width - x < tile_size {
                width - x
            } else {
                tile_size
            };
            let h: u16 = if height - y < tile_size {
                height - y
            } else {
                tile_size
            };
            proof {
                let stride = frame.stride as int;
                assert((y + h - 1) * stride <= (height - 1) * stride) by (nonlinear_arith)
                    requires
                        y + h <= height,
                        stride >= 0,
                ;
                assert(w * PIXEL_BYTES * h <= width * PIXEL_BYTES * height) by (nonlinear_arith)
                    requires
                        0 <= w <= width,
                        0 <= h <= height,
                ;
            }
            let data: Vec<u8> = copy_region(
                bgra,
                frame.stride,
                x as usize,
                y as usize,
                w as usize,
                h as usize,
            );
            let update = BitmapUpdate {
                x,
                y,
                width: w,
                height: h,
                format: PixelFormat::BgrA32,
                data: share(data),
                stride: w as usize * PIXEL_BYTES,
            };
            proof {
                let i = row * cols + col;
                vstd::arithmetic::div_mod::lemma_fundamental_div_mod_converse(
                    i,
                    cols as int,
                    row as int,
                    col as int,
                );
                assert(i < rows * cols) by (nonlinear_arith)
                    requires
                        i == row * cols + col,
                        row + 1 <= rows,
                        col < cols,
                ;
                assert(all[i] == tile_at(*frame, t, row as int, col as int));
                assert(update@ =~= all[i]);
            }
            updates.push(update);
            col += 1;
        }
        assert((row + 1) * cols == row * cols + cols) by (nonlinear_arith);
        row += 1;
    }
    updates
}

/// The tiles partition a frame: a pixel lies in the tile of its row and column
/// of tiles, and in no other.
pub proof fn tiles_partition_the_frame(frame: CapturedFrame, tile: int, px: int, py: int, i: int)
    requires
        frame.data is Raw,
        tile > 0,
        0 <= px < low16(frame.width),
        0 <= py < low16(frame.height),
        0 <= i < tiles(frame, tile).len(),
    ensures
        ({
            let t = tiles(frame, tile)[i];
            let cols = tile_count(low16(frame.width), tile);
            let home = py / tile * cols + px / tile;
            &&& 0 <= home < tiles(frame, tile).len()
            &&& t.x <= px < t.x + t.width && t.y <= py < t.y + t.height <==> i == home
        }),
{
    let (w, h) = (low16(frame.width), low16(frame.height));
    let cols = tile_count(w, tile);
    let rows = tile_count(h, tile);
    let (row, col) = (i / cols, i % cols);
    lemma_in_tile(w, tile, px);
    lemma_in_tile(h, tile, py);
    vstd::arithmetic::div_mod::lemma_fundamental_div_mod(i, cols);
    let (home_row, home_col) = (py / tile, px / tile);
    let home = home_row * cols + home_col;
    assert(0 <= home < rows * cols) by (nonlinear_arith)
        requires
            home == home_row * cols + home_col,
            0 <= home_row <= rows - 1,
            0 <= home_col < cols,
    ;
    assert(0 <= row < rows) by (nonlinear_arith)
        requires
            i == cols * row + col,
            0 <= i < rows * cols,
            0 <= col < cols,
    ;
    assert(0 <= col < cols);
    vstd::arithmetic::div_mod::lemma_fundamental_div_mod_converse(
        home,
        cols,
        home_row,
        home_col,
    );
    lemma_tile_extent(w, tile, col);
    lemma_tile_extent(h, tile, row);
    assert(tiles(frame, tile)[i] == tile_at(frame, tile, row, col));
    lemma_only_tile(w, tile, px, col);
    lemma_only_tile(h, tile, py, row);
    assert(cols * row == row * cols) by (nonlinear_arith);
}

/// The tile that a pixel's number falls in is one of the tiles.
proof fn lemma_in_tile(size: int, tile: int, p: int)
    requires
        tile > 0,
        0 <= p < size,
    ensures
        0 <= p / tile < tile_count(size, tile),
{
    vstd::arithmetic::div_mod::lemma_fundamental_div_mod(p, tile);
    vstd::arithmetic::div_mod::lemma_fundamental_div_mod(size + tile - 1, tile);
    let (q, n) = (p / tile, tile_count(size, tile));
    assert(0 <= q < n) by (nonlinear_arith)
        requires
            tile > 0,
            0 <= p,
            p == tile * q + p % tile,
            0 <= p % tile < tile,
            p <= size - 1,
            size + tile - 1 < tile * n + tile,
    ;
}

/// A pixel falls in a tile just where its number divided by the tile's size is
/// the tile's number.
proof fn lemma_only_tile(size: int, tile: int, p: int, index: int)
    requires
        tile > 0,
        0 <= p < size,
        0 <= index,
    ensures
        index * tile <= p < index * tile + tile_extent(size, tile, index) <==> index == p / tile,
{
    vstd::arithmetic::div_mod::lemma_fundamental_div_mod(p, tile);
    let q = p / tile;
    if index * tile <= p < index * tile + tile_extent(size, tile, index) {
        assert(index == q) by (nonlinear_arith)
            requires
                tile > 0,
                p == tile * q + p % tile,
                0 <= p % tile < tile,
                index * tile <= p < index * tile + tile,
        ;
    }
    assert(q * tile == tile * q) by (nonlinear_arith);
}

/// Sixteen bits hold a number below 65536 as it is, and of larger ones what is
/// left after whole times 65536.
pub proof fn sixteen_bits_wrap(n: u32)
    ensures
        n < 0x1_0000 ==> low16(n) == n,
        n >= 0x1_0000 ==> low16(n) == low16((n - 0x1_0000) as u32),
{
}

/// A pixel of a region is the pixel of the picture at its place.
pub proof fn regions_keep_their_pixels(
    data: Seq<u8>,
    stride: int,
    x: int,
    y: int,
    width: int,
    height: nat,
    px: int,
    py: int,
    k: int,
)
    requires
        0 <= x,
        0 <= y,
        0 <= width,
        (x + width) * 4 <= stride,
        (y + height) * stride <= data.len(),
        x <= px < x + width,
        y <= py < y + height,
        0 <= k < 4,
    ensures
        region(data, stride, x, y, width, height).len() == width * height * 4,
        region(data, stride, x, y, width, height)[(py - y) * (width * 4) + (px - x) * 4 + k]
            == data[py * stride + px * 4 + k],
{
    region_is_complete(data, stride, x, y, width, height);
    let (row, i) = (py - y, (px - x) * 4 + k);
    assert(data[(y + row) * stride + x * PIXEL_BYTES + i] == data[py * stride + px * 4 + k]);
    assert(row * (width * PIXEL_BYTES) + i == (py - y) * (width * 4) + (px - x) * 4 + k);
}

/// A tile shows the pixels of the frame at its place: a picture within the frame,
/// not empty and no larger than asked for, whose rows follow each other closely.
pub proof fn tiles_show_the_frame(
    frame: CapturedFrame,
    tile: int,
    i: int,
    px: int,
    py: int,
    k: int,
)
    requires
        frame.data is Raw,
        tile > 0,
        frame.width < 0x1_0000,
        frame.height < 0x1_0000,
        frame.width * 4 <= frame.stride,
        frame.height * frame.stride <= pixels(frame).len(),
        0 <= i < tiles(frame, tile).len(),
        0 <= k < 4,
        ({
            let t = tiles(frame, tile)[i];
            t.x <= px < t.x + t.width && t.y <= py < t.y + t.height
        }),
    ensures
        ({
            let t = tiles(frame, tile)[i];
            &&& 0 <= t.x && t.x + t.width <= frame.width
            &&& 0 <= t.y && t.y + t.height <= frame.height
            &&& 0 < t.width <= tile
            &&& 0 < t.height <= tile
            &&& t.stride == t.width * 4
            &&& t.data.len() == t.width * t.height * 4
            &&& t.data[(py - t.y) * t.stride + (px - t.x) * 4 + k] == pixels(frame)[py
                * frame.stride + px * 4 + k]
            &&& t.format == PixelFormat::BgrA32
        }),
{
    let (w, h) = (low16(frame.width), low16(frame.height));
    let cols = tile_count(w, tile);
    let rows = tile_count(h, tile);
    let (row, col) = (i / cols, i % cols);
    assert(cols > 0) by {
        vstd::arithmetic::div_mod::lemma_fundamental_div_mod(w + tile - 1, tile);
        assert(cols >= 0) by (nonlinear_arith)
            requires
                w + tile - 1 >= 0,
                tile > 0,
                cols == (w + tile - 1) / tile,
        ;
        if cols == 0 {
            assert(rows * cols == 0) by (nonlinear_arith)
                requires
                    cols == 0,
            ;
        }
    }
    vstd::arithmetic::div_mod::lemma_fundamental_div_mod(i, cols);
    assert(0 <= row < rows) by (nonlinear_arith)
        requires
            i == cols * row + col,
            0 <= i < rows * cols,
            0 <= col < cols,
    ;
    lemma_tile_extent(w, tile, col);
    lemma_tile_extent(h, tile, row);
    let t = tile_at(frame, tile, row, col);
    assert(tiles(frame, tile)[i] == t);
    let stride = frame.stride as int;
    assert((t.y + t.height) * stride <= pixels(frame).len()) by (nonlinear_arith)
        requires
            t.y + t.height <= frame.height,
            stride >= 0,
            frame.height * stride <= pixels(frame).len(),
    ;
    regions_keep_their_pixels(
        pixels(frame),
        stride,
        t.x,
        t.y,
        t.width,
        t.height as nat,
        px,
        py,
        k,
    );
}

/// A bitmap update says what its fields hold.
pub proof fn bitmaps_say_what_they_hold(update: BitmapUpdate)
    ensures
        update@.x == update.x && update@.y == update.y,
        update@.width == update.width && update@.height == update.height,
        update@.stride == update.stride && update@.format == update.format,
        update@.data == content(update.data),
{
}

} // verus!
