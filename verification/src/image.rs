//! Raw images, and their encoding as 24-bit bitmap files.

use vstd::prelude::*;
use vstd::arithmetic::div_mod::lemma_fundamental_div_mod_converse;

verus! {

/// Pixels in rows from the top, each pixel with `channels` bytes.
pub struct Image {
    pub width: u32,
    pub height: u32,
    pub channels: u32,
    pub data: Box<[u8]>,
}

/// The bytes of the file header and the info header of a bitmap file.
pub const BMP_HEADER_SIZE: u32 = 54;

/// The four bytes of `value`, lowest first.
pub open spec fn le_bytes(value: u32) -> Seq<u8> {
    seq![
        (value & 0xff) as u8,
        ((value >> 8) & 0xff) as u8,
        ((value >> 16) & 0xff) as u8,
        ((value >> 24) & 0xff) as u8,
    ]
}

/// The zero bytes that fill a row of `width` pixels up to a multiple of four
/// bytes.
pub open spec fn bmp_padding(width: u32) -> int {
    (4 - (width * 3) % 4) % 4
}

/// The bytes of one row in the file.
pub open spec fn bmp_row_size(width: u32) -> int {
    width * 3 + bmp_padding(width)
}

/// The bytes of all rows in the file.
pub open spec fn bmp_data_size(width: u32, height: u32) -> int {
    bmp_row_size(width) * height
}

/// Whether `len` bytes of pixels make a bitmap file of `width` by `height`
/// pixels: there are three bytes for every pixel, and the sizes that the
/// headers state fit in their 32 bits.
pub open spec fn bmp_encodable(width: u32, height: u32, len: int) -> bool {
    &&& bmp_row_size(width) <= u32::MAX
    &&& BMP_HEADER_SIZE + bmp_data_size(width, height) <= u32::MAX
    &&& width * height * 3 <= len
}

/// The headers of the file: the signature and the file size, the offset of the
/// pixels, then the info header with the dimensions, one plane, 24 bits per
/// pixel, no compression, the size of the pixel data and 2835 pixels per metre
/// both ways.
pub open spec fn bmp_header(width: u32, height: u32) -> Seq<u8> {
    seq![0x42u8, 0x4D] + le_bytes((BMP_HEADER_SIZE + bmp_data_size(width, height)) as u32)
        + seq![0u8, 0, 0, 0] + le_bytes(BMP_HEADER_SIZE) + le_bytes(40) + le_bytes(width) + le_bytes(
        height,
    ) + seq![1u8, 0, 0x18, 0, 0, 0, 0, 0] + le_bytes(bmp_data_size(width, height) as u32)
        + seq![0x13u8, 0x0B, 0, 0, 0x13, 0x0B, 0, 0, 0, 0, 0, 0, 0, 0, 0, 0]
}

/// The byte at position `i` of the pixel data: rows from the bottom of the
/// image upwards, each pixel as blue, green, red, each row filled up with zeros.
pub open spec fn bmp_data_byte(width: u32, height: u32, pixels: Seq<u8>, i: int) -> u8 {
    let row = i / bmp_row_size(width);
    let column = i % bmp_row_size(width);
    let y = height - 1 - row;
    if column < width * 3 {
        pixels[(y * width + column / 3) * 3 + 2 - column % 3]
    } else {
        0
    }
}

/// The bitmap file of an image of `width` by `height` pixels whose red, green and
/// blue bytes are `pixels`, rows from the top.
pub open spec fn bmp_file(width: u32, height: u32, pixels: Seq<u8>) -> Seq<u8> {
    bmp_header(width, height) + Seq::new(
        bmp_data_size(width, height) as nat,
        |i: int| bmp_data_byte(width, height, pixels, i),
    )
}

fn push_le(out: &mut Vec<u8>, value: u32)
    ensures
        final(out)@ == old(out)@ + le_bytes(value),
{
    out.push((value & 0xff) as u8);
    out.push(((value >> 8) & 0xff) as u8);
    out.push(((value >> 16) & 0xff) as u8);
    out.push(((value >> 24) & 0xff) as u8);
    assert(out@ =~= old(out)@ + le_bytes(value));
}

fn push_all(out: &mut Vec<u8>, bytes: &[u8])
    ensures
        final(out)@ == old(out)@ + bytes@,
{
    let mut i: usize = 0;
    while i < bytes.len()
        invariant
            i <= bytes.len(),
            out@ == old(out)@ + bytes@.take(i as int),
        decreases bytes.len() - i,
    {
        out.push(bytes[i]);
        assert(bytes@.take(i as int + 1) =~= bytes@.take(i as int).push(bytes@[i as int]));
        i = i + 1;
    }
    assert(bytes@.take(i as int) =~= bytes@);
}

proof fn lemma_sizes(width: u32, height: u32, row: int, x: int)
    requires
        0 <= row < height,
        0 <= x < width,
    ensures
        0 <= (height - 1 - row) * width,
        ((height - 1 - row) * width + x) * 3 + 2 < width * height * 3,
        row * bmp_row_size(width) + bmp_row_size(width) <= bmp_data_size(width, height),
        0 <= row * bmp_row_size(width),
{
    assert((height - 1 - row) * width + x <= width * height - 1) by (nonlinear_arith)
        requires
            0 <= row < height,
            0 <= x < width,
    ;
    assert(0 <= (height - 1 - row) * width) by (nonlinear_arith)
        requires
            0 <= row < height,
    ;
    assert(row * bmp_row_size(width) + bmp_row_size(width) <= bmp_row_size(width) * height)
        by (nonlinear_arith)
        requires
            0 <= row < height,
            0 <= bmp_row_size(width),
    ;
    assert(0 <= row * bmp_row_size(width)) by (nonlinear_arith)
        requires
            0 <= row,
            0 <= bmp_row_size(width),
    ;
}

proof fn lemma_position(width: u32, row: int, column: int)
    requires
        0 <= row,
        0 <= column < bmp_row_size(width),
    ensures
        (row * bmp_row_size(width) + column) / bmp_row_size(width) == row,
        (row * bmp_row_size(width) + column) % bmp_row_size(width) == column,
{
    lemma_fundamental_div_mod_converse(
        row * bmp_row_size(width) + column,
        bmp_row_size(width),
        row,
        column,
    );
}

impl Image {
    /// An image from its parts.
    pub fn from_data(width: u32, height: u32, channels: u32, data: Box<[u8]>) -> (image: Image)
        ensures
            image.width == width,
            image.height == height,
            image.channels == channels,
            image.data == data,
    {
        Image { width, height, channels, data }
    }

    /// The image as a bitmap file, from its first three bytes per pixel.
    pub fn to_bmp(&self) -> (file: Option<Vec<u8>>)
        ensures
            match file {
                Some(bytes) => bmp_encodable(self.width, self.height, self.data@.len() as int)
                    && bytes@ == bmp_file(self.width, self.height, self.data@),
                None => !bmp_encodable(self.width, self.height, self.data@.len() as int),
            },
    {
        encode_bmp(self.width, self.height, &self.data)
    }
}

/// The bitmap file of `width` by `height` pixels with the red, green and blue
/// bytes of `buffer`, if they make one.
pub fn encode_bmp(width: u32, height: u32, buffer: &[u8]) -> (file: Option<Vec<u8>>)
    ensures
        match file {
            Some(bytes) => bmp_encodable(width, height, buffer@.len() as int) && bytes@ == bmp_file(
                width,
                height,
                buffer@,
            ),
            None => !bmp_encodable(width, height, buffer@.len() as int),
        },
{
    let row_bytes: u64 = width as u64 * 3;
    let padding: u64 = (4 - row_bytes % 4) % 4;
    let row_size: u64 = row_bytes + padding;
    if row_size > u32::MAX as u64 {
        return None;
    }
    assert(row_size * height <= 0xffff_ffff * 0xffff_ffff) by (nonlinear_arith)
        requires
            row_size <= 0xffff_ffff,
            height <= 0xffff_ffff,
    ;
    let data_size: u64 = row_size * height as u64;
    if data_size + 54 > u32::MAX as u64 {
        return None;
    }
    assert(row_bytes * height <= row_size * height) by (nonlinear_arith)
        requires
            row_bytes <= row_size,
    ;
    assert(row_bytes * height == width * height * 3) by (nonlinear_arith)
        requires
            row_bytes == width * 3,
    ;
    let needed: u64 = row_bytes * height as u64;
    if (buffer.len() as u64) < needed {
        return None;
    }
    let ghost header = bmp_header(width, height);
    let mut out: Vec<u8> = Vec::new();
    out.push(0x42);
    out.push(0x4D);
    push_le(&mut out, (data_size + 54) as u32);
    push_all(&mut out, &[0, 0, 0, 0]);
    push_le(&mut out, 54);
    push_le(&mut out, 40);
    push_le(&mut out, width);
    push_le(&mut out, height);
    push_all(&mut out, &[1, 0, 0x18, 0, 0, 0, 0, 0]);
    push_le(&mut out, data_size as u32);
    push_all(&mut out, &[0x13, 0x0B, 0, 0, 0x13, 0x0B, 0, 0, 0, 0, 0, 0, 0, 0, 0, 0]);
    assert(out@ =~= header);
    assert(header.len() == 54);
    let mut row: u32 = 0;
    while row < height
        invariant
            row <= height,
            header == bmp_header(width, height),
            header.len() == 54,
            row_bytes == width * 3,
            padding == bmp_padding(width),
            row_size == bmp_row_size(width),
            data_size == bmp_data_size(width, height),
            data_size + 54 <= u32::MAX,
            width * height * 3 <= buffer@.len(),
            buffer@.len() <= usize::MAX,
            out@.len() == 54 + row * row_size,
            out@.take(54) == header,
            forall|i: int|
                0 <= i < row * row_size ==> out@[54 + i] == #[trigger] bmp_data_byte(
                    width,
                    height,
                    buffer@,
                    i,
                ),
        decreases height - row,
    {
        let y: u32 = height - 1 - row;
        let ghost start: int = row * row_size;
        let mut x: u32 = 0;
        while x < width
            invariant
                x <= width,
                row < height,
                y == height - 1 - row,
                start == row * row_size,
                header.len() == 54,
                row_bytes == width * 3,
                row_size == bmp_row_size(width),
                row_bytes <= row_size,
                width * height * 3 <= buffer@.len(),
                buffer@.len() <= usize::MAX,
                out@.len() == 54 + start + 3 * x,
                out@.take(54) == header,
                forall|i: int|
                    0 <= i < start + 3 * x ==> out@[54 + i] == #[trigger] bmp_data_byte(
                        width,
                        height,
                        buffer@,
                        i,
                    ),
            decreases width - x,
        {
            proof {
                lemma_sizes(width, height, row as int, x as int);
                lemma_position(width, row as int, 3 * x);
                lemma_position(width, row as int, 3 * x + 1);
                lemma_position(width, row as int, 3 * x + 2);
            }
            let ghost before = out@;
            assert(y * width == (height - 1 - row) * width);
            assert(y * width + x <= (y * width + x) * 3);
            let offset: usize = (y as usize * width as usize + x as usize) * 3;
            out.push(buffer[offset + 2]);
            out.push(buffer[offset + 1]);
            out.push(buffer[offset]);
            proof {
                assert(out@.take(54) =~= before.take(54));
                assert forall|i: int| 0 <= i < start + 3 * (x + 1) implies out@[54 + i]
                    == #[trigger] bmp_data_byte(width, height, buffer@, i) by {
                    if i < start + 3 * x {
                        assert(out@[54 + i] == before[54 + i]);
                    }
                }
            }
            x = x + 1;
        }
        let mut filled: u64 = 0;
        while filled < padding
            invariant
                filled <= padding,
                row < height,
                start == row * row_size,
                header.len() == 54,
                row_bytes == width * 3,
                padding == bmp_padding(width),
                row_size == bmp_row_size(width),
                out@.len() == 54 + start + row_bytes + filled,
                out@.take(54) == header,
                forall|i: int|
                    0 <= i < start + row_bytes + filled ==> out@[54 + i] == #[trigger] bmp_data_byte(
                        width,
                        height,
                        buffer@,
                        i,
                    ),
            decreases padding - filled,
        {
            proof {
                lemma_sizes(width, height, row as int, 0);
                lemma_position(width, row as int, row_bytes + filled);
            }
            let ghost before = out@;
            out.push(0);
            proof {
                assert(out@.take(54) =~= before.take(54));
                assert forall|i: int| 0 <= i < start + row_bytes + filled + 1 implies out@[54 + i]
                    == #[trigger] bmp_data_byte(width, height, buffer@, i) by {
                    if i < start + row_bytes + filled {
                        assert(out@[54 + i] == before[54 + i]);
                    }
                }
            }
            filled = filled + 1;
        }
        proof {
            assert((row + 1) * row_size == start + row_size) by (nonlinear_arith)
                requires
                    start == row * row_size,
            ;
        }
        row = row + 1;
    }
    proof {
        assert(row * row_size == data_size) by (nonlinear_arith)
            requires
                row == height,
                data_size == row_size * height,
        ;
        assert(out@ =~= bmp_file(width, height, buffer@)) by {
            assert(forall|i: int| 0 <= i < 54 ==> out@[i] == out@.take(54)[i]);
        }
    }
    Some(out)
}

} // verus!
