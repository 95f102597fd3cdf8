//! Images as bitmap files: twenty-four bits a pixel, rows from the bottom up,
//! each filled up to a multiple of four bytes.
use vstd::prelude::*;

verus! {

/// The bytes of one row.
pub open spec fn row_size(w: int) -> int {
    (w * 3 + 3) / 4 * 4
}

/// A number as four bytes, the lowest first.
pub open spec fn le4(n: int) -> Seq<u8> {
    seq![
        (n % 256) as u8,
        (n / 256 % 256) as u8,
        (n / 65536 % 256) as u8,
        (n / 16777216 % 256) as u8,
    ]
}

/// The fourteen bytes that a file begins with.
pub open spec fn file_header(size: int) -> Seq<u8> {
    seq![66u8, 77u8] + le4(size) + le4(0) + le4(54)
}

/// The forty bytes that describe the image.
pub open spec fn image_header(w: int, h: int, size: int) -> Seq<u8> {
    le4(40) + le4(w) + le4(h) + seq![1u8, 0u8, 24u8, 0u8] + le4(0) + le4(size) + le4(0) + le4(0)
        + le4(0) + le4(0)
}

/// One row of the image: blue, green and red of each pixel, then zeros.
pub open spec fn row_bytes(pixels: Seq<u8>, w: int, row: int) -> Seq<u8> {
    Seq::new(
        row_size(w) as nat,
        |j: int|
            if j < w * 3 {
                pixels[(row * w + j / 3) * 4 + 2 - j % 3]
            } else {
                0u8
            },
    )
}

/// The last `n` rows of the image, from the bottom up.
pub open spec fn rows_bytes(pixels: Seq<u8>, w: int, h: int, n: int) -> Seq<u8>
    decreases n,
{
    if n <= 0 {
        Seq::empty()
    } else {
        rows_bytes(pixels, w, h, n - 1) + row_bytes(pixels, w, h - n)
    }
}

/// The file of an image.
pub open spec fn bitmap(pixels: Seq<u8>, w: int, h: int) -> Seq<u8> {
    file_header(54 + row_size(w) * h) + image_header(w, h, row_size(w) * h) + rows_bytes(
        pixels,
        w,
        h,
        h,
    )
}

/// Whether an image has all its pixels and its file's size fits the header.
pub open spec fn encodable(pixels: Seq<u8>, w: int, h: int) -> bool {
    &&& w * h * 4 <= pixels.len()
    &&& w * h * 4 <= u32::MAX
    &&& 54 + row_size(w) * h <= u32::MAX
    &&& row_size(w) <= u32::MAX
}

/// Adds a number as four bytes, the lowest first.
fn put4(out: &mut Vec<u8>, n: u32)
    ensures
        final(out)@ == old(out)@ + le4(n as int),
{
    out.push((n % 256) as u8);
    out.push((n / 256 % 256) as u8);
    out.push((n / 65536 % 256) as u8);
    out.push((n / 16777216 % 256) as u8);
    assert(out@ =~= old(out)@ + le4(n as int));
}

/// Adds the headers.
fn put_headers(out: &mut Vec<u8>, w: u32, h: u32, size: u32)
    requires
        54 + size <= u32::MAX,
    ensures
        final(out)@ == old(out)@ + (file_header(54 + size) + image_header(
            w as int,
            h as int,
            size as int,
        )),
{
    let ghost before = out@;
    out.push(66);
    out.push(77);
    put4(out, 54 + size);
    put4(out, 0);
    put4(out, 54);
    assert(out@ =~= before + file_header(54 + size));
    let ghost middle = out@;
    put4(out, 40);
    put4(out, w);
    put4(out, h);
    out.push(1);
    out.push(0);
    out.push(24);
    out.push(0);
    assert(out@ =~= middle + (le4(40) + le4(w as int) + le4(h as int) + seq![1u8, 0u8, 24u8, 0u8]));
    put4(out, 0);
    put4(out, size);
    put4(out, 0);
    put4(out, 0);
    put4(out, 0);
    put4(out, 0);
    assert(out@ =~= middle + image_header(w as int, h as int, size as int));
    assert(out@ =~= before + (file_header(54 + size) + image_header(
        w as int,
        h as int,
        size as int,
    )));
}

/// The place of a pixel lies within the image.
proof fn pixel_is_within(w: int, h: int, row: int, col: int)
    requires
        0 <= row < h,
        0 <= col < w,
    ensures
        0 <= row * w + col < w * h,
{
    assert(0 <= row * w + col < w * h) by (nonlinear_arith)
        requires
            0 <= row < h,
            0 <= col < w,
    ;
}

/// Adds one row.
fn put_row(out: &mut Vec<u8>, pixels: &Vec<u8>, w: u32, h: u32, row: u32, size: u32)
    requires
        row < h,
        encodable(pixels@, w as int, h as int),
        size == row_size(w as int),
    ensures
        final(out)@ == old(out)@ + row_bytes(pixels@, w as int, row as int),
{
    let ghost before = out@;
    let ghost full = row_bytes(pixels@, w as int, row as int);
    let mut col: u32 = 0;
    assert(out@ =~= before + full.take(0));
    while col < w
        invariant
            col <= w,
            row < h,
            encodable(pixels@, w as int, h as int),
            size == row_size(w as int),
            full == row_bytes(pixels@, w as int, row as int),
            out@ == before + full.take(3 * col),
        decreases w - col,
    {
        proof {
            pixel_is_within(w as int, h as int, row as int, col as int);
            assert(row * w <= row * w + col);
        }
        let at: usize = (row as u64 * w as u64 + col as u64) as usize * 4;
        let red: u8 = pixels[at];
        let green: u8 = pixels[at + 1];
        let blue: u8 = pixels[at + 2];
        out.push(blue);
        out.push(green);
        out.push(red);
        proof {
            assert((3 * col) / 3 == col && (3 * col) % 3 == 0);
            assert((3 * col + 1) / 3 == col && (3 * col + 1) % 3 == 1);
            assert((3 * col + 2) / 3 == col && (3 * col + 2) % 3 == 2);
            assert(full[3 * col] == blue);
            assert(full[3 * col + 1] == green);
            assert(full[3 * col + 2] == red);
            assert(full.take(3 * (col + 1)) =~= full.take(3 * col).push(blue).push(green).push(
                red,
            ));
        }
        col = col + 1;
        assert(out@ =~= before + full.take(3 * col));
    }
    let mut filled: u32 = 3 * w;
    while filled < size
        invariant
            3 * w <= filled <= size,
            size == row_size(w as int),
            full == row_bytes(pixels@, w as int, row as int),
            out@ == before + full.take(filled as int),
        decreases size - filled,
    {
        out.push(0);
        assert(full.take(filled + 1) =~= full.take(filled as int).push(0));
        filled = filled + 1;
        assert(out@ =~= before + full.take(filled as int));
    }
    assert(full.take(size as int) =~= full);
}

/// The file of an image of red, green, blue and opacity, four bytes a pixel
/// and from the top down.
pub fn encode_bmp(pixels: &Vec<u8>, w: u32, h: u32) -> (r: Vec<u8>)
    requires
        encodable(pixels@, w as int, h as int),
    ensures
        r@ == bitmap(pixels@, w as int, h as int),
{
    let mut out: Vec<u8> = Vec::new();
    let size: u32 = ((w as u64 * 3 + 3) / 4 * 4) as u32;
    proof {
        assert(size == row_size(w as int));
        assert(row_size(w as int) * h >= 0) by (nonlinear_arith)
            requires
                row_size(w as int) >= 0,
                h >= 0,
        ;
    }
    let total: u32 = size * h;
    put_headers(&mut out, w, h, total);
    let ghost head = file_header(54 + row_size(w as int) * h) + image_header(
        w as int,
        h as int,
        row_size(w as int) * h,
    );
    assert(out@ =~= head);
    let mut n: u32 = 0;
    assert(out@ =~= head + rows_bytes(pixels@, w as int, h as int, 0));
    while n < h
        invariant
            n <= h,
            encodable(pixels@, w as int, h as int),
            size == row_size(w as int),
            out@ == head + rows_bytes(pixels@, w as int, h as int, n as int),
        decreases h - n,
    {
        put_row(&mut out, pixels, w, h, h - n - 1, size);
        n = n + 1;
        assert(out@ =~= head + rows_bytes(pixels@, w as int, h as int, n as int));
    }
    out
}

/// The length of rows.
proof fn rows_length(pixels: Seq<u8>, w: int, h: int, n: int)
    requires
        0 <= n,
        0 <= w,
    ensures
        rows_bytes(pixels, w, h, n).len() == n * row_size(w),
    decreases n,
{
    if n > 0 {
        rows_length(pixels, w, h, n - 1);
        assert((n - 1) * row_size(w) + row_size(w) == n * row_size(w)) by (nonlinear_arith);
    } else {
        assert(n * row_size(w) == 0) by (nonlinear_arith)
            requires
                n == 0,
        ;
    }
}

/// Where a row stands among rows.
proof fn row_stands(pixels: Seq<u8>, w: int, h: int, n: int, k: int, j: int)
    requires
        0 <= k < n,
        0 <= w,
        0 <= j < row_size(w),
    ensures
        0 <= k * row_size(w) + j < rows_bytes(pixels, w, h, n).len(),
        rows_bytes(pixels, w, h, n)[k * row_size(w) + j] == row_bytes(pixels, w, h - 1 - k)[j],
    decreases n,
{
    rows_length(pixels, w, h, n - 1);
    rows_length(pixels, w, h, n);
    let size = row_size(w);
    assert(0 <= k * size) by (nonlinear_arith)
        requires
            0 <= k,
            0 <= size,
    ;
    if k == n - 1 {
        assert((n - 1) * size + size == n * size) by (nonlinear_arith);
    } else {
        row_stands(pixels, w, h, n - 1, k, j);
        assert(k * size + j < (n - 1) * size) by (nonlinear_arith)
            requires
                k < n - 1,
                0 <= j < size,
        ;
        assert((n - 1) * size <= n * size) by (nonlinear_arith)
            requires
                0 <= size,
        ;
    }
}

/// The three colours of a pixel can be read back from the file, and the file
/// has the size that its header says.
pub proof fn bitmap_keeps_every_pixel(pixels: Seq<u8>, w: int, h: int, x: int, y: int)
    requires
        encodable(pixels, w, h),
        0 <= x < w,
        0 <= y < h,
    ensures
        bitmap(pixels, w, h).len() == 54 + row_size(w) * h,
        ({
            let at = 54 + (h - 1 - y) * row_size(w) + 3 * x;
            let from = (y * w + x) * 4;
            &&& bitmap(pixels, w, h)[at] == pixels[from + 2]
            &&& bitmap(pixels, w, h)[at + 1] == pixels[from + 1]
            &&& bitmap(pixels, w, h)[at + 2] == pixels[from]
        }),
{
    rows_length(pixels, w, h, h);
    assert(h * row_size(w) == row_size(w) * h) by (nonlinear_arith);
    let k = h - 1 - y;
    assert(3 * x + 2 < row_size(w));
    row_stands(pixels, w, h, h, k, 3 * x);
    row_stands(pixels, w, h, h, k, 3 * x + 1);
    row_stands(pixels, w, h, h, k, 3 * x + 2);
    assert(h - 1 - k == y);
    let full = row_bytes(pixels, w, y);
    assert((3 * x) / 3 == x && (3 * x) % 3 == 0);
    assert((3 * x + 1) / 3 == x && (3 * x + 1) % 3 == 1);
    assert((3 * x + 2) / 3 == x && (3 * x + 2) % 3 == 2);
    let head = file_header(54 + row_size(w) * h) + image_header(w, h, row_size(w) * h);
    assert(head.len() == 54);
    let body = rows_bytes(pixels, w, h, h);
    let at = k * row_size(w) + 3 * x;
    assert(bitmap(pixels, w, h)[54 + at] == body[at]);
    assert(bitmap(pixels, w, h)[54 + (at + 1)] == body[at + 1]);
    assert(bitmap(pixels, w, h)[54 + (at + 2)] == body[at + 2]);
}

/// A number of four bytes is read back from them, the lowest first.
pub proof fn four_bytes_are_read_back(n: int)
    requires
        0 <= n <= u32::MAX,
    ensures
        le4(n).len() == 4,
        le4(n)[0] + 256 * le4(n)[1] + 65536 * le4(n)[2] + 16777216 * le4(n)[3] == n,
{
}

/// A row of a bitmap has three bytes for each pixel and is filled up with noughts
/// to a multiple of four, by three at most.
pub proof fn rows_are_filled_up(pixels: Seq<u8>, w: int, row: int, j: int)
    requires
        0 <= w,
    ensures
        row_size(w) % 4 == 0,
        3 * w <= row_size(w) <= 3 * w + 3,
        3 * w <= j < row_size(w) ==> row_bytes(pixels, w, row)[j] == 0,
{
}

/// The header of a bitmap says what the file is: its mark, its length, where the
/// pixels begin, the width, the height and the three bytes of a pixel.
pub proof fn headers_say_what_the_file_is(pixels: Seq<u8>, w: int, h: int)
    ensures
        ({
            let b = bitmap(pixels, w, h);
            &&& b.len() >= 54
            &&& b[0] == 66 && b[1] == 77
            &&& b.subrange(2, 6) == le4(54 + row_size(w) * h)
            &&& b.subrange(10, 14) == le4(54)
            &&& b.subrange(14, 18) == le4(40)
            &&& b.subrange(18, 22) == le4(w)
            &&& b.subrange(22, 26) == le4(h)
            &&& b[26] == 1 && b[27] == 0
            &&& b[28] == 24 && b[29] == 0
            &&& b.subrange(30, 34) == le4(0)
            &&& b.subrange(34, 38) == le4(row_size(w) * h)
        }),
{
    let b = bitmap(pixels, w, h);
    let n = row_size(w) * h;
    assert(b.subrange(2, 6) =~= le4(54 + n));
    assert(b.subrange(10, 14) =~= le4(54));
    assert(b.subrange(14, 18) =~= le4(40));
    assert(b.subrange(18, 22) =~= le4(w));
    assert(b.subrange(22, 26) =~= le4(h));
    assert(b.subrange(30, 34) =~= le4(0));
    assert(b.subrange(34, 38) =~= le4(n));
}

} // verus!
