use vstd::prelude::*;
use crate::layout::{layout_decode, layout_encode, ColorComponent, PixelLayout, component_mask, widen};

verus! {

/// Why a raster could not be built or re-encoded.
#[derive(Debug, Clone, Copy, PartialEq, Eq)]
pub enum RasterError {
    /// A width or height of zero or above 65535.
    BadDimensions,
    /// The buffer does not hold three bytes per pixel.
    BadLength,
    /// The target layout uses bits beyond the 24-bit pixel.
    TooDeep,
}

/// A decoded image: `width` by `height` pixels, three bytes (red, green,
/// blue) per pixel, row by row.
#[derive(Debug, Clone)]
pub struct RawImage {
    pub width: u16,
    pub height: u16,
    pub data: Vec<u8>,
}

/// An image in a display's pixel layout: 24 bits per pixel, stored
/// most-significant byte first, rows without padding.
#[derive(Debug, Clone)]
pub struct EncodedImage {
    pub width: u16,
    pub height: u16,
    pub data: Vec<u8>,
}

/// The bits per pixel of an encoded image.
pub const ENCODED_DEPTH: u8 = 24;

impl RawImage {
    pub open spec fn wf(&self) -> bool {
        &&& self.width > 0
        &&& self.height > 0
        &&& self.data@.len() == self.width as int * self.height as int * 3
    }

    /// Takes a decoded buffer; rejected unless both sizes are between 1 and
    /// 65535 and the buffer holds exactly three bytes per pixel.
    pub fn new(width: u32, height: u32, data: Vec<u8>) -> (r: Result<RawImage, RasterError>)
        ensures
            !(1 <= width <= 65535 && 1 <= height <= 65535) <==> r matches Err(
                RasterError::BadDimensions,
            ),
            r is Ok <==> (1 <= width <= 65535 && 1 <= height <= 65535 && data@.len() == width
                * height * 3),
            r matches Err(RasterError::BadLength) <==> (1 <= width <= 65535 && 1 <= height
                <= 65535 && data@.len() != width * height * 3),
            r matches Ok(img) ==> img.wf() && img.width == width && img.height == height
                && img.data@ == data@,
    {
        if width == 0 || width > 65535 || height == 0 || height > 65535 {
            return Err(RasterError::BadDimensions);
        }
        assert(width as int * height as int * 3 <= 65535 * 65535 * 3) by (nonlinear_arith)
            requires
                width <= 65535,
                height <= 65535,
        ;
        let n: u64 = (width as u64) * (height as u64) * 3;
        if data.len() as u64 != n {
            return Err(RasterError::BadLength);
        }
        Ok(RawImage { width: width as u16, height: height as u16, data })
    }
}

/// The 24-bit value of the pixel that starts at byte `3 * p`.
pub open spec fn pixel_at(data: Seq<u8>, p: int) -> u32 {
    ((data[3 * p] as u32) << 16u32) | ((data[3 * p + 1] as u32) << 8u32) | (data[3 * p + 2] as u32)
}

/// Byte `k` (0 is the most significant) of the 24-bit value `v`.
pub open spec fn byte_of(v: u32, k: int) -> u8 {
    if k == 0 {
        ((v >> 16u32) & 0xffu32) as u8
    } else if k == 1 {
        ((v >> 8u32) & 0xffu32) as u8
    } else {
        (v & 0xffu32) as u8
    }
}

/// A pixel value of `from`, decoded to intensities and encoded in `to`.
pub open spec fn convert_pixel(from: PixelLayout, to: PixelLayout, pixel: u32) -> u32 {
    to.encode_spec(from.decode_spec(pixel))
}

/// The buffer of 24-bit pixels `data`, each converted from `from` to `to`.
pub open spec fn reencoded(data: Seq<u8>, from: PixelLayout, to: PixelLayout) -> Seq<u8> {
    Seq::new(data.len(), |j: int| byte_of(convert_pixel(from, to, pixel_at(data, j / 3)), j % 3))
}

/// Converts every pixel of the buffer from one layout to the other, keeping
/// the pixels in order.
pub fn reencode_bytes(data: &Vec<u8>, from: PixelLayout, to: PixelLayout) -> (r: Vec<u8>)
    requires
        data@.len() % 3 == 0,
        from.wf(),
        to.wf(),
    ensures
        r@ == reencoded(data@, from, to),
{
    let n = data.len();
    let mut out: Vec<u8> = Vec::with_capacity(n);
    let mut j: usize = 0;
    while j < n
        invariant
            n == data@.len(),
            n % 3 == 0,
            j % 3 == 0,
            j <= n,
            from.wf(),
            to.wf(),
            out@.len() == j,
            forall|q: int| 0 <= q < j ==> out@[q] == reencoded(data@, from, to)[q],
        decreases n - j,
    {
        let pixel: u32 = ((data[j] as u32) << 16u32) | ((data[j + 1] as u32) << 8u32) | (
        data[j + 2] as u32);
        let v = layout_encode(to, layout_decode(from, pixel));
        proof {
            let p = j as int / 3;
            assert(3 * p == j);
            assert((j as int + 1) / 3 == p && (j as int + 1) % 3 == 1);
            assert((j as int + 2) / 3 == p && (j as int + 2) % 3 == 2);
            assert(pixel == pixel_at(data@, p));
        }
        out.push(((v >> 16u32) & 0xffu32) as u8);
        out.push(((v >> 8u32) & 0xffu32) as u8);
        out.push((v & 0xffu32) as u8);
        j = j + 3;
    }
    assert(out@ =~= reencoded(data@, from, to));
    out
}

impl EncodedImage {
    /// Re-encodes `img`, whose pixels are in layout `from`, into layout `to`;
    /// rejected when `to` does not fit 24 bits.
    pub fn reencode(img: &RawImage, from: PixelLayout, to: PixelLayout) -> (r: Result<
        EncodedImage,
        RasterError,
    >)
        requires
            img.wf(),
            from.wf(),
            to.wf(),
        ensures
            r is Ok <==> to.fits(24),
            r matches Ok(e) ==> e.width == img.width && e.height == img.height && e.data@
                == reencoded(img.data@, from, to),
    {
        if to.red.shift + to.red.width > 24 || to.green.shift + to.green.width > 24
            || to.blue.shift + to.blue.width > 24 {
            return Err(RasterError::TooDeep);
        }
        assert(img.data@.len() % 3 == 0) by (nonlinear_arith)
            requires
                img.data@.len() == img.width as int * img.height as int * 3,
        ;
        let data = reencode_bytes(&img.data, from, to);
        Ok(EncodedImage { width: img.width, height: img.height, data })
    }
}

/// An 8-bit intensity widened to 16 bits, as the `0xRRGGBB` layout decodes it.
pub open spec fn widen8(v: u8) -> u16 {
    ((v as u16) << 8u16) | (v as u16)
}

proof fn lemma_widen_wide(y: u32, w: u32)
    requires
        8 <= w <= 16,
    ensures
        widen(y, w) == if w == 16 {
            y
        } else {
            y | (y >> w)
        },
{
    reveal_with_fuel(widen, 2);
}

proof fn lemma_rgb888_decode(r: u8, g: u8, b: u8)
    ensures
        PixelLayout::rgb888().decode_spec(((r as u32) << 16u32) | ((g as u32) << 8u32) | (b as u32))
            == (widen8(r), widen8(g), widen8(b)),
{
    let p = ((r as u32) << 16u32) | ((g as u32) << 8u32) | (b as u32);
    let l = PixelLayout::rgb888();
    lemma_widen_wide(((p & component_mask(8, 16)) >> 16u32) << 8u32, 8);
    lemma_widen_wide(((p & component_mask(8, 8)) >> 8u32) << 8u32, 8);
    lemma_widen_wide(((p & component_mask(8, 0)) >> 0u32) << 8u32, 8);
    assert(((((p & component_mask(8, 16)) >> 16u32) << 8u32) | (((((p & component_mask(8, 16))
        >> 16u32) << 8u32)) >> 8u32)) as u16 == widen8(r)) by (bit_vector)
        requires
            p == ((r as u32) << 16u32) | ((g as u32) << 8u32) | (b as u32),
    ;
    assert(((((p & component_mask(8, 8)) >> 8u32) << 8u32) | (((((p & component_mask(8, 8))
        >> 8u32) << 8u32)) >> 8u32)) as u16 == widen8(g)) by (bit_vector)
        requires
            p == ((r as u32) << 16u32) | ((g as u32) << 8u32) | (b as u32),
    ;
    assert(((((p & component_mask(8, 0)) >> 0u32) << 8u32) | (((((p & component_mask(8, 0))
        >> 0u32) << 8u32)) >> 8u32)) as u16 == widen8(b)) by (bit_vector)
        requires
            p == ((r as u32) << 16u32) | ((g as u32) << 8u32) | (b as u32),
    ;
}

proof fn lemma_encode_within(c: ColorComponent, d: u16)
    requires
        c.wf(),
    ensures
        c.encode_spec(d) & c.mask_spec() == c.encode_spec(d),
{
    let w = c.width as u32;
    let s = c.shift as u32;
    assert((((d as u32) >> ((16 - w) as u32)) << s) & component_mask(w, s) == ((d as u32) >> ((16
        - w) as u32)) << s) by (bit_vector)
        requires
            1 <= w <= 16,
            s + w <= 32,
    ;
}

proof fn lemma_pick(a: u32, b: u32, c: u32, ma: u32, mb: u32, mc: u32)
    requires
        a & ma == a,
        b & mb == b,
        c & mc == c,
        ma & mb == 0,
        ma & mc == 0,
        mb & mc == 0,
    ensures
        (a | b | c) & ma == a,
        (a | b | c) & mb == b,
        (a | b | c) & mc == c,
{
    assert((a | b | c) & ma == a && (a | b | c) & mb == b && (a | b | c) & mc == c)
        by (bit_vector)
        requires
            a & ma == a,
            b & mb == b,
            c & mc == c,
            ma & mb == 0,
            ma & mc == 0,
            mb & mc == 0,
    ;
}

/// A channel of at least 8 bits keeps an 8-bit intensity: encoding its
/// widened form and decoding it again gives back the same top byte.
proof fn lemma_channel_keeps_byte(c: ColorComponent, v: u8, t: u32)
    requires
        c.wf(),
        8 <= c.width,
        t & c.mask_spec() == c.encode_spec(widen8(v)),
    ensures
        (c.decode_spec(t) as u32) >> 8u32 == v as u32,
{
    let w = c.width as u32;
    let s = c.shift as u32;
    let y = ((t & c.mask_spec()) >> s) << ((16 - w) as u32);
    lemma_widen_wide(y, w);
    assert(((if w == 16 {
        y
    } else {
        y | (y >> w)
    }) as u16 as u32) >> 8u32 == v as u32) by (bit_vector)
        requires
            8 <= w <= 16,
            s + w <= 32,
            t & component_mask(w, s) == ((((v as u16) << 8u16) | (v as u16)) as u32 >> ((16
                - w) as u32)) << s,
            y == ((t & component_mask(w, s)) >> s) << ((16 - w) as u32),
    ;
}

proof fn lemma_bytes_of(v: u32)
    requires
        v < 0x100_0000,
    ensures
        ((byte_of(v, 0) as u32) << 16u32) | ((byte_of(v, 1) as u32) << 8u32) | (byte_of(v, 2)
            as u32) == v,
{
    assert(((((v >> 16u32) & 0xffu32) as u8 as u32) << 16u32) | ((((v >> 8u32) & 0xffu32) as u8
        as u32) << 8u32) | ((v & 0xffu32) as u8 as u32) == v) by (bit_vector)
        requires
            v < 0x100_0000,
    ;
}

proof fn lemma_within_24(c: ColorComponent, x: u32)
    requires
        c.wf(),
        c.shift + c.width <= 24,
        x & c.mask_spec() == x,
    ensures
        x < 0x100_0000,
{
    let w = c.width as u32;
    let s = c.shift as u32;
    assert(x < 0x100_0000) by (bit_vector)
        requires
            1 <= w <= 16,
            s + w <= 24,
            x & component_mask(w, s) == x,
    ;
}

proof fn lemma_pixel_round_trip(to: PixelLayout, r: u8, g: u8, b: u8)
    requires
        to.wf(),
        to.fits(24),
        to.red.width >= 8,
        to.green.width >= 8,
        to.blue.width >= 8,
    ensures
        ({
            let p = ((r as u32) << 16u32) | ((g as u32) << 8u32) | (b as u32);
            let t = convert_pixel(PixelLayout::rgb888(), to, p);
            &&& t < 0x100_0000
            &&& convert_pixel(to, PixelLayout::rgb888(), t) == p
        }),
{
    let src = PixelLayout::rgb888();
    let p = ((r as u32) << 16u32) | ((g as u32) << 8u32) | (b as u32);
    lemma_rgb888_decode(r, g, b);
    let er = to.red.encode_spec(widen8(r));
    let eg = to.green.encode_spec(widen8(g));
    let eb = to.blue.encode_spec(widen8(b));
    let t = er | eg | eb;
    assert(t == convert_pixel(src, to, p));
    lemma_encode_within(to.red, widen8(r));
    lemma_encode_within(to.green, widen8(g));
    lemma_encode_within(to.blue, widen8(b));
    lemma_pick(er, eg, eb, to.red.mask_spec(), to.green.mask_spec(), to.blue.mask_spec());
    lemma_within_24(to.red, er);
    lemma_within_24(to.green, eg);
    lemma_within_24(to.blue, eb);
    assert(t < 0x100_0000) by (bit_vector)
        requires
            t == er | eg | eb,
            er < 0x100_0000,
            eg < 0x100_0000,
            eb < 0x100_0000,
    ;
    lemma_channel_keeps_byte(to.red, r, t);
    lemma_channel_keeps_byte(to.green, g, t);
    lemma_channel_keeps_byte(to.blue, b, t);
    let (dr, dg, db) = to.decode_spec(t);
    let (xr, xg, xb) = ((dr as u32) >> 8u32, (dg as u32) >> 8u32, (db as u32) >> 8u32);
    assert(src.encode_spec(to.decode_spec(t)) == (xr << 16u32) | (xg << 8u32) | (xb << 0u32));
    assert((xr << 16u32) | (xg << 8u32) | (xb << 0u32) == p) by (bit_vector)
        requires
            xr == r as u32,
            xg == g as u32,
            xb == b as u32,
            p == ((r as u32) << 16u32) | ((g as u32) << 8u32) | (b as u32),
    ;
}

/// Re-encoding an `0xRRGGBB` buffer into a 24-bit layout whose channels
/// have at least 8 bits each, then re-encoding the result back into
/// `0xRRGGBB`, gives back the same bytes.
pub proof fn lemma_round_trip(data: Seq<u8>, to: PixelLayout)
    requires
        data.len() % 3 == 0,
        to.wf(),
        to.fits(24),
        to.red.width >= 8,
        to.green.width >= 8,
        to.blue.width >= 8,
    ensures
        reencoded(reencoded(data, PixelLayout::rgb888(), to), to, PixelLayout::rgb888()) == data,
{
    let src = PixelLayout::rgb888();
    let there = reencoded(data, src, to);
    let back = reencoded(there, to, src);
    assert forall|j: int| 0 <= j < data.len() implies back[j] == data[j] by {
        let i = j / 3;
        assert(0 <= 3 * i && 3 * i + 2 < data.len());
        lemma_pixel_round_trip(to, data[3 * i], data[3 * i + 1], data[3 * i + 2]);
        let t = convert_pixel(src, to, pixel_at(data, i));
        assert(there[3 * i] == byte_of(t, 0));
        assert(there[3 * i + 1] == byte_of(t, 1));
        assert(there[3 * i + 2] == byte_of(t, 2));
        lemma_bytes_of(t);
        assert(pixel_at(there, i) == t);
        let p = pixel_at(data, i);
        let (r, g, b) = (data[3 * i], data[3 * i + 1], data[3 * i + 2]);
        assert(byte_of(p, 0) == r && byte_of(p, 1) == g && byte_of(p, 2) == b) by (bit_vector)
            requires
                p == ((r as u32) << 16u32) | ((g as u32) << 8u32) | (b as u32),
        ;
    }
    assert(back =~= data);
}

} // verus!
