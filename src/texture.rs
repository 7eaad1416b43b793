use vstd::prelude::*;

verus! {

/// How a texture is read between texel centres.
#[derive(Debug, Clone, Copy, PartialEq, Eq, Structural)]
pub enum Filtering {
    Nearest,
    Linear,
}

/// How texture coordinates outside `[0, 1)` are folded back.
#[derive(Debug, Clone, Copy, PartialEq, Eq, Structural)]
pub enum WrapMode {
    Clamp,
    Repeat,
    MirroredRepeat,
}

/// Filtering and wrapping that a material applies to one of its textures.
#[derive(Debug, Clone, Copy, PartialEq, Eq, Structural)]
pub struct Sampler {
    pub filtering: Filtering,
    pub wrap_s: WrapMode,
    pub wrap_t: WrapMode,
}

/// Layout of the source pixels a texture is converted from.
#[derive(Debug, Clone, Copy, PartialEq, Eq, Structural)]
pub enum PixelFormat {
    R8,
    R8G8,
    R8G8B8,
    R8G8B8A8,
    B8G8R8,
    B8G8R8A8,
    R16,
    R16G16,
    R16G16B16,
    R16G16B16A16,
}

/// Bytes that one source pixel occupies.
pub open spec fn bytes_per_pixel(f: PixelFormat) -> nat {
    match f {
        PixelFormat::R8 => 1,
        PixelFormat::R8G8 => 2,
        PixelFormat::R8G8B8 => 3,
        PixelFormat::R8G8B8A8 => 4,
        PixelFormat::B8G8R8 => 3,
        PixelFormat::B8G8R8A8 => 4,
        PixelFormat::R16 => 2,
        PixelFormat::R16G16 => 4,
        PixelFormat::R16G16B16 => 6,
        PixelFormat::R16G16B16A16 => 8,
    }
}

/// Value of a little-endian 16-bit channel stored in two bytes.
pub open spec fn u16_value(lsb: u8, msb: u8) -> int {
    lsb as int + 256 * msb as int
}

/// The 8-bit channel a 16-bit channel becomes: `255 * v / 65535`, rounded
/// down, so that 0 stays 0 and full scale `0xFFFF` becomes 255.
pub open spec fn narrow_u16(lsb: u8, msb: u8) -> u8 {
    ((255 * u16_value(lsb, msb)) / 65535) as u8
}

/// The 16-bit channel whose low byte stands at `d[i]`, narrowed to 8 bits.
pub open spec fn wide_channel(d: Seq<u8>, i: int) -> u8 {
    narrow_u16(d[i], d[i + 1])
}

/// The RGBA value of the source pixel whose first byte stands at `d[i]`.
/// Missing colour channels are 0 and a missing alpha channel is 255.
pub open spec fn source_rgba(f: PixelFormat, d: Seq<u8>, i: int) -> (u8, u8, u8, u8) {
    match f {
        PixelFormat::R8 => (d[i], 0, 0, 255),
        PixelFormat::R8G8 => (d[i], d[i + 1], 0, 255),
        PixelFormat::R8G8B8 => (d[i], d[i + 1], d[i + 2], 255),
        PixelFormat::R8G8B8A8 => (d[i], d[i + 1], d[i + 2], d[i + 3]),
        PixelFormat::B8G8R8 => (d[i + 2], d[i + 1], d[i], 255),
        PixelFormat::B8G8R8A8 => (d[i + 2], d[i + 1], d[i], d[i + 3]),
        PixelFormat::R16 => (wide_channel(d, i), 0, 0, 255),
        PixelFormat::R16G16 => (wide_channel(d, i), wide_channel(d, i + 2), 0, 255),
        PixelFormat::R16G16B16 => (
            wide_channel(d, i),
            wide_channel(d, i + 2),
            wide_channel(d, i + 4),
            255,
        ),
        PixelFormat::R16G16B16A16 => (
            wide_channel(d, i),
            wide_channel(d, i + 2),
            wide_channel(d, i + 4),
            wide_channel(d, i + 6),
        ),
    }
}

/// The four bytes that start at `s[k]`.
pub open spec fn quad_at(s: Seq<u8>, k: int) -> (u8, u8, u8, u8) {
    (s[k], s[k + 1], s[k + 2], s[k + 3])
}

/// Converts one 16-bit channel given by its two bytes into an 8-bit channel.
pub fn from_u16(lsb: u8, msb: u8) -> (r: u8)
    ensures
        r == narrow_u16(lsb, msb),
{
    let v: u32 = lsb as u32 | ((msb as u32) << 8u32);
    assert(v == lsb as u32 + 256 * msb as u32) by (bit_vector)
        requires
            v == lsb as u32 | ((msb as u32) << 8u32),
    ;
    let scaled: u32 = 255 * v / 65535;
    assert(scaled <= 255) by (nonlinear_arith)
        requires
            v <= 65535,
            scaled == 255 * v / 65535,
    ;
    scaled as u8
}

/// Narrowing maps the 16-bit range onto the whole 8-bit range and keeps
/// the order of values: 0 gives 0, `0xFFFF` gives 255, and a larger 16-bit
/// value never gives a smaller 8-bit one.
pub proof fn lemma_narrow_u16_full_range(l1: u8, m1: u8, l2: u8, m2: u8)
    requires
        u16_value(l1, m1) <= u16_value(l2, m2),
    ensures
        narrow_u16(0, 0) == 0,
        narrow_u16(255, 255) == 255,
        narrow_u16(l1, m1) <= narrow_u16(l2, m2),
{
    let a = 255 * u16_value(l1, m1);
    let b = 255 * u16_value(l2, m2);
    assert(a <= b) by (nonlinear_arith)
        requires
            u16_value(l1, m1) <= u16_value(l2, m2),
            a == 255 * u16_value(l1, m1),
            b == 255 * u16_value(l2, m2),
    ;
    vstd::arithmetic::div_mod::lemma_div_is_ordered(a, b, 65535);
    assert(b / 65535 <= 255) by (nonlinear_arith)
        requires
            b == 255 * u16_value(l2, m2),
            u16_value(l2, m2) <= 65535,
    ;
    assert(a / 65535 >= 0) by (nonlinear_arith)
        requires
            a >= 0,
    ;
}

/// Bytes that one source pixel of format `f` occupies.
pub fn pixel_bytes(f: PixelFormat) -> (r: usize)
    ensures
        r as nat == bytes_per_pixel(f),
{
    match f {
        PixelFormat::R8 => 1,
        PixelFormat::R8G8 => 2,
        PixelFormat::R8G8B8 => 3,
        PixelFormat::R8G8B8A8 => 4,
        PixelFormat::B8G8R8 => 3,
        PixelFormat::B8G8R8A8 => 4,
        PixelFormat::R16 => 2,
        PixelFormat::R16G16 => 4,
        PixelFormat::R16G16B16 => 6,
        PixelFormat::R16G16B16A16 => 8,
    }
}

/// Reads the source pixel whose first byte stands at `data[i]` as RGBA.
pub fn read_pixel(f: PixelFormat, data: &Vec<u8>, i: usize) -> (r: (u8, u8, u8, u8))
    requires
        i + bytes_per_pixel(f) <= data.len(),
    ensures
        r == source_rgba(f, data@, i as int),
{
    match f {
        PixelFormat::R8 => (data[i], 0, 0, 255),
        PixelFormat::R8G8 => (data[i], data[i + 1], 0, 255),
        PixelFormat::R8G8B8 => (data[i], data[i + 1], data[i + 2], 255),
        PixelFormat::R8G8B8A8 => (data[i], data[i + 1], data[i + 2], data[i + 3]),
        PixelFormat::B8G8R8 => (data[i + 2], data[i + 1], data[i], 255),
        PixelFormat::B8G8R8A8 => (data[i + 2], data[i + 1], data[i], data[i + 3]),
        PixelFormat::R16 => (from_u16(data[i], data[i + 1]), 0, 0, 255),
        PixelFormat::R16G16 => (
            from_u16(data[i], data[i + 1]),
            from_u16(data[i + 2], data[i + 3]),
            0,
            255,
        ),
        PixelFormat::R16G16B16 => (
            from_u16(data[i], data[i + 1]),
            from_u16(data[i + 2], data[i + 3]),
            from_u16(data[i + 4], data[i + 5]),
            255,
        ),
        PixelFormat::R16G16B16A16 => (
            from_u16(data[i], data[i + 1]),
            from_u16(data[i + 2], data[i + 3]),
            from_u16(data[i + 4], data[i + 5]),
            from_u16(data[i + 6], data[i + 7]),
        ),
    }
}

/// An 8-bit RGBA image. `pixel_size` is the stride, in bytes, between texels.
pub struct Texture {
    pub width: u32,
    pub height: u32,
    pub rgba: Vec<u8>,
    pub pixel_size: u8,
}

impl Texture {
    /// At least one texel, four bytes of storage per texel, a stride of one to
    /// four bytes, and byte offsets that fit in 32 bits.
    pub open spec fn wf(&self) -> bool {
        &&& self.width >= 1
        &&& self.height >= 1
        &&& 4 * self.width * self.height <= u32::MAX
        &&& self.rgba@.len() == 4 * self.width * self.height
        &&& 1 <= self.pixel_size <= 4
    }

    /// The texel at column `x`, row `y`.
    pub open spec fn texel_at(&self, x: int, y: int) -> (u8, u8, u8, u8) {
        quad_at(self.rgba@, (y * self.width + x) * self.pixel_size)
    }

    /// The texel nearest to `(x, y)`: coordinates past the last column or row
    /// read the last one.
    pub fn texel(&self, x: u32, y: u32) -> (r: (u8, u8, u8, u8))
        requires
            self.wf(),
        ensures
            r == self.texel_at(
                if x < self.width { x as int } else { self.width - 1 },
                if y < self.height { y as int } else { self.height - 1 },
            ),
    {
        let tx = if x < self.width { x } else { self.width - 1 };
        let ty = if y < self.height { y } else { self.height - 1 };
        let w = self.width;
        let h = self.height;
        let ps = self.pixel_size as u32;
        assert(ty * w + tx < w * h) by (nonlinear_arith)
            requires
                tx < w,
                ty < h,
        ;
        assert((ty * w + tx) * ps + 3 < 4 * w * h) by (nonlinear_arith)
            requires
                ty * w + tx < w * h,
                1 <= ps <= 4,
        ;
        assert(w * h <= 4 * w * h) by (nonlinear_arith);
        assert(ty * w <= ty * w + tx);
        assert((ty * w + tx) * ps <= 4 * w * h) by (nonlinear_arith)
            requires
                ty * w + tx < w * h,
                1 <= ps <= 4,
        ;
        let index: usize = ((ty * w + tx) * ps) as usize;
        (self.rgba[index], self.rgba[index + 1], self.rgba[index + 2], self.rgba[index + 3])
    }
}

/// Builds an RGBA texture of `width * height` texels from source pixels laid
/// out in `format`. Source pixel `p` becomes texel `p`; texels past the end of
/// the source stay `(0, 0, 0, 0)`.
pub fn to_texture(format: PixelFormat, width: u32, height: u32, pixels: &Vec<u8>) -> (r: Texture)
    requires
        width >= 1,
        height >= 1,
        4 * width * height <= u32::MAX,
        pixels@.len() > 0,
        pixels@.len() % bytes_per_pixel(format) == 0,
        pixels@.len() <= width * height * bytes_per_pixel(format),
    ensures
        r.wf(),
        r.width == width,
        r.height == height,
        r.pixel_size == 4,
        forall|p: int|
            0 <= p < (pixels@.len() / bytes_per_pixel(format)) as int ==> #[trigger] quad_at(
                r.rgba@,
                4 * p,
            ) == source_rgba(format, pixels@, p * bytes_per_pixel(format)),
        forall|k: int|
            4 * ((pixels@.len() / bytes_per_pixel(format)) as int) <= k < r.rgba@.len()
                ==> #[trigger] r.rgba@[k] == 0,
{
    let bpp = pixel_bytes(format);
    let ghost n: int = (pixels@.len() / bytes_per_pixel(format)) as int;
    let ghost total: int = width * height;
    proof {
        assert(n * bpp == pixels@.len()) by (nonlinear_arith)
            requires
                n == pixels@.len() as int / bpp as int,
                pixels@.len() as int % bpp as int == 0,
                bpp >= 1,
        ;
        assert(n <= total) by (nonlinear_arith)
            requires
                n * bpp <= total * bpp,
                bpp >= 1,
        ;
    }
    let pixel_size: u8 = 4;
    assert(width * height * 4 == 4 * width * height) by (nonlinear_arith);
    assert(width * height <= 4 * width * height) by (nonlinear_arith);
    let size: usize = (width * height * 4) as usize;
    let mut rgba: Vec<u8> = vec![0; size];
    let mut position: usize = 0;
    let mut output: usize = 0;
    let ghost mut p: int = 0;
    while position < pixels.len()
        invariant
            0 <= p <= n,
            position == p * bpp,
            output == 4 * p,
            n * bpp == pixels@.len(),
            n <= total,
            bpp == bytes_per_pixel(format),
            size == 4 * total,
            rgba@.len() == size,
            forall|q: int| 0 <= q < p ==> #[trigger] quad_at(rgba@, 4 * q) == source_rgba(
                format,
                pixels@,
                q * bpp,
            ),
            forall|k: int| 4 * p <= k < size ==> #[trigger] rgba@[k] == 0,
        decreases n - p,
    {
        proof {
            assert(p < n) by (nonlinear_arith)
                requires
                    p * bpp < n * bpp,
                    bpp >= 1,
            ;
            assert((p + 1) * bpp <= n * bpp) by (nonlinear_arith)
                requires
                    p + 1 <= n,
                    bpp >= 1,
            ;
            assert((p + 1) * bpp == p * bpp + bpp) by (nonlinear_arith);
        }
        let ghost prev = rgba@;
        let pixel = read_pixel(format, pixels, position);
        position = position + bpp;
        rgba[output] = pixel.0;
        rgba[output + 1] = pixel.1;
        rgba[output + 2] = pixel.2;
        rgba[output + 3] = pixel.3;
        output = output + 4;
        proof {
            assert forall|q: int| 0 <= q < p + 1 implies #[trigger] quad_at(rgba@, 4 * q)
                == source_rgba(format, pixels@, q * bpp) by {
                if q < p {
                    assert(quad_at(rgba@, 4 * q) == quad_at(prev, 4 * q));
                }
            }
            assert forall|k: int| 4 * (p + 1) <= k < size implies #[trigger] rgba@[k] == 0 by {
                assert(rgba@[k] == prev[k]);
            }
            p = p + 1;
        }
    }
    proof {
        assert(p >= n) by (nonlinear_arith)
            requires
                p * bpp >= n * bpp,
                bpp >= 1,
        ;
    }
    Texture { width, height, rgba, pixel_size }
}

} // verus!
