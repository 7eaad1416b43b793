use pathtracer::texture::{pixel_bytes, read_pixel};
use pathtracer::{from_u16, to_texture, PixelFormat, Texture};

#[test]
fn from_u16_spans_the_full_range() {
    let mut previous = 0u8;
    for msb in 0..=255u8 {
        for lsb in 0..=255u8 {
            let v = (lsb as u32) | ((msb as u32) << 8);
            let r = from_u16(lsb, msb);
            assert_eq!(r as u32, 255 * v / 65535, "lsb {} msb {}", lsb, msb);
            assert!(r >= previous);
            previous = r;
        }
    }
}

#[test]
fn from_u16_values() {
    assert_eq!(from_u16(0, 0), 0);
    assert_eq!(from_u16(255, 255), 255);
    assert_eq!(from_u16(0x53, 0x81), 128);
    assert_eq!(from_u16(0x01, 0x01), 1);
    assert_eq!(from_u16(0x00, 0x01), 0);
}

#[test]
fn pixel_sizes() {
    assert_eq!(pixel_bytes(PixelFormat::R8), 1);
    assert_eq!(pixel_bytes(PixelFormat::B8G8R8), 3);
    assert_eq!(pixel_bytes(PixelFormat::R16G16B16), 6);
    assert_eq!(pixel_bytes(PixelFormat::R16G16B16A16), 8);
}

#[test]
fn read_pixel_orders_channels() {
    let data = vec![10u8, 20, 30, 40];
    assert_eq!(read_pixel(PixelFormat::R8, &data, 1), (20, 0, 0, 255));
    assert_eq!(read_pixel(PixelFormat::R8G8, &data, 2), (30, 40, 0, 255));
    assert_eq!(read_pixel(PixelFormat::R8G8B8, &data, 0), (10, 20, 30, 255));
    assert_eq!(read_pixel(PixelFormat::R8G8B8A8, &data, 0), (10, 20, 30, 40));
    assert_eq!(read_pixel(PixelFormat::B8G8R8, &data, 0), (30, 20, 10, 255));
    assert_eq!(read_pixel(PixelFormat::B8G8R8A8, &data, 0), (30, 20, 10, 40));
    let wide = vec![255u8, 255, 0, 0, 0x53, 0x81, 255, 255];
    assert_eq!(read_pixel(PixelFormat::R16, &wide, 0), (255, 0, 0, 255));
    assert_eq!(read_pixel(PixelFormat::R16G16, &wide, 0), (255, 0, 0, 255));
    assert_eq!(read_pixel(PixelFormat::R16G16B16, &wide, 2), (0, 128, 255, 255));
    assert_eq!(read_pixel(PixelFormat::R16G16B16A16, &wide, 0), (255, 0, 128, 255));
}

#[test]
fn to_texture_expands_rgb() {
    let pixels = vec![1u8, 2, 3, 4, 5, 6];
    let t = to_texture(PixelFormat::R8G8B8, 2, 1, &pixels);
    assert_eq!(t.width, 2);
    assert_eq!(t.height, 1);
    assert_eq!(t.pixel_size, 4);
    assert_eq!(t.rgba, vec![1, 2, 3, 255, 4, 5, 6, 255]);
}

#[test]
fn to_texture_swaps_bgr_and_pads_missing_pixels() {
    let pixels = vec![1u8, 2, 3, 9];
    let t = to_texture(PixelFormat::B8G8R8A8, 2, 2, &pixels);
    assert_eq!(t.rgba.len(), 16);
    assert_eq!(&t.rgba[0..4], &[3, 2, 1, 9]);
    assert!(t.rgba[4..].iter().all(|b| *b == 0));
}

#[test]
fn to_texture_narrows_sixteen_bit() {
    let pixels = vec![255u8, 255, 0, 0];
    let t = to_texture(PixelFormat::R16, 2, 1, &pixels);
    assert_eq!(t.rgba, vec![255, 0, 0, 255, 0, 0, 0, 255]);
}

#[test]
fn texel_clamps_to_last_row_and_column() {
    let t = Texture {
        width: 2,
        height: 2,
        rgba: (0u8..16).collect(),
        pixel_size: 4,
    };
    assert_eq!(t.texel(0, 0), (0, 1, 2, 3));
    assert_eq!(t.texel(1, 0), (4, 5, 6, 7));
    assert_eq!(t.texel(0, 1), (8, 9, 10, 11));
    assert_eq!(t.texel(7, 9), (12, 13, 14, 15));
}
