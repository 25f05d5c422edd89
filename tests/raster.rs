use termimage::layout::{ColorComponent, LayoutError, PixelLayout};
use termimage::raster::{EncodedImage, RasterError, RawImage};

fn comp(width: u8, shift: u8) -> ColorComponent {
    ColorComponent::new(width, shift).unwrap()
}

fn rgb() -> PixelLayout {
    PixelLayout::new(comp(8, 16), comp(8, 8), comp(8, 0)).unwrap()
}

fn bgr() -> PixelLayout {
    PixelLayout::new(comp(8, 0), comp(8, 8), comp(8, 16)).unwrap()
}

#[test]
fn identity_reencode_keeps_bytes() {
    let raw = RawImage::new(2, 1, vec![255, 0, 0, 0, 255, 0]).unwrap();
    let enc = EncodedImage::reencode(&raw, rgb(), rgb()).unwrap();
    assert_eq!(enc.width, 2);
    assert_eq!(enc.height, 1);
    assert_eq!(enc.data, vec![255, 0, 0, 0, 255, 0]);
}

#[test]
fn swapped_channels_reencode() {
    let raw = RawImage::new(2, 1, vec![0x12, 0x34, 0x56, 255, 0, 7]).unwrap();
    let enc = EncodedImage::reencode(&raw, rgb(), bgr()).unwrap();
    assert_eq!(enc.data, vec![0x56, 0x34, 0x12, 7, 0, 255]);
}

#[test]
fn round_trip_through_other_layout() {
    let data: Vec<u8> = (0..60u32).map(|i| (i * 37 % 256) as u8).collect();
    let raw = RawImage::new(5, 4, data.clone()).unwrap();
    let wide = PixelLayout::new(comp(8, 0), comp(8, 16), comp(8, 8)).unwrap();
    let there = EncodedImage::reencode(&raw, rgb(), wide).unwrap();
    let back_raw = RawImage::new(5, 4, there.data).unwrap();
    let back = EncodedImage::reencode(&back_raw, wide, rgb()).unwrap();
    assert_eq!(back.data, data);
}

#[test]
fn round_trip_with_wider_channel() {
    let data = vec![0xab, 0x01, 0xfe, 0x00, 0x80, 0xff];
    let raw = RawImage::new(1, 2, data.clone()).unwrap();
    let wide = PixelLayout::new(comp(10, 14), comp(7, 7), comp(7, 0)).unwrap();
    let there = EncodedImage::reencode(&raw, rgb(), wide).unwrap();
    // red 0xab widened to 0xabab, top 10 bits 0x2ae, at bit 14
    let first = ((there.data[0] as u32) << 16) | ((there.data[1] as u32) << 8) | there.data[2] as u32;
    assert_eq!(first >> 14, 0x2ae);
    let back = EncodedImage::reencode(&RawImage::new(1, 2, there.data).unwrap(), wide, rgb()).unwrap();
    assert_eq!(back.data[0], 0xab);
    assert_eq!(back.data[3], 0x00);
}

#[test]
fn five_bit_channels_keep_top_bits() {
    let raw = RawImage::new(1, 1, vec![0xff, 0x80, 0x08]).unwrap();
    let l565 = PixelLayout::new(comp(5, 11), comp(6, 5), comp(5, 0)).unwrap();
    let enc = EncodedImage::reencode(&raw, rgb(), l565).unwrap();
    assert_eq!(enc.data, vec![0x00, 0xfc, 0x01]);
}

#[test]
fn too_deep_layout_is_refused() {
    let raw = RawImage::new(1, 1, vec![1, 2, 3]).unwrap();
    let deep = PixelLayout::new(comp(8, 24), comp(8, 8), comp(8, 0)).unwrap();
    assert_eq!(EncodedImage::reencode(&raw, rgb(), deep).unwrap_err(), RasterError::TooDeep);
}

#[test]
fn raw_image_checks_sizes() {
    assert_eq!(RawImage::new(0, 1, vec![]).unwrap_err(), RasterError::BadDimensions);
    assert_eq!(RawImage::new(65536, 1, vec![]).unwrap_err(), RasterError::BadDimensions);
    assert_eq!(RawImage::new(2, 2, vec![0; 11]).unwrap_err(), RasterError::BadLength);
    assert_eq!(RawImage::new(2, 2, vec![0; 13]).unwrap_err(), RasterError::BadLength);
    assert!(RawImage::new(2, 2, vec![0; 12]).is_ok());
}

#[test]
fn components_are_validated() {
    assert_eq!(ColorComponent::new(0, 0).unwrap_err(), LayoutError::InvalidComponent);
    assert_eq!(ColorComponent::new(17, 0).unwrap_err(), LayoutError::InvalidComponent);
    assert_eq!(ColorComponent::new(16, 17).unwrap_err(), LayoutError::InvalidComponent);
    assert_eq!(ColorComponent::new(16, 16).unwrap(), ColorComponent { width: 16, shift: 16 });
    assert_eq!(comp(8, 16).mask(), 0xff0000);
    assert_eq!(comp(5, 11).mask(), 0xf800);
}

#[test]
fn layouts_are_validated() {
    assert_eq!(
        PixelLayout::new(comp(8, 16), comp(8, 12), comp(8, 0)).unwrap_err(),
        LayoutError::Overlap
    );
    assert_eq!(
        PixelLayout::new(ColorComponent { width: 0, shift: 3 }, comp(8, 8), comp(8, 0)).unwrap_err(),
        LayoutError::InvalidComponent
    );
    assert_eq!(rgb().depth(), 24);
    assert_eq!(PixelLayout::rgb(), rgb());
}
