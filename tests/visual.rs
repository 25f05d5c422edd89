use termimage::layout::{ColorComponent, PixelLayout};
use termimage::visual::{check_visual, DepthGroup, VisualDescriptor, VisualError, DIRECT_COLOR, TRUE_COLOR};

fn visual(id: u32, class: u8, r: u32, g: u32, b: u32) -> VisualDescriptor {
    VisualDescriptor {
        visual_id: id,
        class,
        bits_per_rgb_value: 8,
        colormap_entries: 256,
        red_mask: r,
        green_mask: g,
        blue_mask: b,
    }
}

fn screen(vis: VisualDescriptor, depth: u8) -> Vec<DepthGroup> {
    vec![
        DepthGroup { depth: 1, visuals: vec![] },
        DepthGroup { depth, visuals: vec![visual(7, 3, 0, 0, 0), vis] },
    ]
}

#[test]
fn true_color_visual_gives_its_layout() {
    let l = check_visual(&screen(visual(33, TRUE_COLOR, 0xff0000, 0xff00, 0xff), 24), 33).unwrap();
    assert_eq!(l, PixelLayout {
        red: ColorComponent { width: 8, shift: 16 },
        green: ColorComponent { width: 8, shift: 8 },
        blue: ColorComponent { width: 8, shift: 0 },
    });
    assert_eq!(l.depth(), 24);
}

#[test]
fn direct_color_565() {
    let l = check_visual(&screen(visual(9, DIRECT_COLOR, 0xf800, 0x07e0, 0x1f), 16), 9).unwrap();
    assert_eq!(l.red, ColorComponent { width: 5, shift: 11 });
    assert_eq!(l.green, ColorComponent { width: 6, shift: 5 });
    assert_eq!(l.blue, ColorComponent { width: 5, shift: 0 });
}

#[test]
fn other_classes_are_refused() {
    for class in 0..4u8 {
        assert_eq!(
            check_visual(&screen(visual(33, class, 0xff0000, 0xff00, 0xff), 24), 33),
            Err(VisualError::NotDirectColor)
        );
    }
}

#[test]
fn missing_visual() {
    assert_eq!(
        check_visual(&screen(visual(33, TRUE_COLOR, 0xff0000, 0xff00, 0xff), 24), 34),
        Err(VisualError::NotFound)
    );
    assert_eq!(check_visual(&vec![], 1), Err(VisualError::NotFound));
}

#[test]
fn first_listing_decides() {
    let mut depths = screen(visual(33, TRUE_COLOR, 0xff0000, 0xff00, 0xff), 24);
    depths.push(DepthGroup { depth: 24, visuals: vec![visual(33, 3, 0, 0, 0)] });
    assert!(check_visual(&depths, 33).is_ok());
}

#[test]
fn malformed_masks() {
    assert_eq!(
        check_visual(&screen(visual(33, TRUE_COLOR, 0xf0f000, 0xff00, 0xff), 24), 33),
        Err(VisualError::Malformed)
    );
    assert_eq!(
        check_visual(&screen(visual(33, TRUE_COLOR, 0, 0xff00, 0xff), 24), 33),
        Err(VisualError::Malformed)
    );
    assert_eq!(
        check_visual(&screen(visual(33, TRUE_COLOR, 0xff0000, 0xff00, 0xff0), 24), 33),
        Err(VisualError::Malformed)
    );
    assert_eq!(
        check_visual(&screen(visual(33, TRUE_COLOR, 0x1ffff, 0x20000, 0x40000), 24), 33),
        Err(VisualError::Malformed)
    );
}

#[test]
fn depth_must_match() {
    assert_eq!(
        check_visual(&screen(visual(33, TRUE_COLOR, 0xff0000, 0xff00, 0xff), 32), 33),
        Err(VisualError::DepthMismatch)
    );
}
