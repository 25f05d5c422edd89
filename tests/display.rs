use termimage::display::{release_after_failure, ImageDisplay, Request, ResourceIds, ScreenRoot};
use termimage::layout::PixelLayout;
use termimage::raster::RawImage;

fn display() -> ImageDisplay {
    let raw = RawImage::new(2, 1, vec![255, 0, 0, 0, 255, 0]).unwrap();
    ImageDisplay::new(&raw, PixelLayout::rgb(), 99).unwrap()
}

const SCREEN: ScreenRoot = ScreenRoot { root: 1, root_depth: 24 };

#[test]
fn new_display_is_hidden() {
    let d = display();
    assert!(!d.is_shown());
    assert_eq!(d.image.data, vec![255, 0, 0, 0, 255, 0]);
    assert_eq!(d.parent_window, 99);
}

#[test]
fn show_issues_requests_in_order() {
    let mut d = display();
    let plan = d.show_at(ResourceIds { gc: 10, pixmap: 11, window: 12 }, SCREEN, 5, -3);
    assert_eq!(
        plan,
        vec![
            Request::CreateGc { gc: 10, drawable: 1 },
            Request::CreatePixmap { pixmap: 11, depth: 24, drawable: 1, width: 2, height: 1 },
            Request::PutImage { pixmap: 11, gc: 10 },
            Request::CreateWindow { window: 12, depth: 24, parent: 1, width: 2, height: 1, background: 11 },
            Request::ReparentWindow { window: 12, parent: 99, x: 5, y: -3 },
            Request::FreePixmap { pixmap: 11 },
            Request::FreeGc { gc: 10 },
            Request::MapWindow { window: 12 },
            Request::Flush,
        ]
    );
    assert!(!d.is_shown());
    d.record(&plan, plan.len());
    assert!(d.is_shown());
    assert_eq!(d.window, Some(12));
}

#[test]
fn showing_twice_hides_the_first_window() {
    let mut d = display();
    let first = d.show_at(ResourceIds { gc: 10, pixmap: 11, window: 12 }, SCREEN, 0, 0);
    d.record(&first, first.len());
    let plan = d.show_at(ResourceIds { gc: 20, pixmap: 21, window: 22 }, SCREEN, 1, 1);
    d.record(&plan, plan.len());
    assert_eq!(plan[0], Request::UnmapWindow { window: 12 });
    assert_eq!(plan.len(), 10);
    let maps: Vec<&Request> = plan.iter().filter(|r| matches!(r, Request::MapWindow { .. })).collect();
    assert_eq!(maps, vec![&Request::MapWindow { window: 22 }]);
    assert_eq!(d.window, Some(22));
}

#[test]
fn remove_unmaps() {
    let mut d = display();
    let plan = d.show_at(ResourceIds { gc: 10, pixmap: 11, window: 12 }, SCREEN, 0, 0);
    d.record(&plan, plan.len());
    let hide = d.remove();
    assert_eq!(hide, vec![Request::UnmapWindow { window: 12 }]);
    assert!(d.is_shown());
    d.record(&hide, 1);
    assert!(!d.is_shown());
}

#[test]
fn failed_unmap_keeps_window() {
    let mut d = display();
    let plan = d.show_at(ResourceIds { gc: 10, pixmap: 11, window: 12 }, SCREEN, 0, 0);
    d.record(&plan, plan.len());
    let hide = d.remove();
    d.record(&hide, 0);
    assert_eq!(d.window, Some(12));
}

#[test]
fn failed_show_never_records_new_window() {
    let mut d = display();
    let plan = d.show_at(ResourceIds { gc: 10, pixmap: 11, window: 12 }, SCREEN, 0, 0);
    d.record(&plan, plan.len());
    let second = d.show_at(ResourceIds { gc: 20, pixmap: 21, window: 22 }, SCREEN, 1, 1);
    let mut again = display();
    again.record(&plan, plan.len());
    again.record(&second, 0);
    assert_eq!(again.window, Some(12));
    d.record(&second, 5);
    assert_eq!(d.window, None);
    let mut fresh = display();
    fresh.record(&plan, plan.len() - 1);
    assert_eq!(fresh.window, None);
}

#[test]
fn failure_releases_what_was_created() {
    let d = display();
    let plan = d.show_at(ResourceIds { gc: 10, pixmap: 11, window: 12 }, SCREEN, 0, 0);
    assert_eq!(release_after_failure(&plan, 0), vec![]);
    assert_eq!(release_after_failure(&plan, 1), vec![Request::FreeGc { gc: 10 }]);
    assert_eq!(
        release_after_failure(&plan, 3),
        vec![Request::FreeGc { gc: 10 }, Request::FreePixmap { pixmap: 11 }]
    );
    assert_eq!(release_after_failure(&plan, 6), vec![Request::FreeGc { gc: 10 }]);
    assert_eq!(release_after_failure(&plan, 7), vec![]);
}
