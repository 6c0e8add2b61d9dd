use muri::gdi::{
    after_icon_step, after_paint_step, has_pixels, GdiNext, GdiObject, IconStep, PaintStep,
};
use muri::gdi::GdiObject::{Bitmap, Mask, MemoryDc, ScreenDc, Selection};

/// Runs the steps of painting, the one at `failing` without success. Returns whether the picture was
/// made and what is released, in order.
fn paint(failing: Option<PaintStep>) -> (bool, Vec<GdiObject>) {
    let mut step = PaintStep::ScreenDc;
    let mut released = Vec::new();
    loop {
        match after_paint_step(step, failing != Some(step)) {
            GdiNext::Do { next, release } => {
                released.extend(release);
                step = next;
            }
            GdiNext::Done { made, release } => {
                released.extend(release);
                return (made, released);
            }
        }
    }
}

fn icon(failing: Option<IconStep>) -> (bool, Vec<GdiObject>) {
    let mut step = IconStep::ScreenDc;
    let mut released = Vec::new();
    loop {
        match after_icon_step(step, failing != Some(step)) {
            GdiNext::Do { next, release } => {
                released.extend(release);
                step = next;
            }
            GdiNext::Done { made, release } => {
                released.extend(release);
                return (made, released);
            }
        }
    }
}

#[test]
fn painting_releases_what_it_acquired() {
    let everything = vec![Selection, Bitmap, MemoryDc, ScreenDc];
    assert_eq!(paint(None), (true, everything.clone()));
    assert_eq!(paint(Some(PaintStep::Update)), (false, everything));
    assert_eq!(paint(Some(PaintStep::Bitmap)), (false, vec![MemoryDc, ScreenDc]));
    assert_eq!(paint(Some(PaintStep::MemoryDc)), (false, vec![ScreenDc]));
    assert_eq!(paint(Some(PaintStep::ScreenDc)), (false, vec![]));
}

#[test]
fn making_an_icon_releases_what_it_acquired() {
    let everything = vec![ScreenDc, Bitmap, Mask];
    assert_eq!(icon(None), (true, everything.clone()));
    assert_eq!(icon(Some(IconStep::Icon)), (false, everything));
    assert_eq!(icon(Some(IconStep::Mask)), (false, vec![ScreenDc, Bitmap]));
    assert_eq!(icon(Some(IconStep::Bitmap)), (false, vec![ScreenDc]));
    assert_eq!(icon(Some(IconStep::ScreenDc)), (false, vec![]));
}

#[test]
fn an_empty_picture_is_not_painted() {
    assert!(has_pixels(1, 1));
    assert!(!has_pixels(0, 1) && !has_pixels(1, 0));
}
