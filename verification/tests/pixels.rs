use muri::error::Error;
use muri::pixels::{
    bands, blit_argb8888, bytes_per_pixel, compose_panels, composite_panel, encode_framebuffer, mask_shift,
    pack_rgb, scale_icon, to_argb32, to_bgra, ByteOrder, Rendered, Visual,
};
use muri::style::Rgba;

/// The RGBA→BGRA (Argb8888 LE) channel swap with alpha passed through.
#[test]
fn blit_swaps_r_and_b_and_keeps_alpha() {
    // One pixel: R=10, G=20, B=30, A=40 (premultiplied) -> B,G,R,A.
    let src = [10u8, 20, 30, 40];
    let mut dst = [0u8; 4];
    blit_argb8888(&src, &mut dst).unwrap();
    assert_eq!(dst, [30, 20, 10, 40]);
}

#[test]
fn blit_rejects_size_mismatch() {
    let src = [0u8; 8];
    let mut dst = [0u8; 4];
    assert!(blit_argb8888(&src, &mut dst).is_err());
}

/// A 1×1 RGBA panel composited at an offset lands at the right output pixel with
/// the channels swapped to BGRA.
#[test]
fn composite_places_panel_at_device_origin_in_bgra() {
    // 2×2 transparent output canvas.
    let mut canvas = vec![0u8; 2 * 2 * 4];
    let panel = Rendered {
        ox: 1,
        oy: 1,
        w: 1,
        h: 1,
        rgba: vec![10, 20, 30, 255], // R,G,B,A
    };
    composite_panel(&mut canvas, 2, 2, &panel);
    // Only the bottom-right pixel (index 3) is written, as BGRA.
    assert_eq!(&canvas[0..12], &[0u8; 12]);
    assert_eq!(&canvas[12..16], &[30, 20, 10, 255]);
}

/// A panel partly off the right/bottom edge is clipped, not out-of-bounds.
#[test]
fn composite_clips_panels_that_overflow_the_output() {
    let mut canvas = vec![0u8; 2 * 2 * 4];
    // 2×2 panel whose origin is at (1,1): only its top-left pixel is on-screen.
    let panel = Rendered {
        ox: 1,
        oy: 1,
        w: 2,
        h: 2,
        rgba: vec![
            1, 2, 3, 255, 4, 5, 6, 255, // row 0
            7, 8, 9, 255, 10, 11, 12, 255, // row 1
        ],
    };
    composite_panel(&mut canvas, 2, 2, &panel);
    // Only output pixel (1,1) is written (from the panel's (0,0) pixel).
    assert_eq!(&canvas[12..16], &[3, 2, 1, 255]);
    assert_eq!(&canvas[0..12], &[0u8; 12]);
}

#[test]
fn composite_clips_the_left_and_top_edges() {
    let mut canvas = vec![0u8; 2 * 2 * 4];
    let panel = Rendered {
        ox: -1,
        oy: -1,
        w: 2,
        h: 2,
        rgba: vec![1, 1, 1, 1, 2, 2, 2, 2, 3, 3, 3, 3, 4, 5, 6, 7],
    };
    composite_panel(&mut canvas, 2, 2, &panel);
    assert_eq!(&canvas[0..4], &[6, 5, 4, 7]);
    assert_eq!(&canvas[4..16], &[0u8; 12]);
}

#[test]
fn a_refused_blit_says_both_sizes_and_writes_nothing() {
    let src = [1u8; 8];
    let mut dst = [9u8; 4];
    let err = blit_argb8888(&src, &mut dst).unwrap_err();
    assert_eq!(
        err,
        Error::Platform("wl_shm blit size mismatch: src 8 bytes, dst 4 bytes".to_string())
    );
    assert_eq!(dst, [9; 4]);
}

#[test]
fn blitting_twice_restores_the_bytes() {
    let src = [1u8, 2, 3, 4, 5, 6, 7, 8];
    // What the destinations held before does not matter.
    let mut once = [9u8; 8];
    let mut twice = [200u8; 8];
    blit_argb8888(&src, &mut once).unwrap();
    blit_argb8888(&once, &mut twice).unwrap();
    assert_eq!(twice, src);
}

fn rgb() -> Visual {
    Visual {
        visual_id: 33,
        red_mask: 0xff0000,
        green_mask: 0xff00,
        blue_mask: 0xff,
    }
}

#[test]
fn colors_are_packed_by_the_masks() {
    assert_eq!(mask_shift(0xff0000), 16);
    assert_eq!(mask_shift(0xff), 0);
    assert_eq!(mask_shift(0), 0);
    assert_eq!(pack_rgb(&rgb(), 0x12, 0x34, 0x56), 0x123456);
    let bgr = Visual {
        visual_id: 1,
        red_mask: 0xff,
        green_mask: 0xff00,
        blue_mask: 0xff0000,
    };
    assert_eq!(pack_rgb(&bgr, 0x12, 0x34, 0x56), 0x563412);
}

#[test]
fn a_framebuffer_is_encoded_over_the_background() {
    let bg = Rgba {
        r: 100,
        g: 200,
        b: 50,
        a: 255,
    };
    // An opaque pixel and a transparent one.
    let pixels = [10, 20, 30, 255, 0, 0, 0, 0];
    let lsb = encode_framebuffer(&pixels, 2, 1, &rgb(), ByteOrder::LsbFirst, 32, bg);
    assert_eq!(lsb, vec![30, 20, 10, 0, 50, 200, 100, 0]);
    let msb = encode_framebuffer(&pixels, 2, 1, &rgb(), ByteOrder::MsbFirst, 32, bg);
    assert_eq!(msb, vec![0, 10, 20, 30, 0, 100, 200, 50]);
    // A half transparent pixel: 64 + 100 * 127 / 255 = 113.
    let half = encode_framebuffer(&[64, 0, 0, 128], 1, 1, &rgb(), ByteOrder::LsbFirst, 24, bg);
    assert_eq!(half, vec![24, 99, 113, 0]);
}

#[test]
fn images_are_sent_in_bands_under_the_limit() {
    assert_eq!(bytes_per_pixel(24), 4);
    assert_eq!(bytes_per_pixel(32), 4);
    // Rows of 400 bytes, room for two of them.
    let b = bands(100, 5, 32, 1024 + 900);
    let rows: Vec<(u16, u16, usize, usize)> =
        b.iter().map(|x| (x.y, x.rows, x.start, x.end)).collect();
    assert_eq!(rows, vec![(0, 2, 0, 800), (2, 2, 800, 1600), (4, 1, 1600, 2000)]);
    // A limit below one row still sends row by row.
    assert_eq!(bands(100, 3, 32, 10).len(), 3);
    assert!(bands(0, 3, 32, 4096).is_empty());
    assert!(bands(3, 0, 32, 4096).is_empty());
}

#[test]
fn tray_pixmaps_put_alpha_first() {
    assert_eq!(to_argb32(&[1, 2, 3, 4, 5, 6, 7, 8, 9]), vec![4, 1, 2, 3, 8, 5, 6, 7]);
}

#[test]
fn layered_windows_take_bgra() {
    assert_eq!(to_bgra(&[1, 2, 3, 4, 5, 6, 7, 8], 2), vec![3, 2, 1, 4, 7, 6, 5, 8]);
}

#[test]
fn icons_scale_by_the_nearest_pixel() {
    // 2x1: red and a transparent pixel that keeps a color.
    let rgba = [200, 10, 20, 255, 9, 9, 9, 0];
    let out = scale_icon(&rgba, 2, 1, 2).unwrap();
    let row = [20, 10, 200, 255, 0, 0, 0, 0];
    assert_eq!(&out[0..8], &row);
    assert_eq!(&out[8..16], &row);
    assert!(scale_icon(&rgba, 0, 1, 2).is_none());
    assert!(scale_icon(&rgba, 2, 1, 0).is_none());
}

#[test]
fn the_last_panel_is_on_top() {
    let panel = |ox: i32, w: u32, level: u8| Rendered {
        ox,
        oy: 0,
        w,
        h: 1,
        rgba: (0..w).flat_map(|_| [level, level + 1, level + 2, 255]).collect(),
    };
    // Whatever the buffer held before is gone.
    let mut canvas = vec![9u8; 3 * 4 + 2];
    compose_panels(&mut canvas, 3, 1, &vec![panel(0, 2, 10), panel(1, 1, 50)]);
    assert_eq!(
        canvas,
        [12, 11, 10, 255, 52, 51, 50, 255, 0, 0, 0, 0, 0, 0]
    );
}
