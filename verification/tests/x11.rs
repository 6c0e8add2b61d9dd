use muri::error::Error;
use muri::menu::{Menu, MenuId, Row};
use muri::pixels::Visual;
use muri::session::{Effect, PointerHit};
use muri::x11::{
    after_step, default_visual, keymap_request, surface_format, BuildNext, BuildStep, Cleanup,
    DepthVisuals, Keymap, PixmapFormat, X11Event, X11Session,
};

fn visual(id: u32, red: u32) -> Visual {
    Visual {
        visual_id: id,
        red_mask: red,
        green_mask: 0xff00,
        blue_mask: 0xff,
    }
}

fn depths() -> Vec<DepthVisuals> {
    vec![
        DepthVisuals {
            depth: 24,
            visuals: vec![visual(1, 0xff0000), visual(2, 0)],
        },
        DepthVisuals {
            depth: 16,
            visuals: vec![visual(3, 0xf800), visual(1, 7)],
        },
    ]
}

#[test]
fn the_root_visual_is_the_first_with_its_id() {
    assert_eq!(default_visual(&depths(), 1), Some((visual(1, 0xff0000), 24)));
    assert_eq!(default_visual(&depths(), 2), None);
    assert_eq!(default_visual(&depths(), 9), None);
}

#[test]
fn only_eight_bits_for_each_channel_will_do() {
    let formats = vec![
        PixmapFormat { depth: 1, bits_per_pixel: 1 },
        PixmapFormat { depth: 24, bits_per_pixel: 24 },
    ];
    let f = surface_format(&depths(), 1, &formats).unwrap();
    assert_eq!((f.depth, f.bits_per_pixel), (24, 24));
    assert_eq!(surface_format(&depths(), 1, &vec![]).unwrap().bits_per_pixel, 32);
    assert_eq!(
        surface_format(&depths(), 9, &formats).unwrap_err(),
        Error::Platform("no usable TrueColor X11 visual".to_string())
    );
    assert_eq!(
        surface_format(&depths(), 3, &formats).unwrap_err(),
        Error::Platform(
            "unsupported X11 visual depth 16 (the styled popup needs a 24- or 32-bit TrueColor visual)"
                .to_string()
        )
    );
}

#[test]
fn a_bad_keycode_range_is_an_error() {
    assert_eq!(keymap_request(8, 255), Ok(248));
    assert_eq!(
        keymap_request(10, 9),
        Err(Error::Platform(
            "X11 server reported an invalid keycode range (min=10, max=9)".to_string()
        ))
    );
    assert!(keymap_request(1, 0).is_err());
    assert!(keymap_request(255, 0).is_err());
    assert!(keymap_request(0, 255).is_err());
    assert_eq!(keymap_request(9, 9), Ok(1));
    assert_eq!(keymap_request(1, 255), Ok(255));
}

#[test]
fn a_window_is_built_step_by_step() {
    let mut step = BuildStep::WindowId;
    let mut n = 1;
    loop {
        match after_step(step, Ok(())) {
            BuildNext::Do(next) => {
                step = next;
                n += 1;
            }
            BuildNext::Ready => break,
            BuildNext::Fail { .. } => panic!("nothing failed"),
        }
    }
    assert_eq!(n, 6);
}

#[test]
fn a_failed_build_gives_back_what_it_holds() {
    let fail = |step| match after_step(step, Err("boom".to_string())) {
        BuildNext::Fail { error, cleanup } => (error, cleanup),
        other => panic!("{other:?}"),
    };
    let platform = |m: &str| Error::Platform(m.to_string());
    assert_eq!(fail(BuildStep::WindowId), (platform("X11 id alloc failed: boom"), vec![]));
    assert_eq!(fail(BuildStep::Window), (platform("X11 create_window failed: boom"), vec![]));
    let window = vec![Cleanup::DestroyWindow];
    assert_eq!(fail(BuildStep::WindowType).1, window);
    assert_eq!(fail(BuildStep::GcId), (platform("X11 id alloc failed: boom"), window.clone()));
    assert_eq!(fail(BuildStep::Gc), (platform("X11 create_gc failed: boom"), window));
    assert_eq!(
        fail(BuildStep::Show),
        (
            platform("X11 map_window failed: boom"),
            vec![Cleanup::FreeGc, Cleanup::DestroyWindow]
        )
    );
}

fn session() -> X11Session {
    let menu = Menu::new()
        .row(Row::new("a").label("A"))
        .submenu(Row::new("").label("B"), Menu::new().row(Row::new("c").label("C")));
    let keymap = Keymap {
        keysyms: vec![0xff1b, 0xff54],
        min_keycode: 8,
        keysyms_per_keycode: 1,
    };
    let mut s = X11Session::new(menu, keymap);
    assert!(s.started().is_err());
    s.session.popup_opened(vec![0, 1]);
    assert_eq!(s.started(), Ok(()));
    s
}

fn hit(level: usize, row: Option<usize>, id: Option<&str>) -> Option<PointerHit> {
    Some(PointerHit {
        level,
        row,
        id: id.map(MenuId::new),
    })
}

#[test]
fn the_left_and_right_button_click() {
    let mut s = session();
    let press = |button, h| X11Event::ButtonPress { button, hit: h };
    assert!(s.handle_event(press(2, hit(0, Some(0), Some("a")))).is_empty());
    assert!(!s.done);
    let e = s.handle_event(press(1, hit(0, Some(0), Some("a"))));
    assert_eq!(e, vec![Effect::Dispatch(MenuId::new("a"))]);
    assert!(s.done);
    let mut s = session();
    assert_eq!(s.handle_event(press(3, hit(0, Some(1), None))), vec![Effect::Open(1)]);
    assert!(!s.done);
}

#[test]
fn dismissals_do_not_dispatch() {
    for event in [
        X11Event::ButtonPress { button: 1, hit: None },
        X11Event::KeyPress(8),
        X11Event::FocusOut,
    ] {
        let mut s = session();
        assert!(s.handle_event(event).is_empty());
        assert!(s.done);
        assert_eq!(s.close_all(), vec![Effect::Close(0)]);
        assert_eq!(s.keymap.keysyms, vec![0xff1b, 0xff54]);
    }
}

#[test]
fn other_events_keep_the_popup() {
    let mut s = session();
    assert_eq!(s.handle_event(X11Event::Expose), vec![Effect::RedrawAll]);
    assert!(s.handle_event(X11Event::Other).is_empty());
    assert!(s.handle_event(X11Event::KeyPress(77)).is_empty());
    assert_eq!(s.handle_event(X11Event::KeyPress(9)), vec![Effect::RedrawAll]);
    assert_eq!(
        s.handle_event(X11Event::Motion(hit(0, Some(1), None))),
        vec![Effect::Open(1), Effect::Redraw(0)]
    );
    assert!(!s.done);
}
