//! The X11 popup: choosing a visual, building its windows, and reacting to the server's events.
use vstd::prelude::*;

use crate::error::{Error, Result};
use crate::keymap::{keycode_range_count, translate_key};
use crate::menu::Menu;
use crate::pixels::Visual;
use crate::session::{Effect, PointerHit, Reaction, Session};
use crate::text::to_decimal;

verus! {

/// The visuals a screen offers at one color depth.
#[derive(Debug)]
pub struct DepthVisuals {
    pub depth: u8,
    pub visuals: Vec<Visual>,
}

/// How many bits a pixel of some depth takes in an image.
#[derive(Debug, Clone, Copy)]
pub struct PixmapFormat {
    pub depth: u8,
    pub bits_per_pixel: u8,
}

/// The visual, depth and pixel size that the windows of a popup use.
#[derive(Debug)]
pub struct SurfaceFormat {
    pub visual: Visual,
    pub depth: u8,
    pub bits_per_pixel: u8,
}

/// Every channel of the visual has bits.
pub open spec fn usable(visual: Visual) -> bool {
    visual.red_mask != 0 && visual.green_mask != 0 && visual.blue_mask != 0
}

/// The place of the first visual with an id, as the depth and the place in it.
pub open spec fn first_visual(depths: Seq<DepthVisuals>, id: u32, d: int, v: int) -> bool {
    &&& 0 <= d < depths.len()
    &&& 0 <= v < depths[d].visuals@.len()
    &&& depths[d].visuals@[v].visual_id == id
    &&& forall|j: int|
        0 <= j < v ==> (#[trigger] depths[d].visuals@[j]).visual_id != id
    &&& forall|k: int| 0 <= k < d ==> lacks_visual(#[trigger] depths[k], id)
}

/// No visual of this depth has the id.
pub open spec fn lacks_visual(depth: DepthVisuals, id: u32) -> bool {
    forall|j: int| 0 <= j < depth.visuals@.len() ==> (#[trigger] depth.visuals@[j]).visual_id != id
}

/// The root visual of a screen with its depth; `None` where the screen does not list it or it is
/// no direct RGB visual.
pub fn default_visual(depths: &Vec<DepthVisuals>, root_visual: u32) -> (r: Option<(Visual, u8)>)
    ensures
        r matches Some((visual, depth)) ==> usable(visual) && exists|d: int, v: int|
            #![trigger first_visual(depths@, root_visual, d, v)]
            first_visual(depths@, root_visual, d, v) && visual == depths@[d].visuals@[v] && depth
                == depths@[d].depth,
        r is None <==> forall|d: int, v: int|
            #![trigger first_visual(depths@, root_visual, d, v)]
            first_visual(depths@, root_visual, d, v) ==> !usable(depths@[d].visuals@[v]),
{
    let mut d: usize = 0;
    while d < depths.len()
        invariant
            d <= depths@.len(),
            forall|k: int| 0 <= k < d ==> lacks_visual(#[trigger] depths@[k], root_visual),
        decreases depths@.len() - d,
    {
        let at: &DepthVisuals = &depths[d];
        let mut v: usize = 0;
        while v < at.visuals.len()
            invariant
                d < depths@.len(),
                *at == depths@[d as int],
                v <= at.visuals@.len(),
                forall|k: int| 0 <= k < d ==> lacks_visual(#[trigger] depths@[k], root_visual),
                forall|j: int|
                    0 <= j < v ==> (#[trigger] at.visuals@[j]).visual_id != root_visual,
            decreases at.visuals@.len() - v,
        {
            if at.visuals[v].visual_id == root_visual {
                let visual: Visual = at.visuals[v];
                proof {
                    assert(first_visual(depths@, root_visual, d as int, v as int));
                    assert forall|d2: int, v2: int|
                        #![trigger first_visual(depths@, root_visual, d2, v2)]
                        first_visual(depths@, root_visual, d2, v2) implies d2 == d && v2 == v by {
                        if d2 < d {
                            assert(lacks_visual(depths@[d2], root_visual));
                        } else if d < d2 {
                            assert(lacks_visual(depths@[d as int], root_visual));
                        } else if v2 < v {
                            assert(at.visuals@[v2].visual_id != root_visual);
                        } else if v < v2 {
                            assert(depths@[d2].visuals@[v as int].visual_id != root_visual);
                        }
                    }
                }
                if visual.red_mask == 0 || visual.green_mask == 0 || visual.blue_mask == 0 {
                    return None;
                }
                return Some((visual, at.depth));
            }
            v = v + 1;
        }
        assert(lacks_visual(depths@[d as int], root_visual));
        d = d + 1;
    }
    proof {
        assert forall|d2: int, v2: int|
            #![trigger first_visual(depths@, root_visual, d2, v2)]
            first_visual(depths@, root_visual, d2, v2) implies false by {
            assert(lacks_visual(depths@[d2], root_visual));
        }
    }
    None
}

/// The pixel size that the first format of this depth gives; 32 bits where none is listed.
pub open spec fn pixel_bits(formats: Seq<PixmapFormat>, depth: u8) -> u8
    decreases formats.len(),
{
    if formats.len() == 0 {
        32
    } else if formats[0].depth == depth {
        formats[0].bits_per_pixel
    } else {
        pixel_bits(formats.skip(1), depth)
    }
}

fn find_pixel_bits(formats: &Vec<PixmapFormat>, depth: u8) -> (r: u8)
    ensures
        r == pixel_bits(formats@, depth),
{
    let mut k: usize = 0;
    assert(formats@.skip(0) =~= formats@);
    while k < formats.len()
        invariant
            k <= formats@.len(),
            pixel_bits(formats@, depth) == pixel_bits(formats@.skip(k as int), depth),
        decreases formats@.len() - k,
    {
        if formats[k].depth == depth {
            return formats[k].bits_per_pixel;
        }
        assert(formats@.skip(k as int).skip(1) =~= formats@.skip(k + 1));
        k = k + 1;
    }
    32
}

/// Picks the format of the popup's windows. Only depths of 24 and 32 bits hold eight bits for each
/// channel; another depth would garble the picture and is refused.
pub fn surface_format(
    depths: &Vec<DepthVisuals>,
    root_visual: u32,
    formats: &Vec<PixmapFormat>,
) -> (r: Result<SurfaceFormat>)
    ensures
        match r {
            Ok(format) => {
                &&& usable(format.visual)
                &&& format.depth == 24 || format.depth == 32
                &&& format.bits_per_pixel == pixel_bits(formats@, format.depth)
                &&& exists|d: int, v: int|
                    #![trigger first_visual(depths@, root_visual, d, v)]
                    first_visual(depths@, root_visual, d, v) && format.visual
                        == depths@[d].visuals@[v] && format.depth == depths@[d].depth
            },
            Err(e) => {
                ||| crate::error::platform_failure(e, "no usable TrueColor X11 visual"@) && forall|
                    d: int,
                    v: int,
                |
                    #![trigger first_visual(depths@, root_visual, d, v)]
                    first_visual(depths@, root_visual, d, v) ==> !usable(depths@[d].visuals@[v])
                ||| exists|d: int, v: int|
                    #![trigger first_visual(depths@, root_visual, d, v)]
                    {
                        &&& first_visual(depths@, root_visual, d, v)
                        &&& usable(depths@[d].visuals@[v])
                        &&& depths@[d].depth != 24
                        &&& depths@[d].depth != 32
                        &&& crate::error::platform_failure(
                            e,
                            "unsupported X11 visual depth "@ + crate::text::decimal(
                                depths@[d].depth as nat,
                            )
                                + " (the styled popup needs a 24- or 32-bit TrueColor visual)"@,
                        )
                    }
            },
        },
{
    match default_visual(depths, root_visual) {
        None => Err(Error::Platform("no usable TrueColor X11 visual".to_owned())),
        Some((visual, depth)) => {
            if depth != 24 && depth != 32 {
                let mut message: String = "unsupported X11 visual depth ".to_owned();
                message.append(to_decimal(depth as usize).as_str());
                message.append(" (the styled popup needs a 24- or 32-bit TrueColor visual)");
                return Err(Error::Platform(message));
            }
            let bits_per_pixel: u8 = find_pixel_bits(formats, depth);
            Ok(SurfaceFormat { visual, depth, bits_per_pixel })
        },
    }
}

/// How many key codes to ask the server for; an error for a range that is inverted or too wide.
pub fn keymap_request(min: u8, max: u8) -> (r: Result<u8>)
    ensures
        match r {
            Ok(n) => min <= max && n == max - min + 1,
            Err(e) => (max < min || max - min + 1 > u8::MAX) && crate::error::platform_failure(
                e,
                "X11 server reported an invalid keycode range (min="@ + crate::text::decimal(
                    min as nat,
                ) + ", max="@ + crate::text::decimal(max as nat) + ")"@,
            ),
        },
{
    match keycode_range_count(min, max) {
        Some(n) => Ok(n),
        None => {
            let mut message: String =
                "X11 server reported an invalid keycode range (min=".to_owned();
            message.append(to_decimal(min as usize).as_str());
            message.append(", max=");
            message.append(to_decimal(max as usize).as_str());
            message.append(")");
            Err(Error::Platform(message))
        },
    }
}

/// The requests that build the window of a panel, in order.
#[derive(Debug, Clone, Copy, PartialEq, Eq, Structural)]
pub enum BuildStep {
    /// Reserve an id for the window.
    WindowId,
    /// Create the window.
    Window,
    /// Mark it as a popup menu.
    WindowType,
    /// Reserve an id for its graphics context.
    GcId,
    /// Create the graphics context.
    Gc,
    /// Show the window.
    Show,
}

/// Something to give back after a failed build.
#[derive(Debug, Clone, Copy, PartialEq, Eq, Structural)]
pub enum Cleanup {
    FreeGc,
    DestroyWindow,
}

/// What follows a request.
#[derive(Debug)]
pub enum BuildNext {
    /// Make this request.
    Do(BuildStep),
    /// The window stands.
    Ready,
    /// Give these back, in order, and report the error.
    Fail { error: Error, cleanup: Vec<Cleanup> },
}

/// The order of the requests.
pub open spec fn rank(step: BuildStep) -> int {
    match step {
        BuildStep::WindowId => 0,
        BuildStep::Window => 1,
        BuildStep::WindowType => 2,
        BuildStep::GcId => 3,
        BuildStep::Gc => 4,
        BuildStep::Show => 5,
    }
}

/// What the server holds for the panel when a request begins: the window once it was created, then
/// the graphics context too. The context goes first when they are given back.
pub open spec fn held(step: BuildStep) -> Seq<Cleanup> {
    if rank(step) > rank(BuildStep::Gc) {
        seq![Cleanup::FreeGc, Cleanup::DestroyWindow]
    } else if rank(step) > rank(BuildStep::Window) {
        seq![Cleanup::DestroyWindow]
    } else {
        Seq::empty()
    }
}

/// The words that introduce the failure of a request.
pub open spec fn complaint(step: BuildStep) -> Seq<char> {
    match step {
        BuildStep::WindowId | BuildStep::GcId => "X11 id alloc failed: "@,
        BuildStep::Window => "X11 create_window failed: "@,
        BuildStep::WindowType => "X11 set window type failed: "@,
        BuildStep::Gc => "X11 create_gc failed: "@,
        BuildStep::Show => "X11 map_window failed: "@,
    }
}

/// Goes on after a request for the window of a panel, which was made or failed with the server's
/// words. A failure gives back what the server holds by then, so that nothing leaks.
pub fn after_step(step: BuildStep, outcome: std::result::Result<(), String>) -> (r: BuildNext)
    ensures
        match outcome {
            Ok(_) => if rank(step) == 5 {
                r is Ready
            } else {
                r matches BuildNext::Do(next) && rank(next) == rank(step) + 1
            },
            Err(words) => {
                &&& r matches BuildNext::Fail { error, cleanup }
                &&& crate::error::platform_failure(error, complaint(step) + words@)
                &&& cleanup@ == held(step)
            },
        },
{
    match outcome {
        Ok(_) => match step {
            BuildStep::WindowId => BuildNext::Do(BuildStep::Window),
            BuildStep::Window => BuildNext::Do(BuildStep::WindowType),
            BuildStep::WindowType => BuildNext::Do(BuildStep::GcId),
            BuildStep::GcId => BuildNext::Do(BuildStep::Gc),
            BuildStep::Gc => BuildNext::Do(BuildStep::Show),
            BuildStep::Show => BuildNext::Ready,
        },
        Err(words) => {
            let mut message: String = match step {
                BuildStep::WindowId | BuildStep::GcId => "X11 id alloc failed: ".to_owned(),
                BuildStep::Window => "X11 create_window failed: ".to_owned(),
                BuildStep::WindowType => "X11 set window type failed: ".to_owned(),
                BuildStep::Gc => "X11 create_gc failed: ".to_owned(),
                BuildStep::Show => "X11 map_window failed: ".to_owned(),
            };
            message.append(words.as_str());
            let mut cleanup: Vec<Cleanup> = Vec::new();
            match step {
                BuildStep::Show => {
                    cleanup.push(Cleanup::FreeGc);
                    cleanup.push(Cleanup::DestroyWindow);
                },
                BuildStep::WindowType | BuildStep::GcId | BuildStep::Gc => {
                    cleanup.push(Cleanup::DestroyWindow);
                },
                BuildStep::WindowId | BuildStep::Window => {},
            }
            assert(cleanup@ =~= held(step));
            BuildNext::Fail { error: Error::Platform(message), cleanup }
        },
    }
}

/// An event of the server.
#[derive(Debug)]
pub enum X11Event {
    /// Some window has to be repainted.
    Expose,
    /// The pointer moved.
    Motion(Option<PointerHit>),
    /// A pointer button went down.
    ButtonPress { button: u8, hit: Option<PointerHit> },
    /// A key went down.
    KeyPress(u8),
    /// The focus left the popup.
    FocusOut,
    Other,
}

/// The keyboard map of the server.
#[derive(Debug)]
pub struct Keymap {
    pub keysyms: Vec<u32>,
    pub min_keycode: u8,
    pub keysyms_per_keycode: u8,
}

/// A popup on an X server.
#[derive(Debug)]
pub struct X11Session {
    pub session: Session,
    pub keymap: Keymap,
    /// The menu is dismissed; the event loop ends.
    pub done: bool,
}

/// The navigation key of a key code, by this keyboard map.
pub open spec fn mapped(keymap: Keymap, keycode: u8) -> Option<crate::keynav::NavKey> {
    match crate::keymap::primary_keysym(
        keymap.keysyms@,
        keymap.min_keycode,
        keymap.keysyms_per_keycode,
        keycode,
    ) {
        Some(keysym) => crate::keymap::keysym_key(keysym),
        None => None,
    }
}

/// The outcome of an event: the stack, the effects, and whether the menu is dismissed. The first
/// and third pointer button click; a click outside every panel and a lost focus dismiss without
/// dispatching.
pub open spec fn handled(
    s: crate::session::Stack,
    keymap: Keymap,
    event: X11Event,
) -> (crate::session::Stack, Seq<Effect>, bool) {
    match event {
        X11Event::Expose => (s, seq![Effect::RedrawAll], false),
        X11Event::Motion(hit) => {
            let (t, effects) = crate::session::moved_over(
                s,
                match hit {
                    Some(h) => Some((h.level, h.row)),
                    None => None,
                },
            );
            (t, effects, false)
        },
        X11Event::ButtonPress { button, hit } => if button == 1 || button == 3 {
            match hit {
                Some(h) => crate::session::clicked(s, h.level as int, h.row, h.id),
                None => (s, Seq::empty(), true),
            }
        } else {
            (s, Seq::empty(), false)
        },
        X11Event::KeyPress(keycode) => match mapped(keymap, keycode) {
            Some(key) => crate::session::keyed(s, key),
            None => (s, Seq::empty(), false),
        },
        X11Event::FocusOut => (s, Seq::empty(), true),
        X11Event::Other => (s, Seq::empty(), false),
    }
}

/// Only a click on a row or an activating key dispatches, and whatever dispatches also dismisses.
pub proof fn law_dispatching_dismisses(s: crate::session::Stack, keymap: Keymap, event: X11Event)
    ensures
        ({
            let (_, effects, dismissed) = handled(s, keymap, event);
            forall|k: int|
                0 <= k < effects.len() && (#[trigger] effects[k]) is Dispatch ==> dismissed && (
                event is ButtonPress || event is KeyPress)
        }),
{
    let (_, effects, dismissed) = handled(s, keymap, event);
    assert forall|k: int|
        0 <= k < effects.len() && (#[trigger] effects[k]) is Dispatch implies dismissed && (
    event is ButtonPress || event is KeyPress) by {}
}

impl X11Session {
    /// A session with nothing open yet.
    pub fn new(menu: Menu, keymap: Keymap) -> (r: Self)
        ensures
            r.session@ == (crate::session::Stack { menu, popup: None, flyouts: Seq::empty() }),
            r.session@.wf(),
            r.keymap == keymap,
            !r.done,
    {
        X11Session { session: Session::new(menu), keymap, done: false }
    }

    /// Whether the popup opened, so that its event loop can begin.
    pub fn started(&self) -> (r: Result<()>)
        ensures
            r is Ok <==> self.session@.popup is Some,
            r matches Err(e) ==> crate::error::platform_failure(
                e,
                "failed to open the X11 popup window"@,
            ),
    {
        if self.session.popup.is_some() {
            Ok(())
        } else {
            Err(Error::Platform("failed to open the X11 popup window".to_owned()))
        }
    }

    /// Reacts to an event of the server.
    pub fn handle_event(&mut self, event: X11Event) -> (effects: Vec<Effect>)
        ensures
            ({
                let (s, e, dismissed) = handled(old(self).session@, old(self).keymap, event);
                &&& final(self).session@ == s
                &&& effects@ == e
                &&& final(self).done == (old(self).done || dismissed)
                &&& final(self).keymap == old(self).keymap
            }),
            old(self).session@.wf() ==> final(self).session@.wf(),
    {
        match event {
            X11Event::Expose => {
                let mut effects: Vec<Effect> = Vec::new();
                effects.push(Effect::RedrawAll);
                assert(effects@ =~= seq![Effect::RedrawAll]);
                effects
            },
            X11Event::Motion(hit) => {
                let at: Option<(usize, Option<usize>)> = match hit {
                    Some(h) => Some((h.level, h.row)),
                    None => None,
                };
                self.session.on_motion(at)
            },
            X11Event::ButtonPress { button, hit } => {
                if button == 1 || button == 3 {
                    match hit {
                        Some(h) => {
                            let r: Reaction = self.session.on_click(h.level, h.row, h.id);
                            self.react(r)
                        },
                        None => {
                            self.done = true;
                            Vec::new()
                        },
                    }
                } else {
                    Vec::new()
                }
            },
            X11Event::KeyPress(keycode) => {
                match translate_key(
                    self.keymap.keysyms.as_slice(),
                    self.keymap.min_keycode,
                    self.keymap.keysyms_per_keycode,
                    keycode,
                ) {
                    Some(key) => {
                        let r: Reaction = self.session.on_key(key);
                        self.react(r)
                    },
                    None => Vec::new(),
                }
            },
            X11Event::FocusOut => {
                self.done = true;
                Vec::new()
            },
            X11Event::Other => Vec::new(),
        }
    }

    fn react(&mut self, r: Reaction) -> (effects: Vec<Effect>)
        ensures
            effects@ == r.effects@,
            *final(self) == (X11Session { done: old(self).done || r.dismissed, ..*old(self) }),
    {
        if r.dismissed {
            self.done = true;
        }
        r.effects
    }

    /// Closes every window when the event loop has ended.
    pub fn close_all(&mut self) -> (effects: Vec<Effect>)
        ensures
            final(self).session@ == crate::session::closed(old(self).session@),
            effects@ == crate::session::close_effects(old(self).session@),
            final(self).done == old(self).done,
            final(self).keymap == old(self).keymap,
    {
        self.session.close_popup()
    }
}

/// What the events of the server do: the first and the third button click where they hit and
/// dismiss the menu where they hit no panel, other buttons do nothing; a lost focus dismisses; a
/// move is that of the pointer and never dismisses; an exposed window has everything painted again;
/// a key is that of the keyboard map, and one that is no key does nothing.
pub proof fn law_what_events_do(
    s: crate::session::Stack,
    keymap: Keymap,
    button: u8,
    hit: Option<PointerHit>,
    keycode: u8,
)
    ensures
        ({
            let press = handled(s, keymap, X11Event::ButtonPress { button, hit });
            let move_to = match hit {
                Some(h) => crate::session::moved_over(s, Some((h.level, h.row))),
                None => crate::session::moved_over(s, None),
            };
            let nothing = (s, Seq::<Effect>::empty(), false);
            let gone = (s, Seq::<Effect>::empty(), true);
            &&& button != 1 && button != 3 ==> press == nothing
            &&& (button == 1 || button == 3) && hit is None ==> press == gone
            &&& (button == 1 || button == 3) && hit is Some ==> press == crate::session::clicked(
                s,
                hit->0.level as int,
                hit->0.row,
                hit->0.id,
            )
            &&& handled(s, keymap, X11Event::Motion(hit)) == (move_to.0, move_to.1, false)
            &&& handled(s, keymap, X11Event::FocusOut) == gone
            &&& handled(s, keymap, X11Event::Other) == nothing
            &&& handled(s, keymap, X11Event::Expose) == (s, seq![Effect::RedrawAll], false)
            &&& keycode < keymap.min_keycode ==> handled(s, keymap, X11Event::KeyPress(keycode))
                == nothing
            &&& keymap.keysyms@.len() > 0 ==> handled(
                s,
                keymap,
                X11Event::KeyPress(keymap.min_keycode),
            ) == match crate::keymap::keysym_key(keymap.keysyms@[0]) {
                Some(key) => crate::session::keyed(s, key),
                None => nothing,
            }
        }),
{
    assert(0 * keymap.keysyms_per_keycode == 0);
}

/// A key code reads the keysym of its own group in the keyboard map of the server.
pub proof fn law_a_key_code_reads_its_group(keymap: Keymap, keycode: u8, at: int)
    requires
        keymap.min_keycode <= keycode,
        at == (keycode - keymap.min_keycode) * keymap.keysyms_per_keycode,
    ensures
        mapped(keymap, keycode) == if at < keymap.keysyms@.len() {
            crate::keymap::keysym_key(keymap.keysyms@[at])
        } else {
            None
        },
{
}

/// A visual is found where it is listed first: before every other of its id, and there is such a
/// place exactly where the screen lists the id at all.
pub proof fn law_the_first_visual_is_the_first(
    depths: Seq<DepthVisuals>,
    id: u32,
    d: int,
    v: int,
    d2: int,
    v2: int,
)
    requires
        first_visual(depths, id, d, v),
        0 <= d2 < depths.len(),
        0 <= v2 < depths[d2].visuals@.len(),
        depths[d2].visuals@[v2].visual_id == id,
    ensures
        depths[d].visuals@[v].visual_id == id,
        d < d2 || (d == d2 && v <= v2),
{
    if d2 < d {
        assert(lacks_visual(depths[d2], id));
    } else if d2 == d && v2 < v {
        assert(depths[d].visuals@[v2].visual_id != id);
    }
}

/// A visual is usable exactly where every color has bits of its own.
pub proof fn law_a_usable_visual_shows_every_color(visual: Visual)
    ensures
        usable(visual) <==> visual.red_mask > 0 && visual.green_mask > 0 && visual.blue_mask > 0,
{
}

/// The pixel size of a depth is that of its first format, and 32 bits where there is none.
pub proof fn law_the_first_format_of_a_depth_counts(
    formats: Seq<PixmapFormat>,
    depth: u8,
    k: int,
)
    requires
        0 <= k <= formats.len(),
        forall|j: int| 0 <= j < k ==> (#[trigger] formats[j]).depth != depth,
        k < formats.len() ==> formats[k].depth == depth,
    ensures
        pixel_bits(formats, depth) == if k < formats.len() {
            formats[k].bits_per_pixel
        } else {
            32
        },
    decreases formats.len(),
{
    if formats.len() > 0 && k > 0 {
        assert(formats[0].depth != depth);
        assert forall|j: int| 0 <= j < k - 1 implies (#[trigger] formats.skip(1)[j]).depth
            != depth by {
            assert(formats.skip(1)[j] == formats[j + 1]);
        }
        law_the_first_format_of_a_depth_counts(formats.skip(1), depth, k - 1);
    }
}

/// Building a window leaks nothing: a request that fails gives back exactly what the requests before
/// it were granted, the graphics context before the window. The requests follow one another from
/// the id of the window to its showing.
pub proof fn law_a_failed_build_gives_everything_back(step: BuildStep, next: BuildStep)
    ensures
        held(step).contains(Cleanup::DestroyWindow) <==> step is WindowType || step is GcId || step
            is Gc || step is Show,
        held(step).contains(Cleanup::FreeGc) <==> step is Show,
        held(step).no_duplicates(),
        step is Show ==> held(step) == seq![Cleanup::FreeGc, Cleanup::DestroyWindow],
        rank(next) == rank(step) + 1 ==> match step {
            BuildStep::WindowId => next is Window,
            BuildStep::Window => next is WindowType,
            BuildStep::WindowType => next is GcId,
            BuildStep::GcId => next is Gc,
            BuildStep::Gc => next is Show,
            BuildStep::Show => false,
        },
        rank(step) == 5 <==> step is Show,
{
    if step is Show {
        assert(held(step)[0] == Cleanup::FreeGc);
        assert(held(step)[1] == Cleanup::DestroyWindow);
    } else if step is WindowType || step is GcId || step is Gc {
        assert(held(step)[0] == Cleanup::DestroyWindow);
    }
}

} // verus!
