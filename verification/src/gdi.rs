//! The drawing objects behind a layered window or a tray icon, and their release.
//!
//! Each picture takes a few objects, one after the other. Where one cannot be had, those that are
//! held are given back, the latest first.
use vstd::prelude::*;

verus! {

/// A drawing object.
#[derive(Debug, Clone, Copy, PartialEq, Eq, Structural)]
pub enum GdiObject {
    ScreenDc,
    MemoryDc,
    /// The bitmap that holds the pixels.
    Bitmap,
    /// The one-bit mask of an icon.
    Mask,
    /// The bitmap is selected into the memory context.
    Selection,
}

/// The steps of painting a layered window.
#[derive(Debug, Clone, Copy, PartialEq, Eq, Structural)]
pub enum PaintStep {
    ScreenDc,
    MemoryDc,
    Bitmap,
    /// Copy the pixels, select the bitmap, and hand it to the window.
    Update,
}

/// The steps of making a tray icon.
#[derive(Debug, Clone, Copy, PartialEq, Eq, Structural)]
pub enum IconStep {
    ScreenDc,
    /// The color bitmap, after which the screen context is no longer needed.
    Bitmap,
    /// Copy the pixels and make the mask.
    Mask,
    /// The icon itself, which keeps copies of both bitmaps.
    Icon,
}

/// What follows a step.
#[derive(Debug)]
pub enum GdiNext<S> {
    /// Give these back, in order, and go on with the next step.
    Do { next: S, release: Vec<GdiObject> },
    /// Give these back, in order. The picture was made where `made` says so.
    Done { made: bool, release: Vec<GdiObject> },
}

/// What is held when a step of painting begins, the latest first.
pub open spec fn paint_holds(step: PaintStep) -> Seq<GdiObject> {
    match step {
        PaintStep::ScreenDc => Seq::empty(),
        PaintStep::MemoryDc => seq![GdiObject::ScreenDc],
        PaintStep::Bitmap => seq![GdiObject::MemoryDc, GdiObject::ScreenDc],
        PaintStep::Update => seq![GdiObject::Bitmap, GdiObject::MemoryDc, GdiObject::ScreenDc],
    }
}

/// What a step of painting adds, where it succeeds or, for the selection, either way.
pub open spec fn paint_adds(step: PaintStep, ok: bool) -> Seq<GdiObject> {
    match step {
        PaintStep::Update => seq![GdiObject::Selection],
        _ => if !ok {
            Seq::empty()
        } else if step is ScreenDc {
            seq![GdiObject::ScreenDc]
        } else if step is MemoryDc {
            seq![GdiObject::MemoryDc]
        } else {
            seq![GdiObject::Bitmap]
        },
    }
}

/// What follows a step of painting. A failure releases everything held; the last step releases
/// everything either way, since the window keeps its own copy of the pixels.
pub open spec fn paint_follows(step: PaintStep, ok: bool, r: GdiNext<PaintStep>) -> bool {
    match r {
        GdiNext::Do { next, release } => {
            &&& ok
            &&& release@ == Seq::<GdiObject>::empty()
            &&& match step {
                PaintStep::ScreenDc => next is MemoryDc,
                PaintStep::MemoryDc => next is Bitmap,
                PaintStep::Bitmap => next is Update,
                PaintStep::Update => false,
            }
        },
        GdiNext::Done { made, release } => {
            &&& !ok || step is Update
            &&& made == (ok && step is Update)
            &&& release@ == paint_adds(step, ok) + paint_holds(step)
        },
    }
}

/// What is held when a step of making an icon begins, in the order of its release.
pub open spec fn icon_holds(step: IconStep) -> Seq<GdiObject> {
    match step {
        IconStep::ScreenDc => Seq::empty(),
        IconStep::Bitmap => seq![GdiObject::ScreenDc],
        IconStep::Mask => seq![GdiObject::Bitmap],
        IconStep::Icon => seq![GdiObject::Bitmap, GdiObject::Mask],
    }
}

/// What a step of making an icon adds, where it succeeds. The icon itself is the caller's.
pub open spec fn icon_adds(step: IconStep, ok: bool) -> Seq<GdiObject> {
    if !ok || step is Icon {
        Seq::empty()
    } else if step is ScreenDc {
        seq![GdiObject::ScreenDc]
    } else if step is Bitmap {
        seq![GdiObject::Bitmap]
    } else {
        seq![GdiObject::Mask]
    }
}

/// What follows a step of making an icon. A failure releases everything held; the screen context
/// goes once the color bitmap exists, and both bitmaps go once the icon was tried.
pub open spec fn icon_follows(step: IconStep, ok: bool, r: GdiNext<IconStep>) -> bool {
    match r {
        GdiNext::Do { next, release } => {
            &&& ok
            &&& match step {
                IconStep::ScreenDc => next is Bitmap && release@ == Seq::<GdiObject>::empty(),
                IconStep::Bitmap => next is Mask && release@ == seq![GdiObject::ScreenDc],
                IconStep::Mask => next is Icon && release@ == Seq::<GdiObject>::empty(),
                IconStep::Icon => false,
            }
        },
        GdiNext::Done { made, release } => {
            &&& !ok || step is Icon
            &&& made == (ok && step is Icon)
            &&& release@ == icon_holds(step)
        },
    }
}

/// Nothing leaks while a window is painted and nothing is released twice: what is released by a
/// step and what is held after it are together what was held before it and what it added.
pub proof fn law_painting_keeps_the_books(step: PaintStep, ok: bool, r: GdiNext<PaintStep>)
    requires
        paint_follows(step, ok, r),
    ensures
        paint_holds(step).to_multiset().add(paint_adds(step, ok).to_multiset()) == match r {
            GdiNext::Do { next, release } => release@.to_multiset().add(
                paint_holds(next).to_multiset(),
            ),
            GdiNext::Done { made: _, release } => release@.to_multiset(),
        },
{
    broadcast use vstd::seq_lib::group_to_multiset_ensures;

    let before = paint_holds(step);
    let added = paint_adds(step, ok);
    vstd::seq_lib::lemma_multiset_commutative(added, before);
    match r {
        GdiNext::Do { next, release } => {
            assert(paint_holds(next) =~= added + before);
            vstd::seq_lib::lemma_multiset_commutative(release@, paint_holds(next));
            assert(release@ + paint_holds(next) =~= paint_holds(next));
        },
        GdiNext::Done { .. } => {},
    }
}

/// Nothing leaks while an icon is made and nothing is released twice, in the same sense.
pub proof fn law_making_an_icon_keeps_the_books(step: IconStep, ok: bool, r: GdiNext<IconStep>)
    requires
        icon_follows(step, ok, r),
    ensures
        icon_holds(step).to_multiset().add(icon_adds(step, ok).to_multiset()) == match r {
            GdiNext::Do { next, release } => release@.to_multiset().add(
                icon_holds(next).to_multiset(),
            ),
            GdiNext::Done { made: _, release } => release@.to_multiset(),
        },
{
    broadcast use vstd::seq_lib::group_to_multiset_ensures;

    let before = icon_holds(step);
    let added = icon_adds(step, ok);
    vstd::seq_lib::lemma_multiset_commutative(before, added);
    match r {
        GdiNext::Do { next, release } => {
            vstd::seq_lib::lemma_multiset_commutative(release@, icon_holds(next));
            assert(release@ + icon_holds(next) =~= before + added);
        },
        GdiNext::Done { made: _, release } => {
            assert(before + added =~= release@);
        },
    }
}

fn list1(a: GdiObject) -> (r: Vec<GdiObject>)
    ensures
        r@ == seq![a],
{
    let mut r: Vec<GdiObject> = Vec::new();
    r.push(a);
    assert(r@ =~= seq![a]);
    r
}

fn list2(a: GdiObject, b: GdiObject) -> (r: Vec<GdiObject>)
    ensures
        r@ == seq![a, b],
{
    let mut r: Vec<GdiObject> = Vec::new();
    r.push(a);
    r.push(b);
    assert(r@ =~= seq![a, b]);
    r
}

/// Whether there is anything to paint.
pub fn has_pixels(width: i32, height: i32) -> (r: bool)
    ensures
        r == (width != 0 && height != 0),
{
    width != 0 && height != 0
}

/// Goes on after a step of painting.
pub fn after_paint_step(step: PaintStep, ok: bool) -> (r: GdiNext<PaintStep>)
    ensures
        paint_follows(step, ok, r),
{
    match step {
        PaintStep::ScreenDc => {
            if ok {
                GdiNext::Do { next: PaintStep::MemoryDc, release: Vec::new() }
            } else {
                GdiNext::Done { made: false, release: Vec::new() }
            }
        },
        PaintStep::MemoryDc => {
            if ok {
                GdiNext::Do { next: PaintStep::Bitmap, release: Vec::new() }
            } else {
                GdiNext::Done { made: false, release: list1(GdiObject::ScreenDc) }
            }
        },
        PaintStep::Bitmap => {
            if ok {
                GdiNext::Do { next: PaintStep::Update, release: Vec::new() }
            } else {
                GdiNext::Done {
                    made: false,
                    release: list2(GdiObject::MemoryDc, GdiObject::ScreenDc),
                }
            }
        },
        PaintStep::Update => {
            let mut release: Vec<GdiObject> = list2(GdiObject::Selection, GdiObject::Bitmap);
            let mut contexts: Vec<GdiObject> = list2(GdiObject::MemoryDc, GdiObject::ScreenDc);
            release.append(&mut contexts);
            assert(release@ =~= paint_adds(step, ok) + paint_holds(step));
            GdiNext::Done { made: ok, release }
        },
    }
}

/// Goes on after a step of making an icon.
pub fn after_icon_step(step: IconStep, ok: bool) -> (r: GdiNext<IconStep>)
    ensures
        icon_follows(step, ok, r),
{
    match step {
        IconStep::ScreenDc => {
            if ok {
                GdiNext::Do { next: IconStep::Bitmap, release: Vec::new() }
            } else {
                GdiNext::Done { made: false, release: Vec::new() }
            }
        },
        IconStep::Bitmap => {
            let release: Vec<GdiObject> = list1(GdiObject::ScreenDc);
            if ok {
                GdiNext::Do { next: IconStep::Mask, release }
            } else {
                GdiNext::Done { made: false, release }
            }
        },
        IconStep::Mask => {
            if ok {
                GdiNext::Do { next: IconStep::Icon, release: Vec::new() }
            } else {
                GdiNext::Done { made: false, release: list1(GdiObject::Bitmap) }
            }
        },
        IconStep::Icon => GdiNext::Done {
            made: ok,
            release: list2(GdiObject::Bitmap, GdiObject::Mask),
        },
    }
}

/// Painting takes its steps in order and is done exactly when the last one was tried or one failed;
/// the window is painted exactly where every step worked.
pub proof fn law_painting_takes_its_steps_in_order(step: PaintStep, ok: bool, r: GdiNext<PaintStep>)
    requires
        paint_follows(step, ok, r),
    ensures
        r is Do <==> ok && !(step is Update),
        r matches GdiNext::Do { next, release } ==> release@.len() == 0 && match step {
            PaintStep::ScreenDc => next == PaintStep::MemoryDc,
            PaintStep::MemoryDc => next == PaintStep::Bitmap,
            _ => next == PaintStep::Update,
        },
        r matches GdiNext::Done { made, release: _ } ==> made == (ok && step is Update),
{
}

/// What painting holds is given back latest first: the bitmap leaves its context before it is
/// deleted, the memory context goes after the bitmap, and the screen context last.
pub proof fn law_painting_gives_back_the_latest_first(
    step: PaintStep,
    ok: bool,
    made: bool,
    release: Vec<GdiObject>,
)
    requires
        paint_follows(step, ok, GdiNext::Done { made, release }),
    ensures
        release@ == match step {
            PaintStep::ScreenDc => Seq::<GdiObject>::empty(),
            PaintStep::MemoryDc => seq![GdiObject::ScreenDc],
            PaintStep::Bitmap => seq![GdiObject::MemoryDc, GdiObject::ScreenDc],
            PaintStep::Update => seq![
                GdiObject::Selection,
                GdiObject::Bitmap,
                GdiObject::MemoryDc,
                GdiObject::ScreenDc,
            ],
        },
{
    assert(paint_adds(step, ok) + paint_holds(step) =~= match step {
        PaintStep::ScreenDc => Seq::<GdiObject>::empty(),
        PaintStep::MemoryDc => seq![GdiObject::ScreenDc],
        PaintStep::Bitmap => seq![GdiObject::MemoryDc, GdiObject::ScreenDc],
        PaintStep::Update => seq![
            GdiObject::Selection,
            GdiObject::Bitmap,
            GdiObject::MemoryDc,
            GdiObject::ScreenDc,
        ],
    });
}

/// Making an icon takes its steps in order, gives the screen context back as soon as the color
/// bitmap was tried, and ends without the bitmaps; the icon is made exactly where every step worked.
pub proof fn law_making_an_icon_takes_its_steps_in_order(
    step: IconStep,
    ok: bool,
    r: GdiNext<IconStep>,
)
    requires
        icon_follows(step, ok, r),
    ensures
        r is Do <==> ok && !(step is Icon),
        r matches GdiNext::Do { next, release } ==> match step {
            IconStep::ScreenDc => next == IconStep::Bitmap && release@.len() == 0,
            IconStep::Bitmap => next == IconStep::Mask && release@ == seq![GdiObject::ScreenDc],
            _ => next == IconStep::Icon && release@.len() == 0,
        },
        r matches GdiNext::Done { made, release } ==> made == (ok && step is Icon) && match step {
            IconStep::ScreenDc => release@.len() == 0,
            IconStep::Bitmap => release@ == seq![GdiObject::ScreenDc],
            IconStep::Mask => release@ == seq![GdiObject::Bitmap],
            IconStep::Icon => release@ == seq![GdiObject::Bitmap, GdiObject::Mask],
        },
{
}

} // verus!
