//! The Linux backend: which surface shows the menu, where it opens, and what the desktop's
//! settings say.
use vstd::prelude::*;

use crate::error::{Error, Result, Unsupported};
use crate::platform::{Appearance, SystemFontSource};
use crate::text::{holds_folded, join_words, same_folded, setting_value, split_words};

verus! {

/// Who draws the menu on this session.
#[derive(Debug, Clone, Copy, PartialEq, Eq, Structural)]
pub enum LinuxMenuPresenter {
    /// The tray host, from an exported native menu. Works everywhere.
    NativeDbusMenu,
    /// An override-redirect window at the pointer.
    X11Popup,
    /// A layer-shell surface.
    WaylandLayerShell,
}

/// Which popup surfaces this build has.
#[derive(Debug, Clone, Copy, PartialEq, Eq, Structural)]
pub struct Features {
    pub x11_popup: bool,
    pub wayland_styled: bool,
}

/// The environment variables that describe the session.
#[derive(Debug)]
pub struct SessionEnv {
    /// `$WAYLAND_DISPLAY`.
    pub wayland_display: Option<String>,
    /// `$DISPLAY`.
    pub display: Option<String>,
    /// Those of `$XDG_CURRENT_DESKTOP`, `$XDG_SESSION_DESKTOP` and `$DESKTOP_SESSION` that are
    /// set.
    pub desktops: Vec<String>,
}

/// A variable that is set to something.
pub open spec fn names_something(value: Option<String>) -> bool {
    value matches Some(v) && v@.len() > 0
}

/// Some desktop name holds `word`, whatever the case.
pub open spec fn desktop_holds(desktops: Seq<String>, word: Seq<char>) -> bool {
    exists|k: int|
        0 <= k < desktops.len() && crate::text::holds(
            crate::text::lowered((#[trigger] desktops[k])@),
            word,
        )
}

/// The desktop is GNOME.
pub open spec fn gnome(env: SessionEnv) -> bool {
    desktop_holds(env.desktops@, "gnome"@)
}

/// The desktop is one whose compositor is known to speak the layer-shell protocol.
pub open spec fn layer_shell(env: SessionEnv) -> bool {
    ||| desktop_holds(env.desktops@, "sway"@)
    ||| desktop_holds(env.desktops@, "hyprland"@)
    ||| desktop_holds(env.desktops@, "river"@)
    ||| desktop_holds(env.desktops@, "wayfire"@)
    ||| desktop_holds(env.desktops@, "labwc"@)
    ||| desktop_holds(env.desktops@, "cosmic"@)
    ||| desktop_holds(env.desktops@, "kde"@)
    ||| desktop_holds(env.desktops@, "plasma"@)
    ||| desktop_holds(env.desktops@, "wlroots"@)
}

/// The presenter for a session. On Wayland it is the layer-shell surface, except under GNOME,
/// which refuses it, and where the build or the compositor lacks it; on X11 the window at the
/// pointer, where the build has it; else the native menu.
pub open spec fn presenter(env: SessionEnv, features: Features) -> LinuxMenuPresenter {
    if names_something(env.wayland_display) {
        if !gnome(env) && features.wayland_styled && layer_shell(env) {
            LinuxMenuPresenter::WaylandLayerShell
        } else {
            LinuxMenuPresenter::NativeDbusMenu
        }
    } else if features.x11_popup && names_something(env.display) {
        LinuxMenuPresenter::X11Popup
    } else {
        LinuxMenuPresenter::NativeDbusMenu
    }
}

/// A GNOME session on Wayland, a session without a display, and a build without popup surfaces
/// always get the native menu, and no session gets a surface that the build lacks.
pub proof fn law_the_native_menu_is_the_fallback(env: SessionEnv, features: Features)
    ensures
        names_something(env.wayland_display) && gnome(env) ==> presenter(env, features)
            is NativeDbusMenu,
        !names_something(env.wayland_display) && !names_something(env.display) ==> presenter(
            env,
            features,
        ) is NativeDbusMenu,
        presenter(env, features) is X11Popup ==> features.x11_popup,
        presenter(env, features) is WaylandLayerShell ==> features.wayland_styled,
{
}

fn is_set(value: &Option<String>) -> (r: bool)
    ensures
        r == names_something(*value),
{
    match value {
        Some(v) => !v.as_str().is_empty(),
        None => false,
    }
}

fn any_desktop_holds(desktops: &Vec<String>, word: &str) -> (r: bool)
    ensures
        r == desktop_holds(desktops@, word@),
{
    let mut k: usize = 0;
    while k < desktops.len()
        invariant
            k <= desktops@.len(),
            forall|j: int|
                0 <= j < k ==> !crate::text::holds(
                    crate::text::lowered((#[trigger] desktops@[j])@),
                    word@,
                ),
        decreases desktops@.len() - k,
    {
        if holds_folded(desktops[k].as_str(), word) {
            return true;
        }
        k = k + 1;
    }
    false
}

impl SessionEnv {
    /// Whether a Wayland session is running.
    pub fn wayland_display_present(&self) -> (r: bool)
        ensures
            r == names_something(self.wayland_display),
    {
        is_set(&self.wayland_display)
    }

    /// Whether an X server can be reached, on its own or inside a Wayland session.
    pub fn x11_available(&self) -> (r: bool)
        ensures
            r == names_something(self.display),
    {
        is_set(&self.display)
    }

    /// Whether the desktop is GNOME.
    pub fn desktop_is_gnome(&self) -> (r: bool)
        ensures
            r == gnome(*self),
    {
        any_desktop_holds(&self.desktops, "gnome")
    }

    /// Whether the desktop is one whose compositor is known to speak the layer-shell protocol.
    pub fn suggests_layer_shell(&self) -> (r: bool)
        ensures
            r == layer_shell(*self),
    {
        any_desktop_holds(&self.desktops, "sway") || any_desktop_holds(&self.desktops, "hyprland")
            || any_desktop_holds(&self.desktops, "river") || any_desktop_holds(
            &self.desktops,
            "wayfire",
        ) || any_desktop_holds(&self.desktops, "labwc") || any_desktop_holds(
            &self.desktops,
            "cosmic",
        ) || any_desktop_holds(&self.desktops, "kde") || any_desktop_holds(&self.desktops, "plasma")
            || any_desktop_holds(&self.desktops, "wlroots")
    }
}

/// Picks the presenter for a session, from its environment alone.
pub fn detect_linux_presenter(env: &SessionEnv, features: Features) -> (r: LinuxMenuPresenter)
    ensures
        r == presenter(*env, features),
{
    if env.wayland_display_present() {
        if env.desktop_is_gnome() {
            return LinuxMenuPresenter::NativeDbusMenu;
        }
        if features.wayland_styled && env.suggests_layer_shell() {
            return LinuxMenuPresenter::WaylandLayerShell;
        }
        return LinuxMenuPresenter::NativeDbusMenu;
    }
    if features.x11_popup && env.x11_available() {
        return LinuxMenuPresenter::X11Popup;
    }
    LinuxMenuPresenter::NativeDbusMenu
}

/// Whether this presenter draws the menu itself. Such a tray item is no menu to its host, which
/// then forwards the click.
pub fn presenter_uses_custom_popup(presenter: LinuxMenuPresenter) -> (r: bool)
    ensures
        r == !(presenter is NativeDbusMenu),
{
    match presenter {
        LinuxMenuPresenter::X11Popup | LinuxMenuPresenter::WaylandLayerShell => true,
        LinuxMenuPresenter::NativeDbusMenu => false,
    }
}

/// Where a click on the tray item opens the popup.
#[derive(Debug, Clone, Copy, PartialEq, Eq, Structural)]
pub enum ClickRoute {
    /// Nowhere: the host draws the menu.
    Host,
    /// At the pointer, wherever it is now.
    AtPointer,
    /// At the point the host reported.
    AtPoint { x: i32, y: i32 },
}

/// `v`, but not below zero.
pub open spec fn at_least_zero(v: i32) -> i32 {
    if v < 0 {
        0
    } else {
        v
    }
}

/// Routes a click that the host reports at (`x`, `y`). X11 knows the pointer better than the host;
/// on Wayland the host's coordinate is the only one there is.
pub fn click_route(presenter: LinuxMenuPresenter, features: Features, x: i32, y: i32) -> (r:
    ClickRoute)
    ensures
        r is AtPointer <==> presenter is X11Popup && features.x11_popup,
        r is AtPoint <==> presenter is WaylandLayerShell && features.wayland_styled,
        r matches ClickRoute::AtPoint { x: px, y: py } ==> px == at_least_zero(x) && py
            == at_least_zero(y),
{
    match presenter {
        LinuxMenuPresenter::X11Popup if features.x11_popup => ClickRoute::AtPointer,
        LinuxMenuPresenter::WaylandLayerShell if features.wayland_styled => {
            let px: i32 = if x < 0 {
                0
            } else {
                x
            };
            let py: i32 = if y < 0 {
                0
            } else {
                y
            };
            ClickRoute::AtPoint { x: px, y: py }
        },
        _ => ClickRoute::Host,
    }
}

/// Who can tell where the pointer is.
#[derive(Debug, Clone, Copy, PartialEq, Eq, Structural)]
pub enum PointerSource {
    X11,
    /// Only a surface under the pointer, so nobody outside an open popup.
    Wayland,
    Nobody,
}

/// Decides whom to ask for the pointer position.
pub fn pointer_source(env: &SessionEnv, features: Features) -> (r: PointerSource)
    ensures
        r is X11 <==> features.x11_popup && names_something(env.display),
        r is Wayland <==> features.wayland_styled && !(features.x11_popup && names_something(
            env.display,
        )),
{
    if features.x11_popup && env.x11_available() {
        PointerSource::X11
    } else if features.wayland_styled {
        PointerSource::Wayland
    } else {
        PointerSource::Nobody
    }
}

/// Whether a popup can be placed by the client. Without an X server it cannot: a Wayland client
/// may not place its own windows.
pub fn popup_allowed(env: &SessionEnv, features: Features) -> (r: Result<()>)
    ensures
        r is Ok <==> features.x11_popup && names_something(env.display),
        r is Err ==> r == Err::<(), Error>(Error::Unsupported(Unsupported::ClientPositioning)),
{
    if features.x11_popup && env.x11_available() {
        Ok(())
    } else {
        Err(Error::Unsupported(Unsupported::ClientPositioning))
    }
}

/// The tray anchor of a StatusNotifierItem host. The host draws the icon in its own process and
/// never tells where, so there is no rectangle to anchor to.
#[derive(Debug, Default)]
#[non_exhaustive]
pub struct LinuxAnchor;

impl LinuxAnchor {
    /// The anchor.
    pub fn new() -> (r: Self)
        ensures
            r == LinuxAnchor,
    {
        LinuxAnchor
    }

    /// Always the honest refusal: the icon's rectangle is unknown.
    pub fn anchor_rect(&self) -> (r: Result<(i32, i32, i32, i32)>)
        ensures
            r == Err::<(i32, i32, i32, i32), Error>(Error::Unsupported(Unsupported::TrayAnchor)),
    {
        Err(Error::Unsupported(Unsupported::TrayAnchor))
    }

    /// Whether a popup can be anchored to the tray icon: never.
    pub fn supports_tray_anchor(&self) -> (r: bool)
        ensures
            !r,
    {
        false
    }
}

/// The Linux platform handle: the anchor, and whether a standalone tray item is registered.
#[derive(Debug, Default)]
pub struct LinuxPlatform {
    pub anchor: LinuxAnchor,
    pub installed: bool,
}

impl LinuxPlatform {
    /// A handle with nothing registered.
    pub fn new() -> (r: Self)
        ensures
            !r.installed,
    {
        LinuxPlatform { anchor: LinuxAnchor::new(), installed: false }
    }

    /// Takes note of an attempt to register a tray item, which fails with the host's words or
    /// succeeds. On success, says whether an earlier item has to be taken down now; a failure
    /// leaves the earlier item in place.
    pub fn install_tray(&mut self, attempt: std::result::Result<(), String>) -> (r: Result<bool>)
        ensures
            match attempt {
                Ok(_) => r == Ok::<bool, Error>(old(self).installed) && final(self).installed,
                Err(words) => {
                    &&& r matches Err(e) && crate::error::install_failure(
                        e,
                        "SNI/StatusNotifierItem registration failed: "@ + words@,
                    )
                    &&& final(self).installed == old(self).installed
                },
            },
    {
        match attempt {
            Ok(_) => {
                let replaced: bool = self.installed;
                self.installed = true;
                Ok(replaced)
            },
            Err(words) => Err(registration_failed(&words)),
        }
    }

    /// The rectangle of the tray icon: always refused, since the host never tells it.
    pub fn tray_anchor_rect(&self) -> (r: Result<(i32, i32, i32, i32)>)
        ensures
            r == Err::<(i32, i32, i32, i32), Error>(Error::Unsupported(Unsupported::TrayAnchor)),
    {
        self.anchor.anchor_rect()
    }

    /// Whether a popup can be anchored to the tray icon: never.
    pub fn supports_tray_anchor(&self) -> (r: bool)
        ensures
            !r,
    {
        self.anchor.supports_tray_anchor()
    }

    /// Takes note that the handle goes away; says whether a tray item has to be taken down.
    pub fn release(&mut self) -> (r: bool)
        ensures
            r == old(self).installed,
            !final(self).installed,
    {
        let r: bool = self.installed;
        self.installed = false;
        r
    }
}

/// The error for a tray item that the host did not register.
pub fn registration_failed(words: &String) -> (r: Error)
    ensures
        crate::error::install_failure(
            r,
            "SNI/StatusNotifierItem registration failed: "@ + words@,
        ),
{
    let mut message: String = "SNI/StatusNotifierItem registration failed: ".to_owned();
    message.append(words.as_str());
    Error::TrayInstall(message)
}

/// A value from the desktop portal, as far as it is looked at.
#[derive(Debug)]
pub enum Variant {
    U32(u32),
    /// A variant inside a variant.
    Nested(Box<Variant>),
    Other,
}

/// The number inside any number of nested variants.
pub open spec fn unwrapped(value: Variant) -> Option<u32>
    decreases value,
{
    match value {
        Variant::U32(n) => Some(n),
        Variant::Nested(inner) => unwrapped(*inner),
        Variant::Other => None,
    }
}

/// Whether the portal's color scheme prefers dark; `None` where it holds no number.
pub fn scheme_is_dark(value: &Variant) -> (r: Option<bool>)
    ensures
        r == match unwrapped(*value) {
            Some(n) => Some(n == 1),
            None => None,
        },
    decreases *value,
{
    match value {
        Variant::U32(n) => Some(*n == 1),
        Variant::Nested(inner) => scheme_is_dark(&**inner),
        Variant::Other => None,
    }
}

/// The appearance of the desktop. Without an answer from the portal it is light.
pub fn system_appearance(answer: Option<&Variant>) -> (r: Appearance)
    ensures
        r is Dark <==> (answer matches Some(value) && unwrapped(*value) == Some(1u32)),
{
    let dark: Option<bool> = match answer {
        Some(value) => scheme_is_dark(value),
        None => None,
    };
    match dark {
        Some(is_dark) => Appearance::from_is_dark(is_dark),
        None => Appearance::Light,
    }
}

/// A word that names a font style, whatever its case.
pub open spec fn style_word(word: Seq<char>) -> bool {
    let w = crate::text::lowered(word);
    ||| w == "bold"@
    ||| w == "italic"@
    ||| w == "oblique"@
    ||| w == "light"@
    ||| w == "medium"@
    ||| w == "regular"@
    ||| w == "thin"@
    ||| w == "black"@
    ||| w == "semilight"@
    ||| w == "semibold"@
    ||| w == "heavy"@
    ||| w == "condensed"@
}

/// The words without the style words at their end.
pub open spec fn unstyled(words: Seq<Seq<char>>) -> Seq<Seq<char>>
    decreases words.len(),
{
    if words.len() > 0 && style_word(words.last()) {
        unstyled(words.drop_last())
    } else {
        words
    }
}

/// The words of a font setting that name its family: without the size at the end, where there is
/// one, and without the styles before it.
pub open spec fn family_words(raw: Seq<char>, sized: bool) -> Seq<Seq<char>> {
    let words = crate::text::words(crate::text::setting(raw));
    unstyled(
        if sized && words.len() > 0 {
            words.drop_last()
        } else {
            words
        },
    )
}

fn is_style_word(word: &str) -> (r: bool)
    ensures
        r == style_word(word@),
{
    same_folded(word, "bold") || same_folded(word, "italic") || same_folded(word, "oblique")
        || same_folded(word, "light") || same_folded(word, "medium") || same_folded(word, "regular")
        || same_folded(word, "thin") || same_folded(word, "black") || same_folded(word, "semilight")
        || same_folded(word, "semibold") || same_folded(word, "heavy") || same_folded(
        word,
        "condensed",
    )
}

/// The last word of a font setting, which is its size where it is a number.
pub fn font_size_word(raw: &str) -> (r: Option<String>)
    ensures
        ({
            let words = crate::text::words(crate::text::setting(raw@));
            match r {
                Some(w) => words.len() > 0 && w@ == words.last(),
                None => words.len() == 0,
            }
        }),
{
    let mut words: Vec<String> = split_words(setting_value(raw));
    let ghost listed = crate::text::texts(words@);
    assert(listed.len() == words@.len());
    if words.len() > 0 {
        assert(listed.last() == words@.last()@);
    }
    words.pop()
}

/// The family of a printed font setting such as `'Cantarell Bold 11'`; `None` where nothing is
/// left of it. `sized` says whether its last word is a number.
pub fn font_family(raw: &str, sized: bool) -> (r: Option<String>)
    ensures
        r is Some <==> family_words(raw@, sized).len() > 0,
        r matches Some(family) ==> family@ == crate::text::joined(family_words(raw@, sized)),
{
    let words: Vec<String> = split_words(setting_value(raw));
    let mut n: usize = words.len();
    let ghost listed = crate::text::texts(words@);
    assert(listed.len() == words@.len());
    assert(listed.take(n as int) =~= listed);
    if sized && n > 0 {
        n = n - 1;
        assert(listed.take(n as int) =~= listed.drop_last());
    }
    while n > 0 && is_style_word(words[n - 1].as_str())
        invariant
            n <= words@.len(),
            listed == crate::text::texts(words@),
            family_words(raw@, sized) == unstyled(listed.take(n as int)),
        decreases n,
    {
        assert(listed[n - 1] == words@[n - 1]@);
        assert(listed.take(n as int).drop_last() =~= listed.take(n - 1));
        n = n - 1;
    }
    assert(n > 0 ==> listed.take(n as int).last() == words@[n - 1]@);
    if n == 0 {
        None
    } else {
        Some(join_words(&words, n))
    }
}

/// The menu font that a printed font setting names: an installed family.
pub fn system_menu_font(raw: &str, sized: bool) -> (r: Option<SystemFontSource>)
    ensures
        r is Some <==> family_words(raw@, sized).len() > 0,
        r matches Some(source) ==> (source matches SystemFontSource::Family(family) && family@
            == crate::text::joined(family_words(raw@, sized))),
{
    match font_family(raw, sized) {
        Some(family) => Some(SystemFontSource::Family(family)),
        None => None,
    }
}

/// The family of a font setting neither ends in a style word nor loses any word but its size and
/// the styles at its end.
pub proof fn law_family_is_what_precedes_the_styles(words: Seq<Seq<char>>)
    ensures
        unstyled(words).len() > 0 ==> !style_word(unstyled(words).last()),
        unstyled(words).len() <= words.len(),
        unstyled(words) == words.take(unstyled(words).len() as int),
        forall|k: int|
            unstyled(words).len() <= k < words.len() ==> style_word(#[trigger] words[k]),
    decreases words.len(),
{
    if words.len() > 0 && style_word(words.last()) {
        law_family_is_what_precedes_the_styles(words.drop_last());
        let n = unstyled(words).len() as int;
        assert(words.take(n) =~= words.drop_last().take(n));
        assert forall|k: int| n <= k < words.len() implies style_word(#[trigger] words[k]) by {
            if k < words.len() - 1 {
                assert(words.drop_last()[k] == words[k]);
            }
        }
    } else {
        assert(words.take(words.len() as int) =~= words);
    }
}

/// Who draws the menu: on a Wayland session the layer-shell surface, exactly where the build has it,
/// the desktop is not GNOME and its compositor is known to speak the protocol; on a session with an
/// X server alone the popup window, exactly where the build has it; everywhere else the host.
pub proof fn law_who_draws_the_menu(env: SessionEnv, features: Features)
    ensures
        ({
            let wayland = env.wayland_display matches Some(name) && name@.len() > 0;
            let x11 = env.display matches Some(name) && name@.len() > 0;
            &&& presenter(env, features) is WaylandLayerShell <==> wayland && features.wayland_styled
                && !gnome(env) && layer_shell(env)
            &&& presenter(env, features) is X11Popup <==> !wayland && x11 && features.x11_popup
            &&& presenter(env, features) is NativeDbusMenu <==> !(presenter(env, features)
                is WaylandLayerShell) && !(presenter(env, features) is X11Popup)
        }),
{
}

/// A desktop is recognized by its name in whatever case and whatever stands around it: GNOME, and
/// the compositors that speak the layer-shell protocol.
pub proof fn law_desktops_are_recognized_by_name(env: SessionEnv, k: int, at: int, name: Seq<char>)
    requires
        0 <= k < env.desktops@.len(),
        0 <= at,
        at + name.len() <= env.desktops@[k]@.len(),
        forall|j: int|
            0 <= j < name.len() ==> crate::text::lower(#[trigger] env.desktops@[k]@[at + j])
                == name[j],
    ensures
        name == "gnome"@ ==> gnome(env),
        name == "sway"@ || name == "hyprland"@ || name == "river"@ || name == "wayfire"@ || name
            == "labwc"@ || name == "cosmic"@ || name == "kde"@ || name == "plasma"@ || name
            == "wlroots"@ ==> layer_shell(env),
{
    let folded = crate::text::lowered(env.desktops@[k]@);
    assert forall|j: int| 0 <= j < name.len() implies folded.subrange(at, at + name.len())[j]
        == name[j] by {
        assert(crate::text::lower(env.desktops@[k]@[at + j]) == name[j]);
    }
    assert(folded.subrange(at, at + name.len()) =~= name);
    assert(crate::text::stands_at(folded, name, at));
    assert(crate::text::holds(folded, name));
}

/// A session without desktop names is neither GNOME nor known to speak the layer-shell protocol.
pub proof fn law_an_unnamed_desktop_is_not_recognized(env: SessionEnv)
    requires
        env.desktops@.len() == 0,
    ensures
        !gnome(env),
        !layer_shell(env),
        !(presenter(
            env,
            Features { x11_popup: true, wayland_styled: true },
        ) is WaylandLayerShell),
{
}

/// The number in a portal's answer is found however often the answer is wrapped.
pub proof fn law_wrapping_hides_no_answer(inner: Variant, n: u32)
    ensures
        unwrapped(Variant::U32(n)) == Some(n),
        unwrapped(Variant::Nested(Box::new(inner))) == unwrapped(inner),
        unwrapped(Variant::Other) is None,
{
}

/// A point of the host is used as it is, but for coordinates left of the screen or above it, which
/// are moved onto its edge.
pub proof fn law_a_point_is_moved_onto_the_screen(v: i32)
    ensures
        at_least_zero(v) >= 0,
        v >= 0 ==> at_least_zero(v) == v,
        v < 0 ==> at_least_zero(v) == 0,
{
}

/// The family of a font setting is what is left without its size and without the styles before it:
/// every word of the family is kept, in order, and a style inside the family stays.
pub proof fn law_the_family_of_a_font(raw: Seq<char>, family: Seq<Seq<char>>, styles: Seq<Seq<char>>, size: Seq<char>)
    requires
        forall|k: int| 0 <= k < styles.len() ==> style_word(#[trigger] styles[k]),
        family.len() > 0,
        !style_word(family.last()),
    ensures
        crate::text::words(crate::text::setting(raw)) == family + styles ==> family_words(raw, false)
            == family,
        crate::text::words(crate::text::setting(raw)) == (family + styles).push(size)
            ==> family_words(raw, true) == family,
{
    lemma_unstyled(family, styles);
    assert((family + styles).push(size).drop_last() =~= family + styles);
}

proof fn lemma_unstyled(family: Seq<Seq<char>>, styles: Seq<Seq<char>>)
    requires
        forall|k: int| 0 <= k < styles.len() ==> style_word(#[trigger] styles[k]),
        family.len() > 0,
        !style_word(family.last()),
    ensures
        unstyled(family + styles) == family,
    decreases styles.len(),
{
    if styles.len() == 0 {
        assert(family + styles =~= family);
    } else {
        assert((family + styles).last() == styles[styles.len() - 1]);
        assert((family + styles).drop_last() =~= family + styles.drop_last());
        assert forall|k: int| 0 <= k < styles.drop_last().len() implies style_word(
            #[trigger] styles.drop_last()[k],
        ) by {
            assert(styles.drop_last()[k] == styles[k]);
        }
        lemma_unstyled(family, styles.drop_last());
    }
}

/// The words that name a style do so in whatever case, and no others do.
pub proof fn law_the_words_that_name_a_style(word: Seq<char>, style: Seq<char>)
    requires
        word.len() == style.len(),
        forall|k: int|
            0 <= k < word.len() ==> crate::text::lower(#[trigger] word[k]) == style[k],
    ensures
        style_word(word) <==> style == "bold"@ || style == "italic"@ || style == "oblique"@ || style
            == "light"@ || style == "medium"@ || style == "regular"@ || style == "thin"@ || style
            == "black"@ || style == "semilight"@ || style == "semibold"@ || style == "heavy"@
            || style == "condensed"@,
{
    assert(crate::text::lowered(word) =~= style);
}

/// `word` stands in some desktop name, letter for letter in either case.
pub open spec fn spelled(desktops: Seq<String>, word: Seq<char>, k: int, at: int) -> bool {
    &&& 0 <= k < desktops.len()
    &&& 0 <= at
    &&& at + word.len() <= desktops[k]@.len()
    &&& forall|j: int|
        0 <= j < word.len() ==> crate::text::lower(#[trigger] desktops[k]@[at + j]) == word[j]
}

/// A name that is held is spelled out somewhere.
proof fn lemma_held_is_spelled(desktops: Seq<String>, word: Seq<char>)
    requires
        desktop_holds(desktops, word),
    ensures
        exists|k: int, at: int| #[trigger] spelled(desktops, word, k, at),
{
    let k = choose|k: int|
        0 <= k < desktops.len() && crate::text::holds(
            crate::text::lowered((#[trigger] desktops[k])@),
            word,
        );
    let folded = crate::text::lowered(desktops[k]@);
    let at = choose|at: int| #[trigger] crate::text::stands_at(folded, word, at);
    assert forall|j: int| 0 <= j < word.len() implies crate::text::lower(
        #[trigger] desktops[k]@[at + j],
    ) == word[j] by {
        assert(folded.subrange(at, at + word.len())[j] == word[j]);
    }
    assert(spelled(desktops, word, k, at));
}

/// No desktop is recognized by anything but its name: GNOME where that word stands in a name, and a
/// compositor of the layer-shell protocol where one of theirs does.
pub proof fn law_desktops_are_recognized_by_nothing_else(env: SessionEnv)
    ensures
        gnome(env) ==> exists|k: int, at: int| #[trigger]
            spelled(env.desktops@, "gnome"@, k, at),
        layer_shell(env) ==> exists|word: Seq<char>, k: int, at: int| #[trigger]
            spelled(env.desktops@, word, k, at) && (word == "sway"@ || word == "hyprland"@ || word
                == "river"@ || word == "wayfire"@ || word == "labwc"@ || word == "cosmic"@ || word
                == "kde"@ || word == "plasma"@ || word == "wlroots"@),
{
    let d = env.desktops@;
    if gnome(env) {
        lemma_held_is_spelled(d, "gnome"@);
    }
    if layer_shell(env) {
        let word = if desktop_holds(d, "sway"@) {
            "sway"@
        } else if desktop_holds(d, "hyprland"@) {
            "hyprland"@
        } else if desktop_holds(d, "river"@) {
            "river"@
        } else if desktop_holds(d, "wayfire"@) {
            "wayfire"@
        } else if desktop_holds(d, "labwc"@) {
            "labwc"@
        } else if desktop_holds(d, "cosmic"@) {
            "cosmic"@
        } else if desktop_holds(d, "kde"@) {
            "kde"@
        } else if desktop_holds(d, "plasma"@) {
            "plasma"@
        } else {
            "wlroots"@
        };
        lemma_held_is_spelled(d, word);
    }
}

} // verus!
