//! The notification shown when the device is switched: its text, where it
//! appears, and the fade-in, hold and fade-out timeline that its timers
//! drive.
use crate::settings::{Settings, ToastPosition, system_prefers_dark, theme_is_dark};
use crate::text::{decimal_digits, decimal_string};
use vstd::prelude::*;

verus! {

/// Width of the notification window, in pixels.
pub const TOAST_WIDTH: i32 = 320;

/// Height of the notification window, in pixels.
pub const TOAST_HEIGHT: i32 = 60;

/// Distance between the notification and the edges of the work area.
pub const MARGIN: i32 = 24;

/// How long a fade in or out takes, in milliseconds.
pub const FADE_DURATION_MS: u32 = 200;

/// Interval of the fade timer, in milliseconds.
pub const FADE_TICK_MS: u32 = 16;

/// Id of the timer that drives the fade in.
pub const TIMER_FADE_IN: usize = 1;

/// Id of the timer that ends the hold.
pub const TIMER_HOLD: usize = 2;

/// Id of the timer that drives the fade out.
pub const TIMER_FADE_OUT: usize = 3;

/// The text of the notification.
pub open spec fn toast_text_of(name: Seq<char>) -> Seq<char> {
    "Switched to "@ + name
}

/// The text of the notification for a switch to `device_name`.
pub fn toast_text(device_name: &str) -> (s: String)
    ensures
        s@ == toast_text_of(device_name@),
{
    let mut s = String::new();
    s.append("Switched to ");
    s.append(device_name);
    assert(s@ =~= toast_text_of(device_name@));
    s
}

/// The arguments of `notify-send` for a switch to `device_name` shown for
/// `duration_ms` milliseconds: the application name, the text, and the
/// timeout option.
pub fn notify_send_args(device_name: &str, duration_ms: u32) -> (args: Vec<String>)
    ensures
        args@.len() == 4,
        args@[0]@ == "Audio Switcher"@,
        args@[1]@ == toast_text_of(device_name@),
        args@[2]@ == "-t"@,
        args@[3]@ == decimal_digits(duration_ms as nat),
{
    let mut args: Vec<String> = Vec::new();
    args.push("Audio Switcher".to_string());
    args.push(toast_text(device_name));
    args.push("-t".to_string());
    args.push(decimal_string(duration_ms));
    args
}

/// What the notification needs from the settings.
#[derive(Debug)]
pub struct ToastRequest {
    pub text: String,
    pub duration_ms: u32,
    pub opacity_bits: u32,
    pub fade: bool,
    pub position: ToastPosition,
    pub dark: bool,
}

/// The notification to show for a switch to `device_name`, or none when the
/// settings turn notifications off.
pub fn toast_request(device_name: &str, settings: &Settings) -> (r: Option<ToastRequest>)
    ensures
        !settings.show_toast ==> r is None,
        settings.show_toast ==> (r matches Some(t) && t.text@ == toast_text_of(device_name@)
            && t.duration_ms == settings.toast_duration_ms && t.opacity_bits
            == settings.toast_opacity_bits && t.fade == settings.toast_fade && t.position
            == settings.toast_position && t.dark == theme_is_dark(
            settings.theme,
            system_prefers_dark(),
        )),
{
    if !settings.show_toast {
        return None;
    }
    Some(
        ToastRequest {
            text: toast_text(device_name),
            duration_ms: settings.toast_duration_ms,
            opacity_bits: settings.toast_opacity_bits,
            fade: settings.toast_fade,
            position: settings.toast_position,
            dark: settings.is_dark(),
        },
    )
}

// ---------------------------------------------------------------------------
// Position
// ---------------------------------------------------------------------------

/// Rust's division of a signed integer by 2, which rounds towards zero.
pub open spec fn half_toward_zero(x: int) -> int {
    if x >= 0 {
        x / 2
    } else {
        -((-x) / 2)
    }
}

/// The top-left corner of the notification in a work area that spans
/// `left..right` horizontally and `top..bottom` vertically.
pub open spec fn toast_origin(pos: ToastPosition, left: int, top: int, right: int, bottom: int) -> (
    int,
    int,
) {
    let w = right - left;
    let h = bottom - top;
    let x_left = left + MARGIN;
    let x_center = left + half_toward_zero(w - TOAST_WIDTH);
    let x_right = left + w - TOAST_WIDTH - MARGIN;
    let y_top = top + MARGIN;
    let y_bottom = top + h - TOAST_HEIGHT - MARGIN;
    match pos {
        ToastPosition::TopLeft => (x_left, y_top),
        ToastPosition::TopCenter => (x_center, y_top),
        ToastPosition::TopRight => (x_right, y_top),
        ToastPosition::BottomLeft => (x_left, y_bottom),
        ToastPosition::BottomCenter => (x_center, y_bottom),
        ToastPosition::BottomRight => (x_right, y_bottom),
    }
}

/// An `i32` holds `x`.
pub open spec fn fits_i32(x: int) -> bool {
    i32::MIN <= x <= i32::MAX
}

/// Every intermediate value of the position arithmetic fits in an `i32`, as
/// the computation needs to run without overflow.
pub open spec fn toast_origin_fits(left: int, top: int, right: int, bottom: int) -> bool {
    let w = right - left;
    let h = bottom - top;
    &&& fits_i32(w)
    &&& fits_i32(h)
    &&& fits_i32(left + MARGIN)
    &&& fits_i32(top + MARGIN)
    &&& fits_i32(w - TOAST_WIDTH)
    &&& fits_i32(left + w)
    &&& fits_i32(left + w - TOAST_WIDTH)
    &&& fits_i32(left + w - TOAST_WIDTH - MARGIN)
    &&& fits_i32(top + h)
    &&& fits_i32(top + h - TOAST_HEIGHT)
    &&& fits_i32(top + h - TOAST_HEIGHT - MARGIN)
}

/// Where the notification goes in the work area (`left`, `top`, `right`,
/// `bottom`).
pub fn calculate_position(pos: ToastPosition, left: i32, top: i32, right: i32, bottom: i32) -> (r: (
    i32,
    i32,
))
    requires
        toast_origin_fits(left as int, top as int, right as int, bottom as int),
    ensures
        (r.0 as int, r.1 as int) == toast_origin(
            pos,
            left as int,
            top as int,
            right as int,
            bottom as int,
        ),
{
    let w = right - left;
    let h = bottom - top;
    let d = w - TOAST_WIDTH;
    let half: i32 = d / 2;
    proof {
        assert(fits_i32(left + half_toward_zero(d as int)));
    }
    match pos {
        ToastPosition::TopLeft => (left + MARGIN, top + MARGIN),
        ToastPosition::TopCenter => (left + half, top + MARGIN),
        ToastPosition::TopRight => (left + w - TOAST_WIDTH - MARGIN, top + MARGIN),
        ToastPosition::BottomLeft => (left + MARGIN, top + h - TOAST_HEIGHT - MARGIN),
        ToastPosition::BottomCenter => (left + half, top + h - TOAST_HEIGHT - MARGIN),
        ToastPosition::BottomRight => (left + w - TOAST_WIDTH - MARGIN, top + h - TOAST_HEIGHT
            - MARGIN),
    }
}

/// Law: in a work area with room for the notification and its margins, the
/// notification lies entirely inside the work area, whatever the position.
pub proof fn law_toast_inside_work_area(
    pos: ToastPosition,
    left: int,
    top: int,
    right: int,
    bottom: int,
)
    requires
        right - left >= TOAST_WIDTH + 2 * MARGIN,
        bottom - top >= TOAST_HEIGHT + 2 * MARGIN,
    ensures
        ({
            let (x, y) = toast_origin(pos, left, top, right, bottom);
            left <= x && x + TOAST_WIDTH <= right && top <= y && y + TOAST_HEIGHT <= bottom
        }),
{
}

// ---------------------------------------------------------------------------
// Timeline
// ---------------------------------------------------------------------------

/// The fade state of a notification window.
#[derive(Clone, Copy, Debug, PartialEq, Eq, Structural)]
pub struct ToastAnimation {
    /// Opacity once faded in (0 to 255).
    pub target_alpha: u8,
    /// Opacity now.
    pub current_alpha: u8,
    pub fade_enabled: bool,
    /// Change of opacity per fade tick.
    pub fade_step: u8,
    /// How long the notification stays at full opacity.
    pub duration_ms: u32,
}

/// What the window does in response to a timer.
#[derive(Clone, Copy, Debug, PartialEq, Eq, Structural)]
pub enum ToastEffect {
    /// Set the window's opacity.
    SetAlpha(u8),
    /// Stop the timer with this id.
    KillTimer(usize),
    /// Start a timer with this id and interval in milliseconds.
    SetTimer(usize, u32),
    /// Close the window.
    Destroy,
}

impl ToastAnimation {
    /// The opacity stays within the target and the fade step moves it.
    pub open spec fn wf(self) -> bool {
        self.current_alpha <= self.target_alpha && self.fade_step >= 1
    }
}

/// The number of fade ticks over a whole fade, at least one.
pub open spec fn fade_steps() -> nat {
    if FADE_DURATION_MS / FADE_TICK_MS >= 1 {
        (FADE_DURATION_MS / FADE_TICK_MS) as nat
    } else {
        1
    }
}

/// The change of opacity per tick for a fade to `target_alpha`, at least 1.
pub open spec fn fade_step_for(target_alpha: u8) -> u8 {
    if (target_alpha as nat) / fade_steps() >= 1 {
        ((target_alpha as nat) / fade_steps()) as u8
    } else {
        1
    }
}

/// The state and first timer of a new notification: with fading, it starts
/// transparent and the fade-in timer ticks; without, it starts at the target
/// opacity and the hold timer runs for the duration.
pub fn start_animation(target_alpha: u8, fade: bool, duration_ms: u32) -> (r: (
    ToastAnimation,
    ToastEffect,
))
    ensures
        r.0.wf(),
        r.0.target_alpha == target_alpha,
        r.0.current_alpha == (if fade {
            0
        } else {
            target_alpha
        }),
        r.0.fade_enabled == fade,
        r.0.fade_step == fade_step_for(target_alpha),
        r.0.duration_ms == duration_ms,
        r.1 == (if fade {
            ToastEffect::SetTimer(TIMER_FADE_IN, FADE_TICK_MS)
        } else {
            ToastEffect::SetTimer(TIMER_HOLD, duration_ms)
        }),
{
    let steps = FADE_DURATION_MS / FADE_TICK_MS;
    let fade_steps: u32 = if steps >= 1 {
        steps
    } else {
        1
    };
    let per = (target_alpha as u32) / fade_steps;
    let fade_step: u8 = if per >= 1 {
        per as u8
    } else {
        1
    };
    let anim = ToastAnimation {
        target_alpha,
        current_alpha: if fade {
            0
        } else {
            target_alpha
        },
        fade_enabled: fade,
        fade_step,
        duration_ms,
    };
    let first = if fade {
        ToastEffect::SetTimer(TIMER_FADE_IN, FADE_TICK_MS)
    } else {
        ToastEffect::SetTimer(TIMER_HOLD, duration_ms)
    };
    (anim, first)
}

/// One timer tick: the new state and the effects, in order.
pub open spec fn timer_step(a: ToastAnimation, timer_id: usize) -> (ToastAnimation, Seq<ToastEffect>) {
    if timer_id == TIMER_FADE_IN {
        let raised = if a.current_alpha + a.fade_step > 255 {
            255
        } else {
            a.current_alpha + a.fade_step
        };
        let cur = (if raised < a.target_alpha {
            raised
        } else {
            a.target_alpha as int
        }) as u8;
        let b = ToastAnimation { current_alpha: cur, ..a };
        if cur >= a.target_alpha {
            (
                b,
                seq![
                    ToastEffect::SetAlpha(cur),
                    ToastEffect::KillTimer(TIMER_FADE_IN),
                    ToastEffect::SetTimer(TIMER_HOLD, a.duration_ms),
                ],
            )
        } else {
            (b, seq![ToastEffect::SetAlpha(cur)])
        }
    } else if timer_id == TIMER_HOLD {
        if a.fade_enabled {
            (a, seq![ToastEffect::KillTimer(TIMER_HOLD), ToastEffect::SetTimer(TIMER_FADE_OUT, FADE_TICK_MS)])
        } else {
            (a, seq![ToastEffect::KillTimer(TIMER_HOLD), ToastEffect::Destroy])
        }
    } else if timer_id == TIMER_FADE_OUT {
        let cur = (if a.current_alpha >= a.fade_step {
            a.current_alpha - a.fade_step
        } else {
            0
        }) as u8;
        let b = ToastAnimation { current_alpha: cur, ..a };
        if cur == 0 {
            (
                b,
                seq![
                    ToastEffect::SetAlpha(cur),
                    ToastEffect::KillTimer(TIMER_FADE_OUT),
                    ToastEffect::Destroy,
                ],
            )
        } else {
            (b, seq![ToastEffect::SetAlpha(cur)])
        }
    } else {
        (a, Seq::empty())
    }
}

/// Handles a tick of the timer `timer_id`: while fading in, the opacity
/// rises by the fade step up to the target, and reaching it starts the hold;
/// the end of the hold starts the fade out, or closes the window when fading
/// is off; while fading out, the opacity falls by the fade step, and reaching
/// zero closes the window. Other timers are ignored.
pub fn handle_timer(anim: &mut ToastAnimation, timer_id: usize) -> (effects: Vec<ToastEffect>)
    ensures
        (*final(anim), effects@) == timer_step(*old(anim), timer_id),
{
    let mut effects: Vec<ToastEffect> = Vec::new();
    if timer_id == TIMER_FADE_IN {
        let raised = anim.current_alpha.saturating_add(anim.fade_step);
        anim.current_alpha = if raised < anim.target_alpha {
            raised
        } else {
            anim.target_alpha
        };
        effects.push(ToastEffect::SetAlpha(anim.current_alpha));
        if anim.current_alpha >= anim.target_alpha {
            effects.push(ToastEffect::KillTimer(TIMER_FADE_IN));
            effects.push(ToastEffect::SetTimer(TIMER_HOLD, anim.duration_ms));
        }
    } else if timer_id == TIMER_HOLD {
        effects.push(ToastEffect::KillTimer(TIMER_HOLD));
        if anim.fade_enabled {
            effects.push(ToastEffect::SetTimer(TIMER_FADE_OUT, FADE_TICK_MS));
        } else {
            effects.push(ToastEffect::Destroy);
        }
    } else if timer_id == TIMER_FADE_OUT {
        anim.current_alpha = anim.current_alpha.saturating_sub(anim.fade_step);
        effects.push(ToastEffect::SetAlpha(anim.current_alpha));
        if anim.current_alpha == 0 {
            effects.push(ToastEffect::KillTimer(TIMER_FADE_OUT));
            effects.push(ToastEffect::Destroy);
        }
    }
    assert(effects@ =~= timer_step(*old(anim), timer_id).1);
    effects
}

/// Law: a timer tick keeps the opacity within the target and never changes
/// the target, the fade step, the fade switch or the duration.
pub proof fn law_timer_keeps_state(a: ToastAnimation, timer_id: usize)
    requires
        a.wf(),
    ensures
        timer_step(a, timer_id).0.wf(),
        timer_step(a, timer_id).0.target_alpha == a.target_alpha,
        timer_step(a, timer_id).0.fade_step == a.fade_step,
        timer_step(a, timer_id).0.fade_enabled == a.fade_enabled,
        timer_step(a, timer_id).0.duration_ms == a.duration_ms,
{
}

/// Law: every fade tick makes progress. A fade-in tick below the target
/// raises the opacity, and the tick that reaches the target starts the hold;
/// a fade-out tick above zero lowers it, and the tick that reaches zero
/// closes the window. So a fade in takes at most `target_alpha` ticks and a
/// fade out at most `current_alpha` ticks.
pub proof fn law_fade_progress(a: ToastAnimation)
    requires
        a.wf(),
    ensures
        a.current_alpha < a.target_alpha ==> timer_step(a, TIMER_FADE_IN).0.current_alpha
            > a.current_alpha,
        timer_step(a, TIMER_FADE_IN).0.current_alpha == a.target_alpha ==> timer_step(
            a,
            TIMER_FADE_IN,
        ).1.last() == ToastEffect::SetTimer(TIMER_HOLD, a.duration_ms),
        a.current_alpha > 0 ==> timer_step(a, TIMER_FADE_OUT).0.current_alpha < a.current_alpha,
        timer_step(a, TIMER_FADE_OUT).0.current_alpha == 0 ==> timer_step(
            a,
            TIMER_FADE_OUT,
        ).1.last() == ToastEffect::Destroy,
        !a.fade_enabled ==> timer_step(a, TIMER_HOLD).1.last() == ToastEffect::Destroy,
{
}

/// Law: the window shows the opacity of the animation. Every fade-in and
/// fade-out tick begins by setting the window's opacity to the animation's
/// new opacity, so after each tick the window and the animation agree; the
/// other timers leave the opacity as it was.
pub proof fn law_fade_tick_sets_alpha(a: ToastAnimation, timer_id: usize)
    ensures
        timer_id == TIMER_FADE_IN || timer_id == TIMER_FADE_OUT ==> timer_step(a, timer_id).1.len()
            >= 1 && timer_step(a, timer_id).1[0] == ToastEffect::SetAlpha(
            timer_step(a, timer_id).0.current_alpha,
        ),
        timer_id != TIMER_FADE_IN && timer_id != TIMER_FADE_OUT ==> timer_step(
            a,
            timer_id,
        ).0.current_alpha == a.current_alpha && forall|k: int|
            0 <= k < timer_step(a, timer_id).1.len() ==> !(#[trigger] timer_step(a, timer_id).1[k] is SetAlpha),
{
}

/// Law: without fading, the opacity never changes from the target.
pub proof fn law_no_fade_keeps_alpha(a: ToastAnimation, timer_id: usize)
    requires
        a.wf(),
        !a.fade_enabled,
        a.current_alpha == a.target_alpha,
        timer_id != TIMER_FADE_OUT,
    ensures
        timer_step(a, timer_id).0.current_alpha == a.target_alpha,
{
}

/// Background and text colours (Win32 `COLORREF`, 0x00BBGGRR) of the
/// notification for the dark or light theme.
pub fn toast_colors(dark: bool) -> (r: (u32, u32))
    ensures
        r == (if dark {
            (0x0028_2828u32, 0x00F0_F0F0u32)
        } else {
            (0x00F5_F5F5u32, 0x001E_1E1Eu32)
        }),
{
    if dark {
        (0x0028_2828, 0x00F0_F0F0)
    } else {
        (0x00F5_F5F5, 0x001E_1E1E)
    }
}

/// The notification that stays current after the window `hwnd` is
/// destroyed: none if it was that window, otherwise unchanged.
pub fn current_after_destroy(current: Option<isize>, hwnd: isize) -> (r: Option<isize>)
    ensures
        r == (if current == Some(hwnd) {
            None
        } else {
            current
        }),
{
    match current {
        Some(c) => if c == hwnd {
            None
        } else {
            current
        },
        None => None,
    }
}

} // verus!
