use audio_switcher::settings::{Settings, Theme, ToastPosition};
use audio_switcher::toast::{
    calculate_position, current_after_destroy, handle_timer, notify_send_args, start_animation,
    toast_colors, toast_request, toast_text, ToastEffect, FADE_TICK_MS, MARGIN, TIMER_FADE_IN,
    TIMER_FADE_OUT, TIMER_HOLD, TOAST_HEIGHT, TOAST_WIDTH,
};

#[test]
fn text_and_notify_arguments() {
    assert_eq!(toast_text("Headphones"), "Switched to Headphones");
    assert_eq!(
        notify_send_args("HDMI", 1500),
        vec!["Audio Switcher", "Switched to HDMI", "-t", "1500"]
    );
    assert_eq!(notify_send_args("X", 0)[3], "0");
    assert_eq!(notify_send_args("X", u32::MAX)[3], "4294967295");
}

#[test]
fn request_follows_settings() {
    let mut s = Settings::default();
    let r = toast_request("Speakers", &s).unwrap();
    assert_eq!(r.text, "Switched to Speakers");
    assert_eq!(r.duration_ms, 1000);
    assert_eq!(f32::from_bits(r.opacity_bits), 0.75);
    assert!(r.fade);
    assert_eq!(r.position, ToastPosition::BottomCenter);
    assert!(!r.dark);
    s.theme = Theme::Dark;
    assert!(toast_request("Speakers", &s).unwrap().dark);
    s.show_toast = false;
    assert!(toast_request("Speakers", &s).is_none());
}

#[test]
fn positions_in_work_area() {
    let (l, t, r, b) = (0, 0, 1920, 1040);
    assert_eq!(calculate_position(ToastPosition::TopLeft, l, t, r, b), (MARGIN, MARGIN));
    assert_eq!(
        calculate_position(ToastPosition::TopCenter, l, t, r, b),
        ((1920 - TOAST_WIDTH) / 2, MARGIN)
    );
    assert_eq!(
        calculate_position(ToastPosition::TopRight, l, t, r, b),
        (1920 - TOAST_WIDTH - MARGIN, MARGIN)
    );
    assert_eq!(
        calculate_position(ToastPosition::BottomLeft, l, t, r, b),
        (MARGIN, 1040 - TOAST_HEIGHT - MARGIN)
    );
    assert_eq!(
        calculate_position(ToastPosition::BottomCenter, l, t, r, b),
        ((1920 - TOAST_WIDTH) / 2, 1040 - TOAST_HEIGHT - MARGIN)
    );
    assert_eq!(
        calculate_position(ToastPosition::BottomRight, 100, 50, 1380, 850),
        (1380 - TOAST_WIDTH - MARGIN, 850 - TOAST_HEIGHT - MARGIN)
    );
    // A work area narrower than the toast: division rounds towards zero.
    assert_eq!(calculate_position(ToastPosition::TopCenter, 0, 0, 5, 5).0, (5 - TOAST_WIDTH) / 2);
}

#[test]
fn toast_inside_work_area_for_all_positions() {
    let areas = [(0, 0, 1920, 1040), (-1280, 0, 0, 1024), (10, 20, 10 + 2 * MARGIN + TOAST_WIDTH, 20 + 2 * MARGIN + TOAST_HEIGHT)];
    for (l, t, r, b) in areas {
        for pos in ToastPosition::all() {
            let (x, y) = calculate_position(pos, l, t, r, b);
            assert!(l <= x && x + TOAST_WIDTH <= r && t <= y && y + TOAST_HEIGHT <= b);
        }
    }
}

#[test]
fn animation_start() {
    let (a, first) = start_animation(191, true, 1000);
    assert_eq!(a.current_alpha, 0);
    assert_eq!(a.target_alpha, 191);
    assert_eq!(a.fade_step, 15);
    assert_eq!(first, ToastEffect::SetTimer(TIMER_FADE_IN, FADE_TICK_MS));
    let (a, first) = start_animation(191, false, 1200);
    assert_eq!(a.current_alpha, 191);
    assert_eq!(first, ToastEffect::SetTimer(TIMER_HOLD, 1200));
    let (a, _) = start_animation(5, true, 1000);
    assert_eq!(a.fade_step, 1);
}

#[test]
fn fading_toast_runs_to_completion() {
    let (mut a, first) = start_animation(191, true, 1000);
    let mut timer = match first {
        ToastEffect::SetTimer(id, _) => id,
        _ => unreachable!(),
    };
    let mut ticks = 0;
    let mut destroyed = false;
    let mut max_alpha = 0;
    while !destroyed {
        ticks += 1;
        assert!(ticks < 1000);
        let effects = handle_timer(&mut a, timer);
        assert!(a.current_alpha <= a.target_alpha);
        max_alpha = max_alpha.max(a.current_alpha);
        for e in effects {
            match e {
                ToastEffect::SetTimer(id, _) => timer = id,
                ToastEffect::Destroy => destroyed = true,
                _ => {}
            }
        }
    }
    assert_eq!(max_alpha, 191);
    assert_eq!(a.current_alpha, 0);
    // 13 fade-in ticks, the hold, 13 fade-out ticks.
    assert_eq!(ticks, 27);
}

#[test]
fn timer_effects() {
    let (mut a, _) = start_animation(100, false, 800);
    assert_eq!(handle_timer(&mut a, TIMER_HOLD), vec![ToastEffect::KillTimer(TIMER_HOLD), ToastEffect::Destroy]);
    assert_eq!(handle_timer(&mut a, 99), vec![]);
    assert_eq!(a.current_alpha, 100);
    let (mut a, _) = start_animation(20, true, 800);
    assert_eq!(a.fade_step, 1);
    a.current_alpha = 19;
    assert_eq!(
        handle_timer(&mut a, TIMER_FADE_IN),
        vec![ToastEffect::SetAlpha(20), ToastEffect::KillTimer(TIMER_FADE_IN), ToastEffect::SetTimer(TIMER_HOLD, 800)]
    );
    assert_eq!(
        handle_timer(&mut a, TIMER_HOLD),
        vec![ToastEffect::KillTimer(TIMER_HOLD), ToastEffect::SetTimer(TIMER_FADE_OUT, FADE_TICK_MS)]
    );
    assert_eq!(handle_timer(&mut a, TIMER_FADE_OUT), vec![ToastEffect::SetAlpha(19)]);
    a.current_alpha = 1;
    assert_eq!(
        handle_timer(&mut a, TIMER_FADE_OUT),
        vec![ToastEffect::SetAlpha(0), ToastEffect::KillTimer(TIMER_FADE_OUT), ToastEffect::Destroy]
    );
}

#[test]
fn colours_and_current_toast() {
    assert_eq!(toast_colors(true), (0x0028_2828, 0x00F0_F0F0));
    assert_eq!(toast_colors(false), (0x00F5_F5F5, 0x001E_1E1E));
    assert_eq!(current_after_destroy(Some(5), 5), None);
    assert_eq!(current_after_destroy(Some(5), 6), Some(5));
    assert_eq!(current_after_destroy(None, 6), None);
}
