use std::time::{Duration, Instant};

use crowndictator::animation::Clock;
use crowndictator::appearance::{AccentColor, AnimationProfile};
use crowndictator::icon::{attr, element_kind, svg_tags, ElementKind};
use crowndictator::state::{phase_change, Phase, WaveRing, WAVE_N};
use crowndictator::waveform::{bar_span, flash_over, BARS};
use crowndictator::uikit::{
    popup_click, respond, select_message, sidebar_item_input, sidebar_role, sidebar_separator, text_color,
    toggle_input, trigger_label_text, AccessRole, PopupAction, Rgb8, SelectChanged, SidebarActivated,
    SidebarItemKind, SidebarSeparator, ToggleToggled, WidgetInput,
};

#[test]
fn appearance_defaults() {
    assert_eq!(AccentColor::default(), AccentColor::Purple);
    assert_eq!(AnimationProfile::default(), AnimationProfile::Standard);
}

#[test]
fn a_clock_measures_from_its_last_read() {
    let mut c = Clock::new();
    let t0 = Instant::now();
    assert_eq!(c.mark(t0), None);
    let t1 = t0 + Duration::from_millis(16);
    assert_eq!(c.mark(t1), Some(t0));
    c.reset();
    assert_eq!(c.mark(t1), None);
    let mut d = Clock::default();
    assert_eq!(d.mark(t1), None);
}

#[test]
fn each_bar_shows_two_slots_and_the_bars_tile_the_history() {
    assert_eq!(bar_span(0), (0, 2));
    assert_eq!(bar_span(13), (26, 28));
    assert_eq!(bar_span(BARS - 1), (WAVE_N - 2, WAVE_N));
    for i in 0..BARS - 1 {
        assert_eq!(bar_span(i).1, bar_span(i + 1).0);
    }
}

#[test]
fn the_wave_ring_reads_oldest_first() {
    let mut r = WaveRing::new(0u32);
    for v in 1..=60u32 {
        r.push(v);
    }
    let s = r.snapshot();
    assert_eq!(s.len(), WAVE_N);
    assert_eq!(s[0], 5);
    assert_eq!(s[WAVE_N - 1], 60);
    r.clear(0);
    assert!(r.snapshot().iter().all(|v| *v == 0));
}

#[test]
fn listening_clears_the_wave_and_a_new_phase_restamps() {
    let c = phase_change(Phase::Hidden, Phase::Listening);
    assert!(c.restamp && c.clear_wave);
    let c = phase_change(Phase::Listening, Phase::Listening);
    assert!(!c.restamp && c.clear_wave);
    let c = phase_change(Phase::Listening, Phase::Thinking);
    assert!(c.restamp && !c.clear_wave);
}

const X_ICON: &str = r#"<path d="M18 6 6 18" /><path d="m6 6 12 12" /><circle cx="12" cy="12" r="10"/>"#;

#[test]
fn icon_bodies_split_into_tags() {
    let t = svg_tags(X_ICON);
    assert_eq!(t.len(), 3);
    assert_eq!(t[0], r#"path d="M18 6 6 18" /"#);
    assert_eq!(element_kind(&t[0]), ElementKind::Path);
    assert_eq!(element_kind(&t[2]), ElementKind::Circle);
    assert_eq!(svg_tags("no tags < here"), Vec::<String>::new());
    assert_eq!(svg_tags("<a><b"), vec!["a".to_string()]);
}

#[test]
fn elements_are_named_by_their_first_word() {
    assert_eq!(element_kind("  rect x=\"1\""), ElementKind::Rect);
    assert_eq!(element_kind("line\tx1=\"0\""), ElementKind::Line);
    assert_eq!(element_kind("polyline points=\"\""), ElementKind::Other);
    assert_eq!(element_kind(""), ElementKind::Other);
}

#[test]
fn attributes_are_read_between_quotes() {
    let tag = r#"rect width="18" height="11" x="3" y="11" rx="2" ry="2""#;
    assert_eq!(attr(tag, "width").as_deref(), Some("18"));
    assert_eq!(attr(tag, "x").as_deref(), Some("3"));
    assert_eq!(attr(tag, "rx").as_deref(), Some("2"));
    assert_eq!(attr(tag, "cx"), None);
    assert_eq!(attr("rect x=\"3", "x"), None);
    // The first occurrence of the pattern wins, even inside another name.
    assert_eq!(attr(r#"circle cx="5" x="9""#, "x").as_deref(), Some("5"));
}


#[test]
fn sidebar_rows_take_their_colour_and_role_from_their_kind() {
    let near_black = Rgb8 { r: 0x0A, g: 0x0A, b: 0x0A };
    assert_eq!(text_color(SidebarItemKind::Item, false), Rgb8 { r: 0x3F, g: 0x3F, b: 0x46 });
    assert_eq!(text_color(SidebarItemKind::Item, true), near_black);
    assert_eq!(text_color(SidebarItemKind::Subitem, false), Rgb8 { r: 0x5A, g: 0x5A, b: 0x63 });
    assert_eq!(text_color(SidebarItemKind::Subitem, true), near_black);
    assert_eq!(text_color(SidebarItemKind::Brand, false), near_black);
    assert_eq!(sidebar_role(SidebarItemKind::Brand), AccessRole::Label);
    assert_eq!(sidebar_role(SidebarItemKind::GroupHeader), AccessRole::Button);
    assert_eq!(sidebar_role(SidebarItemKind::Subitem), AccessRole::MenuItem);
    assert_eq!(sidebar_separator(), SidebarSeparator);
}

#[test]
fn a_click_is_a_press_and_a_release_on_the_widget() {
    let down = respond(false, WidgetInput::PrimaryDown, false);
    assert!(down.capture && !down.activate);
    let up = WidgetInput::PrimaryUp { active: true, hovered: true };
    assert_eq!(sidebar_item_input(false, up), Some(SidebarActivated));
    assert_eq!(sidebar_item_input(false, WidgetInput::PrimaryUp { active: true, hovered: false }), None);
    assert_eq!(sidebar_item_input(false, WidgetInput::PrimaryUp { active: false, hovered: true }), None);
    assert_eq!(sidebar_item_input(true, up), None);
    assert_eq!(sidebar_item_input(false, WidgetInput::AccessClick), Some(SidebarActivated));
    assert_eq!(sidebar_item_input(false, WidgetInput::SpaceReleased), None);
}

#[test]
fn a_toggle_asks_for_the_other_state() {
    let up = WidgetInput::PrimaryUp { active: true, hovered: true };
    assert_eq!(toggle_input(false, false, up), Some(ToggleToggled(true)));
    assert_eq!(toggle_input(true, false, WidgetInput::SpaceReleased), Some(ToggleToggled(false)));
    assert_eq!(toggle_input(true, false, WidgetInput::AccessClick), Some(ToggleToggled(false)));
    assert_eq!(toggle_input(true, true, WidgetInput::AccessClick), None);
    assert_eq!(toggle_input(true, false, WidgetInput::Other), None);
}

#[test]
fn a_select_shows_and_reports_its_choice() {
    let options = vec!["Low".to_string(), "High".to_string()];
    assert_eq!(trigger_label_text(&options, Some(1)), "High");
    assert_eq!(trigger_label_text(&options, Some(2)), "");
    assert_eq!(trigger_label_text(&options, None), "");
    assert_eq!(popup_click(Some(0)), Some(PopupAction::Selected(0)));
    assert_eq!(popup_click(None), None);
    assert_eq!(select_message(PopupAction::Selected(1)), Some(SelectChanged(1)));
    assert_eq!(select_message(PopupAction::Dismissed), None);
}

#[test]
fn the_result_flash_lasts_a_little_over_half_a_second() {
    assert!(!flash_over(Phase::Success, 550_000));
    assert!(flash_over(Phase::Success, 550_001));
    assert!(flash_over(Phase::Error, 2_000_000));
    assert!(!flash_over(Phase::Listening, 2_000_000));
    assert!(!flash_over(Phase::Thinking, 2_000_000));
    assert!(!flash_over(Phase::Hidden, 2_000_000));
}
