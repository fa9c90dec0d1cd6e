use caliban::app::{App, Startup};
use caliban::ask::subprompt_parts;
use caliban::layout::centered_rect;
use caliban::overlay::ask_modal::{ask_modal_action_lines, ask_modal_parts};
use caliban::overlay::page::overlay_area;
use caliban::overlay::settings::ProviderKind;
use caliban::overlay::Overlay;
use caliban::render::render;
use caliban::render::status::StatusInfo;
use caliban::style::wrapped_height;
use caliban::types::{PermissionMode, Rect};

const NOW: u64 = 1_000_000;

fn fresh_app() -> App {
    App::new(
        Startup {
            session: None,
            session_store: true,
            no_save: false,
            cwd: "/ws".into(),
            system_prompt: None,
            plan_mode: false,
            permission_mode: PermissionMode::Default,
            bypass_latch: false,
            saved_history: Vec::new(),
            input_history_path: None,
            projects_root: None,
            esc_window_ms: 500,
        },
        NOW,
    )
}

fn status_info() -> StatusInfo {
    StatusInfo {
        provider: ProviderKind::Anthropic,
        model: "mock".into(),
        below_home: None,
        context: None,
    }
}

/// Where a share of the middle starts and how long it is, in so many cells.
fn middle(percent: u16, len: u16) -> (u16, u16) {
    let side = u32::from((100 - percent) / 2);
    let from = (u32::from(len) * side + 50) / 100;
    let to = (u32::from(len) * (side + u32::from(percent)) + 50) / 100;
    (from as u16, (to - from) as u16)
}

#[test]
fn shares_are_rounded_to_the_nearest_cell() {
    for percent in [0, 1, 33, 50, 70, 75, 80, 99, 100] {
        for len in 0..=260 {
            let r = Rect { x: 3, y: 7, width: len, height: len / 2 };
            let (x, width) = middle(percent, len);
            let (y, height) = middle(percent, len / 2);
            assert_eq!(
                centered_rect(percent, percent, r),
                Rect { x: 3 + x, y: 7 + y, width, height },
                "{percent} percent of {len}",
            );
        }
    }
}

#[test]
fn large_areas_are_shared_too() {
    for len in [999, 4096, 12_345, 40_000, 65_535] {
        let r = Rect { x: 0, y: 0, width: len, height: len };
        let (x, width) = middle(80, len);
        assert_eq!(centered_rect(80, 80, r), Rect { x, y: x, width, height: width });
    }
    // The area ends with the last cell that can be counted.
    let r = Rect { x: 65_000, y: 0, width: 1000, height: 10 };
    let (x, width) = middle(50, 535);
    let part = centered_rect(50, 50, r);
    assert_eq!((part.x, part.width), (65_000 + x, width));
}

#[test]
fn overlays_take_their_share() {
    let screen = Rect { x: 0, y: 0, width: 101, height: 43 };
    let app = fresh_app();
    let (x, width) = middle(80, 101);
    let (y, height) = middle(80, 43);
    assert_eq!(overlay_area(Overlay::Config, &app, screen), Rect { x, y, width, height });
    let (x, width) = middle(70, 101);
    let (y, height) = middle(50, 43);
    assert_eq!(overlay_area(Overlay::ReverseHistory, &app, screen), Rect { x, y, width, height });
}

#[test]
fn the_parts_fill_the_screen() {
    for height in 4..=120 {
        let mut app = fresh_app();
        let screen = Rect { x: 2, y: 5, width: 80, height };
        let (areas, _) = render(&mut app, screen, &status_info(), NOW);
        let rows: Vec<(u16, u16)> = areas.iter().map(|a| (a.y - 5, a.height)).collect();
        let top = height - 4;
        assert_eq!(
            rows,
            vec![(0, top), (top, 1), (top + 1, 0), (top + 1, 1), (top + 2, 1), (top + 3, 1)],
        );
        assert!(areas.iter().all(|a| a.x == 2 && a.width == 80));
    }
}

#[test]
fn a_long_prompt_and_the_strip_have_their_rows() {
    let mut app = fresh_app();
    app.input.set_buffer("one\ntwo\nthree".into());
    app.queued.push_back("later".into());
    let screen = Rect { x: 0, y: 0, width: 80, height: 30 };
    let (areas, _) = render(&mut app, screen, &status_info(), NOW);
    let rows: Vec<(u16, u16)> = areas.iter().map(|a| (a.y, a.height)).collect();
    assert_eq!(rows, vec![(0, 23), (23, 1), (24, 1), (25, 3), (28, 1), (29, 1)]);
}

#[test]
fn the_answers_have_their_rows() {
    for height in 10..=60 {
        let inner = Rect { x: 1, y: 1, width: 60, height };
        let rows = wrapped_height(&ask_modal_action_lines(Some(0)), 60);
        let (asked, answers) = ask_modal_parts(0, inner);
        if rows < height {
            assert_eq!(asked, Rect { height: height - rows, ..inner });
            assert_eq!(answers, Rect { y: 1 + height - rows, height: rows, ..inner });
        }
    }
}

#[test]
fn the_subprompt_keeps_its_footer_at_the_bottom() {
    for height in 20..=70 {
        let inner = Rect { x: 0, y: 0, width: 60, height };
        let parts = subprompt_parts(inner, "one line", 2);
        let rows: Vec<(u16, u16)> = parts.iter().map(|a| (a.y, a.height)).collect();
        assert_eq!(
            rows,
            vec![
                (0, 3),
                (3, 1),
                (4, 5),
                (9, 1),
                (10, 5),
                (15, 1),
                (16, 2),
                (18, height - 19),
                (height - 1, 1),
            ],
        );
    }
}
