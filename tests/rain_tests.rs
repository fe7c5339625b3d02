use rand::rngs::StdRng;
use rand::SeedableRng;
use tiny_terminal::config::Config;
use tiny_terminal::rain::{
    after_poll, frame_budget_millis, glyphs_of, is_cancel, new_drop, pacing_delay, pick_glyph,
    resolved_columns, spawn_count, Cell, KeyPress, LoopState, Rain, RainDrop,
};

fn cfg(column_width: u16, density_milli: u32) -> Config {
    Config {
        fps: 60,
        column_width,
        density_milli,
        charset: "AB".to_string(),
        green: false,
    }
}

#[test]
fn columns_never_below_one() {
    assert_eq!(resolved_columns(0, 2), 1);
    assert_eq!(resolved_columns(1, 2), 1);
    assert_eq!(resolved_columns(80, 2), 40);
    assert_eq!(resolved_columns(80, 0), 80);
    assert_eq!(resolved_columns(7, 3), 2);
    assert_eq!(resolved_columns(65535, 1), 65535);
}

#[test]
fn spawn_count_is_ceiling_of_product() {
    assert_eq!(spawn_count(40, 1000), 40);
    assert_eq!(spawn_count(40, 1500), 60);
    assert_eq!(spawn_count(3, 100), 1);
    assert_eq!(spawn_count(10, 250), 3);
    assert_eq!(spawn_count(7, 0), 0);
    assert_eq!(spawn_count(65535, u32::MAX), 281_470_681_678);
}

#[test]
fn frame_budget_and_pacing() {
    assert_eq!(frame_budget_millis(60), 16);
    assert_eq!(frame_budget_millis(0), 1000);
    assert_eq!(frame_budget_millis(1), 1000);
    assert_eq!(frame_budget_millis(2000), 0);
    assert_eq!(pacing_delay(4, 16), 12);
    assert_eq!(pacing_delay(16, 16), 0);
    assert_eq!(pacing_delay(30, 16), 0);
}

#[test]
fn cancel_keys_end_the_loop() {
    let none = None;
    assert!(is_cancel(KeyPress::Char { c: 'q', ctrl: false }, none));
    assert!(is_cancel(KeyPress::Esc, none));
    assert!(is_cancel(KeyPress::Char { c: 'c', ctrl: true }, none));
    assert!(!is_cancel(KeyPress::Char { c: 'c', ctrl: false }, none));
    assert!(is_cancel(KeyPress::Char { c: 'x', ctrl: false }, Some('x')));
    assert!(!is_cancel(KeyPress::Char { c: 'y', ctrl: false }, Some('x')));
    assert!(!is_cancel(KeyPress::Other, Some('x')));
    assert_eq!(after_poll(Some(KeyPress::Esc), None), LoopState::Terminated);
    assert_eq!(after_poll(Some(KeyPress::Char { c: 'a', ctrl: false }), None), LoopState::Running);
    assert_eq!(after_poll(None, Some('a')), LoopState::Running);
    assert_eq!(after_poll(Some(KeyPress::Char { c: 'a', ctrl: false }), Some('a')), LoopState::Terminated);
}

#[test]
fn new_drop_from_draws() {
    let d = new_drop(3, 0, 2, 2);
    assert_eq!(d, RainDrop { column: 6, row: -1, fall_speed: 3 });
    let e = new_drop(4, 9, 0, 0);
    assert_eq!(e, RainDrop { column: 4, row: -10, fall_speed: 1 });
}

#[test]
fn glyphs_follow_charset() {
    assert_eq!(glyphs_of("ｱb1"), vec!['ｱ', 'b', '1']);
    assert!(glyphs_of("").is_empty());
    let mut rng = StdRng::seed_from_u64(7);
    let glyphs = vec!['x', 'y'];
    for _ in 0..50 {
        let g = pick_glyph(&glyphs, &mut rng);
        assert!(g == 'x' || g == 'y');
    }
    assert_eq!(pick_glyph(&Vec::new(), &mut rng), '.');
}

#[test]
fn resize_clears_and_same_size_keeps() {
    let mut rain = Rain::new();
    assert!(rain.observe_size(80, 24));
    rain.drops.push(RainDrop { column: 0, row: 3, fall_speed: 1 });
    assert!(!rain.observe_size(80, 24));
    assert_eq!(rain.drops.len(), 1);
    assert!(rain.observe_size(81, 24));
    assert!(rain.drops.is_empty());
    assert_eq!((rain.width, rain.height), (81, 24));
}

#[test]
fn seeding_adds_the_expected_fresh_drops() {
    let mut rain = Rain::new();
    rain.observe_size(20, 10);
    let mut rng = StdRng::seed_from_u64(1);
    let c = cfg(2, 1500);
    rain.seed(&c, &mut rng);
    assert_eq!(rain.drops.len(), 15);
    for d in &rain.drops {
        assert!(d.column % 2 == 0 && d.column < 20);
        assert!(d.row < 0 && d.row >= -10);
        assert!((1..=3).contains(&d.fall_speed));
    }
}

#[test]
fn cull_boundary() {
    let mut rain = Rain::new();
    rain.observe_size(10, 10);
    rain.drops = vec![
        RainDrop { column: 0, row: 15, fall_speed: 1 },
        RainDrop { column: 2, row: 14, fall_speed: 1 },
        RainDrop { column: 4, row: -3, fall_speed: 2 },
        RainDrop { column: 6, row: 17, fall_speed: 3 },
    ];
    rain.cull();
    assert_eq!(
        rain.drops,
        vec![
            RainDrop { column: 2, row: 14, fall_speed: 1 },
            RainDrop { column: 4, row: -3, fall_speed: 2 },
        ]
    );
}

#[test]
fn advance_draws_only_visible_rows() {
    let mut rain = Rain::new();
    rain.observe_size(10, 5);
    rain.drops = vec![
        RainDrop { column: 0, row: -3, fall_speed: 1 },
        RainDrop { column: 2, row: -1, fall_speed: 2 },
        RainDrop { column: 4, row: 4, fall_speed: 1 },
        RainDrop { column: 6, row: 2, fall_speed: 3 },
    ];
    let mut rng = StdRng::seed_from_u64(3);
    let cells = rain.advance(&vec!['z'], &mut rng);
    assert_eq!(cells, vec![Cell { column: 2, row: 1, glyph: 'z' }]);
    assert_eq!(rain.drops[0].row, -2);
    assert_eq!(rain.drops[1].row, 1);
    assert_eq!(rain.drops[2].row, 5);
    assert_eq!(rain.drops[3].row, 5);
}

#[test]
fn frame_runs_all_phases() {
    let mut rain = Rain::new();
    let mut rng = StdRng::seed_from_u64(11);
    let c = cfg(1, 1000);
    let glyphs = glyphs_of("AB");
    let f = rain.frame(&c, &glyphs, 4, 3, &mut rng);
    assert!(f.clear_screen);
    assert_eq!(rain.drops.len(), 4);
    for cell in &f.cells {
        assert!(cell.row < 3 && cell.column < 4);
        assert!(cell.glyph == 'A' || cell.glyph == 'B');
    }
    let g = rain.frame(&c, &glyphs, 4, 3, &mut rng);
    assert!(!g.clear_screen);
    assert!(rain.drops.len() >= 4);
    for d in &rain.drops {
        assert!(d.row < 3 + 5);
    }
}
