use kb_host::color::Hsv;
use kb_host::color::Hsva;
use kb_host::config::Config;
use kb_host::config::KBConfig;
use kb_host::config::QMKKey;
use kb_host::config::QMKLayout;
use kb_host::effects::BoundKey;
use kb_host::effects::LedState;
use kb_host::protocol::RAW_EPSIZE;
use kb_host::runtime::batch_rgb_messages;
use kb_host::runtime::diff_led_colors;
use kb_host::runtime::latest_state;
use kb_host::runtime::HIDThreadState;
use kb_host::runtime::LoopCore;

fn host_config() -> Config {
    Config {
        kb: String::from("kb"),
        layout: String::from("LAYOUT"),
        usage_page: 0xff60,
        usage: 0x61,
    }
}

fn two_key_config() -> KBConfig {
    let keys = vec![
        QMKKey { matrix: (0, 0), x_c: 0, y_c: 0 },
        QMKKey { matrix: (0, 1), x_c: 100, y_c: 0 },
    ];
    let matrix = vec![vec![0i16, 1i16]];
    KBConfig::new(host_config(), QMKLayout { layout: keys }, matrix)
        .expect("configuration is valid")
}

fn report(bytes: &[u8]) -> [u8; RAW_EPSIZE] {
    let mut buf = [0u8; RAW_EPSIZE];
    buf[..bytes.len()].copy_from_slice(bytes);
    buf
}

#[test]
fn config_derives_dimensions_and_led_count() {
    let cfg = two_key_config();
    assert_eq!(cfg.rows(), 1);
    assert_eq!(cfg.columns(), 2);
    assert_eq!(cfg.led_count(), 2);
}

#[test]
fn config_rejects_key_outside_led_map() {
    let keys = vec![QMKKey { matrix: (1, 0), x_c: 0, y_c: 0 }];
    let matrix = vec![vec![0i16]];
    assert!(KBConfig::new(host_config(), QMKLayout { layout: keys }, matrix).is_none());
}

#[test]
fn config_rejects_led_index_at_or_past_count() {
    let keys = vec![QMKKey { matrix: (0, 0), x_c: 0, y_c: 0 }];
    let matrix = vec![vec![5i16]];
    assert!(KBConfig::new(host_config(), QMKLayout { layout: keys }, matrix).is_none());
}

#[test]
fn config_accepts_unmapped_keys() {
    let keys = vec![
        QMKKey { matrix: (0, 0), x_c: 0, y_c: 0 },
        QMKKey { matrix: (0, 1), x_c: 100, y_c: 0 },
    ];
    let matrix = vec![vec![-1i16, 0i16]];
    let cfg = KBConfig::new(host_config(), QMKLayout { layout: keys }, matrix)
        .expect("configuration is valid");
    assert_eq!(cfg.led_count(), 1);
}

#[test]
fn first_frame_sends_one_batch_and_publishes_colors() {
    let cfg = two_key_config();
    let mut core = LoopCore::new(&cfg, 50_000, 0);

    let out = core.tick(50_000, None);

    // Two LEDs changed from default black to the rainbow: one report.
    assert_eq!(out.reports.len(), 1);
    assert_eq!(
        out.reports[0],
        vec![
            0x00, 0x6b, 0x73, 0x6b, 0x22, // header: two entries
            0, 255, 0, 0, // LED 0: phase 0 is pure red
            1, 255, 17, 0, // LED 1: 4 degrees into the first sextant
        ]
    );

    assert_eq!(out.snapshot.delta_update_us, 50_000);
    assert_eq!(out.snapshot.delta_frame_us, 50_000);
    assert_eq!(out.snapshot.layer_state, 0);
    assert_eq!(
        out.snapshot.led_state,
        vec![
            Hsva { hue_mdeg: 0, sat: 255, val: 255, alpha: 255 },
            Hsva { hue_mdeg: 4_000, sat: 255, val: 255, alpha: 255 },
        ]
    );
}

#[test]
fn tick_before_frame_interval_sends_nothing() {
    let cfg = two_key_config();
    let mut core = LoopCore::new(&cfg, 50_000, 0);
    let out = core.tick(10_000, None);
    assert!(out.reports.is_empty());
    // The frame delta still reports the configured interval it was
    // seeded with.
    assert_eq!(out.snapshot.delta_frame_us, 50_000);
    assert_eq!(out.snapshot.delta_update_us, 10_000);
}

#[test]
fn unchanged_frame_sends_nothing() {
    let cfg = two_key_config();
    // Frames every 10 microseconds: far below one millidegree of phase
    // movement per frame.
    let mut core = LoopCore::new(&cfg, 10, 0);
    let first = core.tick(10, None);
    assert_eq!(first.reports.len(), 1);
    // The next frame repaints the identical colors: nothing differs,
    // nothing is sent.
    let second = core.tick(20, None);
    assert!(second.reports.is_empty());
}

#[test]
fn press_report_mutates_the_matrix() {
    let cfg = two_key_config();
    let mut core = LoopCore::new(&cfg, 50_000, 0);
    let buf = report(&[0x6b, 0x73, 0x6b, 0x01, 0x2a, 0x00, 0x01, 0x00]);
    let out = core.tick(1_000, Some((buf, 8)));
    assert!(out.snapshot.matrix[0][1].is_pressed);
    assert_eq!(out.snapshot.matrix[0][1].last_down, Some(1_000));
    assert_eq!(out.snapshot.matrix[0][1].last_pressed, Some(1_000));
    assert!(!out.snapshot.matrix[0][0].is_pressed);
}

#[test]
fn out_of_bounds_press_is_dropped() {
    let cfg = two_key_config();
    let mut core = LoopCore::new(&cfg, 50_000, 0);
    let buf = report(&[0x6b, 0x73, 0x6b, 0x01, 0x2a, 0x00, 0x07, 0x09]);
    let out = core.tick(1_000, Some((buf, 8)));
    assert!(!out.snapshot.matrix[0][0].is_pressed);
    assert!(!out.snapshot.matrix[0][1].is_pressed);
}

#[test]
fn layer_report_replaces_layer_state() {
    let cfg = two_key_config();
    let mut core = LoopCore::new(&cfg, 50_000, 0);
    let buf = report(&[0x6b, 0x73, 0x6b, 0x10, 0x03]);
    let out = core.tick(1_000, Some((buf, 5)));
    assert_eq!(out.snapshot.layer_state, 3);
}

#[test]
fn malformed_report_changes_nothing() {
    let cfg = two_key_config();
    let mut core = LoopCore::new(&cfg, 50_000, 0);
    let buf = report(&[0xde, 0xad, 0xbe, 0xef, 0xff]);
    let out = core.tick(1_000, Some((buf, 5)));
    assert_eq!(out.snapshot.layer_state, 0);
    assert!(!out.snapshot.matrix[0][0].is_pressed);
    assert!(!out.snapshot.matrix[0][1].is_pressed);
}

#[test]
fn identical_tick_sequences_produce_identical_snapshots() {
    let cfg = two_key_config();
    let mut a = LoopCore::new(&cfg, 50_000, 0);
    let mut b = LoopCore::new(&cfg, 50_000, 0);
    let press = report(&[0x6b, 0x73, 0x6b, 0x01, 0x01, 0x00, 0x01, 0x00]);
    let ticks: Vec<(u64, Option<([u8; RAW_EPSIZE], usize)>)> = vec![
        (10_000, None),
        (20_000, Some((press, 8))),
        (60_000, None),
        (130_000, None),
    ];
    for (now, rep) in ticks {
        let oa = a.tick(now, rep);
        let ob = b.tick(now, rep);
        assert_eq!(oa.reports, ob.reports);
        assert_eq!(oa.snapshot.led_state, ob.snapshot.led_state);
        assert_eq!(oa.snapshot.matrix, ob.snapshot.matrix);
        assert_eq!(oa.snapshot.delta_frame_us, ob.snapshot.delta_frame_us);
        assert_eq!(oa.snapshot.delta_update_us, ob.snapshot.delta_update_us);
        assert_eq!(oa.snapshot.layer_state, ob.snapshot.layer_state);
    }
}

fn color(hue_mdeg: u32) -> Hsva {
    Hsva { hue_mdeg, sat: 255, val: 255, alpha: 255 }
}

#[test]
fn diff_collects_changed_indices_with_premultiplied_colors() {
    let pre = vec![
        LedState { color: color(0), key: None },
        LedState { color: color(1_000), key: None },
        LedState { color: color(2_000), key: None },
    ];
    let mut post = pre.clone();
    post[0].color = Hsva { hue_mdeg: 5_000, sat: 10, val: 100, alpha: 255 };
    post[2].color = Hsva { hue_mdeg: 6_000, sat: 20, val: 100, alpha: 127 };
    let changes = diff_led_colors(&pre, &post);
    assert_eq!(
        changes,
        vec![
            (0, Hsv { hue_mdeg: 5_000, sat: 10, val: 100 }),
            // alpha folds into the value channel, truncated.
            (2, Hsv { hue_mdeg: 6_000, sat: 20, val: 49 }),
        ]
    );
}

#[test]
fn fifteen_changes_batch_into_seven_seven_one() {
    let changes: Vec<(u8, Hsv)> = (0u8..15)
        .map(|i| (i, Hsv { hue_mdeg: i as u32 * 1000, sat: 255, val: 255 }))
        .collect();
    let batches = batch_rgb_messages(&changes);
    assert_eq!(batches.len(), 3);
    assert_eq!(batches[0].colors.len(), 7);
    assert_eq!(batches[1].colors.len(), 7);
    assert_eq!(batches[2].colors.len(), 1);
    // Concatenated, the batches cover every change exactly once, in order.
    let flat: Vec<(u8, Hsv)> = batches.iter().flat_map(|b| b.colors.clone()).collect();
    assert_eq!(flat, changes);
}

#[test]
fn seven_changes_fit_one_batch() {
    let changes: Vec<(u8, Hsv)> = (0u8..7)
        .map(|i| (i, Hsv { hue_mdeg: 0, sat: 0, val: i }))
        .collect();
    let batches = batch_rgb_messages(&changes);
    assert_eq!(batches.len(), 1);
    assert_eq!(batches[0].colors, changes);
}

#[test]
fn no_changes_batch_into_no_reports() {
    let batches = batch_rgb_messages(&Vec::new());
    assert!(batches.is_empty());
}

fn snapshot_with_layer(layer_state: u8) -> HIDThreadState {
    HIDThreadState {
        delta_update_us: 0,
        delta_frame_us: 0,
        matrix: Vec::new(),
        led_state: Vec::new(),
        layer_state,
    }
}

#[test]
fn latest_state_keeps_only_the_newest() {
    let drained = vec![snapshot_with_layer(1), snapshot_with_layer(2), snapshot_with_layer(3)];
    let last = latest_state(drained).expect("non-empty drain yields a state");
    assert_eq!(last.layer_state, 3);
}

#[test]
fn latest_state_of_nothing_is_none() {
    assert!(latest_state(Vec::new()).is_none());
}

#[test]
fn loop_core_binds_leds_to_their_keys() {
    let cfg = two_key_config();
    let core = LoopCore::new(&cfg, 50_000, 0);
    assert_eq!(core.led_state.len(), 2);
    assert_eq!(
        core.led_state[1].key,
        Some(BoundKey { row: 0, col: 1, x_c: 100, y_c: 0 })
    );
}
