use corsair_top::layout::{max_pages, pages_section_height, rail_label};
use corsair_top::monitor::{poll_due, poll_timeout_nanos};
use corsair_top::linear11::Linear11;
use corsair_top::monitor::{any_ax1600i, push_window, App, Key, Sample, HISTORY_LEN};
use corsair_top::readings::{Config, FanMode, PsuReadings};

fn reading(name: &str) -> PsuReadings {
    let z = Linear11 { mantissa: 0, exponent: 0 };
    PsuReadings {
        bus: 0,
        address: 0,
        name: name.to_string(),
        input_voltage: z,
        input_current: z,
        input_power_raw: z,
        cable_type_20a: false,
        fan_mode: FanMode::Auto,
        rails: Vec::new(),
        twelve_v_pages: Vec::new(),
        temp1: z,
        temp2: z,
        fan_speed: z,
        uptime_seconds: 0,
    }
}

#[test]
fn config_default_device() {
    let c = Config::default();
    assert_eq!(c.device_paths, vec!["/dev/ttyUSB0".to_string()]);
}

#[test]
fn new_app_state() {
    let app: App<f64> = App::new(2);
    assert_eq!(app.power_history.len(), 2);
    assert_eq!(app.temp_history.len(), 2);
    assert_eq!(app.fan_history.len(), 2);
    assert!(app.power_history.iter().all(|h| h.is_empty()));
    assert!(app.total_power_history.is_empty());
    assert!(app.readings.is_empty());
    assert_eq!(app.tick_rate_ms, 1000);
    assert_eq!(app.tick_count, 0);
    assert!(!app.should_quit);
    assert!(!app.is_ax1600i);
}

#[test]
fn tick_rate_bounds() {
    let mut app: App<f64> = App::new(1);
    for _ in 0..10 {
        app.increase_tick_rate();
    }
    assert_eq!(app.tick_rate_ms, 250);
    for _ in 0..30 {
        app.decrease_tick_rate();
    }
    assert_eq!(app.tick_rate_ms, 5000);
}

#[test]
fn tick_rate_steps_undo() {
    let mut app: App<f64> = App::new(1);
    app.increase_tick_rate();
    assert_eq!(app.tick_rate_ms, 750);
    app.decrease_tick_rate();
    assert_eq!(app.tick_rate_ms, 1000);
}

#[test]
fn keys() {
    let mut app: App<f64> = App::new(1);
    app.handle_key(Key::Char('+'));
    assert_eq!(app.tick_rate_ms, 750);
    app.handle_key(Key::Char('='));
    assert_eq!(app.tick_rate_ms, 500);
    app.handle_key(Key::Char('-'));
    assert_eq!(app.tick_rate_ms, 750);
    app.handle_key(Key::Char('x'));
    app.handle_key(Key::Other);
    assert_eq!(app.tick_rate_ms, 750);
    assert!(!app.should_quit);
    app.handle_key(Key::Char('Q'));
    assert!(app.should_quit);
    let mut app2: App<f64> = App::new(1);
    app2.handle_key(Key::Esc);
    assert!(app2.should_quit);
    let mut app3: App<f64> = App::new(1);
    app3.handle_key(Key::Char('q'));
    assert!(app3.should_quit);
}

#[test]
fn window_keeps_last_sixty() {
    let mut h: Vec<u32> = Vec::new();
    for x in 0..100u32 {
        push_window(&mut h, x);
        assert!(h.len() <= HISTORY_LEN);
    }
    assert_eq!(h, (40..100u32).collect::<Vec<_>>());
}

#[test]
fn update_histories() {
    let mut app: App<f64> = App::new(2);
    for t in 0..70 {
        let readings = vec![reading("AX1600i"), reading("AX1600i"), reading("extra")];
        let samples = vec![
            Sample { power: t as f64, temp: 30.0, fan: 0.0 },
            Sample { power: 2.0 * t as f64, temp: 40.0, fan: 500.0 },
            Sample { power: 7.0, temp: 1.0, fan: 1.0 },
        ];
        app.update(readings, samples, 3.0 * t as f64 + 7.0);
    }
    assert_eq!(app.tick_count, 70);
    assert_eq!(app.readings.len(), 3);
    assert_eq!(app.power_history.len(), 2);
    assert_eq!(app.power_history[0].len(), 60);
    assert_eq!(app.power_history[0][0], 10.0);
    assert_eq!(app.power_history[0][59], 69.0);
    assert_eq!(app.power_history[1][59], 138.0);
    assert_eq!(app.temp_history[1][0], 40.0);
    assert_eq!(app.fan_history[1][5], 500.0);
    assert_eq!(app.total_power_history.len(), 60);
    assert_eq!(app.total_power_history[59], 3.0 * 69.0 + 7.0);
}

#[test]
fn update_with_fewer_readings() {
    let mut app: App<f64> = App::new(2);
    app.update(vec![reading("a")], vec![Sample { power: 5.0, temp: 1.0, fan: 2.0 }], 5.0);
    assert_eq!(app.power_history[0], vec![5.0]);
    assert!(app.power_history[1].is_empty());
    assert_eq!(app.total_power_history, vec![5.0]);
}

#[test]
fn model_detection() {
    assert!(any_ax1600i(&vec![reading("AX1500i"), reading("Corsair AX1600i")]));
    assert!(!any_ax1600i(&vec![reading("AX1500i")]));
    assert!(!any_ax1600i(&vec![]));
    let mut app: App<f64> = App::new(1);
    app.detect_model(&vec![reading("AX1600i")]);
    assert!(app.is_ax1600i);
}

#[test]
fn tick_rate_clamps_to_limits() {
    let mut app: App<f64> = App::new(1);
    app.tick_rate_ms = 300;
    app.increase_tick_rate();
    assert_eq!(app.tick_rate_ms, 250);
    app.tick_rate_ms = 4900;
    app.decrease_tick_rate();
    assert_eq!(app.tick_rate_ms, 5000);
    app.tick_rate_ms = 100;
    app.increase_tick_rate();
    assert_eq!(app.tick_rate_ms, 100);
    app.tick_rate_ms = 6000;
    app.decrease_tick_rate();
    assert_eq!(app.tick_rate_ms, 6000);
    app.tick_rate_ms = 6000;
    app.increase_tick_rate();
    assert_eq!(app.tick_rate_ms, 5750);
}

#[test]
fn update_with_longer_temp_and_fan_histories() {
    let mut app: App<f64> = App::new(1);
    app.temp_history.push(vec![9.0]);
    app.fan_history.push(Vec::new());
    let samples = vec![
        Sample { power: 1.0, temp: 2.0, fan: 3.0 },
        Sample { power: 4.0, temp: 5.0, fan: 6.0 },
    ];
    app.update(vec![reading("a"), reading("b")], samples, 5.0);
    assert_eq!(app.power_history, vec![vec![1.0]]);
    assert_eq!(app.temp_history, vec![vec![2.0], vec![9.0]]);
    assert_eq!(app.fan_history, vec![vec![3.0], vec![]]);
}

#[test]
fn poll_timing() {
    assert!(!poll_due(1000, 999_999_999));
    assert!(poll_due(1000, 1_000_000_000));
    assert_eq!(poll_timeout_nanos(1000, 250_000_000), 750_000_000);
    assert_eq!(poll_timeout_nanos(250, 300_000_000), 0);
    assert_eq!(poll_timeout_nanos(250, 250_000_000), 0);
}

#[test]
fn layout_helpers() {
    let mut a = reading("a");
    a.twelve_v_pages = vec![
        corsair_top::readings::TwelveVPageReadings {
            page: 0,
            voltage: Linear11 { mantissa: 0, exponent: 0 },
            current: Linear11 { mantissa: 0, exponent: 0 },
            power: Linear11 { mantissa: 0, exponent: 0 },
            ocp_limit: Linear11 { mantissa: 0, exponent: 0 },
        };
        12
    ];
    assert_eq!(max_pages(&vec![reading("x"), a, reading("y")]), 12);
    assert_eq!(max_pages(&vec![]), 0);
    assert_eq!(pages_section_height(0), 0);
    assert_eq!(pages_section_height(12), 15);
    assert_eq!(pages_section_height(65534), 65535);
    assert_eq!(rail_label(0), "12V ");
    assert_eq!(rail_label(1), " 5V ");
    assert_eq!(rail_label(2), "3.3V");
    assert_eq!(rail_label(3), "????");
}

#[test]
fn new_app_history_counts() {
    let app: App<f64> = App::new(3);
    assert_eq!(app.temp_history.len(), 3);
    assert_eq!(app.fan_history.len(), 3);
}

#[test]
fn update_full_history_drops_oldest() {
    let mut a: App<f64> = App::new(1);
    a.power_history = vec![(0..60).map(|k| k as f64).collect()];
    let rs = vec![reading("AX1600i")];
    a.update(rs, vec![Sample { power: 60.0, temp: 40.0, fan: 900.0 }], 60.0);
    assert_eq!(a.power_history, vec![(1..=60).map(|k| k as f64).collect::<Vec<f64>>()]);
    assert_eq!(a.temp_history, vec![vec![40.0]]);
    assert_eq!(a.fan_history, vec![vec![900.0]]);
    assert_eq!(a.total_power_history, vec![60.0]);
    assert_eq!(a.tick_count, 1);
    assert_eq!(a.readings.len(), 1);
}

#[test]
fn update_with_short_unreached_histories() {
    let mut a: App<f64> = App::new(2);
    a.temp_history.truncate(1);
    a.fan_history.truncate(1);
    a.update(vec![reading("a")], vec![Sample { power: 1.0, temp: 2.0, fan: 3.0 }], 1.0);
    assert_eq!(a.power_history, vec![vec![1.0], vec![]]);
    assert_eq!(a.temp_history, vec![vec![2.0]]);
    assert_eq!(a.fan_history, vec![vec![3.0]]);
}
