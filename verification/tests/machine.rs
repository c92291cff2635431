use halpid::config::Config;
use halpid::machine::{DaemonState, StateMachine, TickEvent};

/// Drive one simulated tick: the event the device operation of the current
/// state would have produced, at 100 ms per tick.
fn drive(m: &mut StateMachine, cfg: &Config, now_ms: u64, vin_uv: u32) -> bool {
    let ev = match m.state() {
        DaemonState::Start => TickEvent::WatchdogArmed,
        DaemonState::PowerOk | DaemonState::Blackout => TickEvent::Voltage { microvolts: vin_uv },
        DaemonState::Shutdown => TickEvent::ShutdownRequested,
        DaemonState::Dead => TickEvent::Idle,
    };
    m.step(ev, now_ms, cfg)
}

#[test]
fn test_clean_boot_normal_power() {
    // V_in 12.0 V, threshold 9.0 V, time limit 5 s: after 10 ticks the
    // machine is in normal operation and nothing was spawned.
    let cfg = Config::default();
    let mut m = StateMachine::new();
    assert_eq!(m.state(), DaemonState::Start);
    let mut spawned = 0;
    for tick in 0..10u64 {
        if drive(&mut m, &cfg, tick * 100, 12_000_000) {
            spawned += 1;
        }
    }
    assert_eq!(m.state(), DaemonState::PowerOk);
    assert_eq!(spawned, 0);
}

#[test]
fn test_glitch_rejected() {
    // 12 V for 10 ticks, 8 V for 30 ticks (3 s, below the threshold but
    // within the 5 s limit), then 12 V again: the machine ends in normal
    // operation, shutdown is never entered.
    let cfg = Config::default();
    let mut m = StateMachine::new();
    let mut now: u64 = 0;
    let mut spawned = 0;
    for _ in 0..10 {
        if drive(&mut m, &cfg, now, 12_000_000) {
            spawned += 1;
        }
        assert!(m.state() != DaemonState::Shutdown && m.state() != DaemonState::Dead);
        now += 100;
    }
    for _ in 0..30 {
        if drive(&mut m, &cfg, now, 8_000_000) {
            spawned += 1;
        }
        assert!(m.state() != DaemonState::Shutdown && m.state() != DaemonState::Dead);
        now += 100;
    }
    assert_eq!(m.state(), DaemonState::Blackout);
    for _ in 0..5 {
        if drive(&mut m, &cfg, now, 12_000_000) {
            spawned += 1;
        }
        now += 100;
    }
    assert_eq!(m.state(), DaemonState::PowerOk);
    assert_eq!(spawned, 0);
}

#[test]
fn test_sustained_blackout() {
    // 12 V, then 8 V for good: at about 5.0 s after the drop the machine
    // enters Shutdown, spawns the poweroff command exactly once, and is
    // Dead within one further tick.
    let cfg = Config::default();
    let mut m = StateMachine::new();
    let mut now: u64 = 0;
    let mut spawned = 0;
    let mut shutdown_at: Option<u64> = None;
    let mut blackout_at: Option<u64> = None;
    for _ in 0..100 {
        if drive(&mut m, &cfg, now, if now < 1000 { 12_000_000 } else { 8_000_000 }) {
            spawned += 1;
        }
        if m.state() == DaemonState::Blackout && blackout_at.is_none() {
            blackout_at = Some(now);
        }
        if m.state() == DaemonState::Shutdown && shutdown_at.is_none() {
            shutdown_at = Some(now);
            // one further tick reaches Dead
            now += 100;
            if drive(&mut m, &cfg, now, 8_000_000) {
                spawned += 1;
            }
            assert_eq!(m.state(), DaemonState::Dead);
        }
        now += 100;
    }
    let t_blackout = blackout_at.expect("blackout never detected");
    let t_shutdown = shutdown_at.expect("shutdown never entered");
    // Strictly more than the 5 s limit after the blackout began, and by no
    // more than one tick.
    assert!(t_shutdown - t_blackout > 5000);
    assert!(t_shutdown - t_blackout <= 5200);
    assert_eq!(spawned, 1);
    assert_eq!(m.state(), DaemonState::Dead);
}

#[test]
fn test_blackout_threshold_is_strict() {
    // A reading exactly at the voltage limit triggers nothing, in either
    // direction.
    let cfg = Config::default();
    let mut m = StateMachine::new();
    drive(&mut m, &cfg, 0, 12_000_000); // Start -> PowerOk
    m.step(TickEvent::Voltage { microvolts: 9_000_000 }, 100, &cfg);
    assert_eq!(m.state(), DaemonState::PowerOk);

    m.step(TickEvent::Voltage { microvolts: 8_999_999 }, 200, &cfg);
    assert_eq!(m.state(), DaemonState::Blackout);
    // Exactly at the limit: neither resumes nor counts as restored.
    m.step(TickEvent::Voltage { microvolts: 9_000_000 }, 300, &cfg);
    assert_eq!(m.state(), DaemonState::Blackout);
    m.step(TickEvent::Voltage { microvolts: 9_000_001 }, 400, &cfg);
    assert_eq!(m.state(), DaemonState::PowerOk);
}

#[test]
fn test_io_error_leaves_state_alone() {
    let cfg = Config::default();
    let mut m = StateMachine::new();
    m.step(TickEvent::IoFailed, 0, &cfg);
    assert_eq!(m.state(), DaemonState::Start);
    m.step(TickEvent::WatchdogArmed, 100, &cfg);
    assert_eq!(m.state(), DaemonState::PowerOk);
    m.step(TickEvent::IoFailed, 200, &cfg);
    assert_eq!(m.state(), DaemonState::PowerOk);
}

#[test]
fn test_dead_is_terminal() {
    let cfg = Config::default();
    let mut m = StateMachine::new();
    let mut now: u64 = 0;
    // Run into Dead through a sustained blackout.
    while m.state() != DaemonState::Dead {
        drive(&mut m, &cfg, now, 0);
        now += 100;
        assert!(now < 100_000);
    }
    // No event moves the machine out of Dead, and nothing is spawned.
    let events = [
        TickEvent::WatchdogArmed,
        TickEvent::Voltage { microvolts: 12_000_000 },
        TickEvent::ShutdownRequested,
        TickEvent::IoFailed,
        TickEvent::Idle,
    ];
    for ev in events {
        let spawn = m.step(ev, now, &cfg);
        assert!(!spawn);
        assert_eq!(m.state(), DaemonState::Dead);
        now += 100;
    }
}

#[test]
fn test_empty_poweroff_is_dry_run() {
    let cfg = Config {
        poweroff: String::new(),
        ..Default::default()
    };
    let mut m = StateMachine::new();
    m.step(TickEvent::WatchdogArmed, 0, &cfg);
    m.step(TickEvent::Voltage { microvolts: 0 }, 100, &cfg);
    assert_eq!(m.state(), DaemonState::Blackout);
    m.step(TickEvent::Voltage { microvolts: 0 }, 5201, &cfg);
    assert_eq!(m.state(), DaemonState::Shutdown);
    let spawn = m.step(TickEvent::ShutdownRequested, 5301, &cfg);
    assert!(!spawn);
    assert_eq!(m.state(), DaemonState::Dead);
}
