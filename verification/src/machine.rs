//! Power-management state machine.
//!
//! A five-state machine driven at 10 Hz: Start arms the hardware watchdog,
//! PowerOk watches the input voltage, Blackout waits out a glitch or times out
//! into Shutdown, Shutdown asks the controller to power down and hands the
//! poweroff command to the caller, and Dead does nothing at all - starving
//! the watchdog on purpose so the controller cuts power even if the host
//! hangs.
//!
//! The transition function is pure: one `step` consumes what the tick's
//! device operation observed and yields the next state. The surrounding
//! loop (the timer, the device lock) lives in the application crate.

use vstd::prelude::*;

use crate::bus::{Tx, tx_is_write, tx_reg};
use crate::config::Config;
use crate::device::{spec_logged_analog_read, spec_measurement_reg, spec_wrote};

verus! {

/// Watchdog timeout armed at Start, in milliseconds. It must strictly
/// exceed the worst-case interval between polls, since polling is what
/// feeds the watchdog.
pub const WATCHDOG_TIMEOUT_MS: u16 = 10000;

/// State machine polling interval, in milliseconds.
pub const STATE_MACHINE_POLL_INTERVAL_MS: u64 = 100;

/// The watchdog timeout written at Start strictly exceeds the polling
/// interval, so a healthy polling loop always feeds the watchdog in time.
pub proof fn lemma_watchdog_timeout_exceeds_poll_interval()
    ensures
        WATCHDOG_TIMEOUT_MS > STATE_MACHINE_POLL_INTERVAL_MS,
{
}

/// Daemon state machine states.
#[derive(Debug, Clone, Copy, PartialEq, Eq, Structural)]
pub enum DaemonState {
    /// Initial state: arming the watchdog
    Start,
    /// Normal operation: monitoring for blackout
    PowerOk,
    /// Blackout detected: waiting for power restoration or timeout
    Blackout,
    /// Shutdown sequence initiated
    Shutdown,
    /// Waiting for power loss after shutdown; terminal
    Dead,
}

/// What the device operation of one tick observed.
#[derive(Debug, Clone, Copy, PartialEq, Eq, Structural)]
pub enum TickEvent {
    /// Start: the watchdog-timeout write succeeded
    WatchdogArmed,
    /// PowerOk or Blackout: the measurements read succeeded with this DC input
    /// voltage, in microvolts
    Voltage { microvolts: u32 },
    /// Shutdown: the shutdown request reached the controller
    ShutdownRequested,
    /// The device operation of this tick failed; the state is left alone
    /// and the next tick retries
    IoFailed,
    /// Dead: nothing was done
    Idle,
}

/// Milliseconds elapsed since `start`, zero if the clock ran backwards.
pub open spec fn spec_elapsed_ms(now: u64, start: u64) -> u64 {
    if now >= start { (now - start) as u64 } else { 0 }
}

/// The transition function of the state machine.
///
/// Arguments are the current state, the blackout start time (set exactly in
/// Blackout), the event the tick observed, the current time, and the
/// configured blackout limits with the emptiness of the poweroff command.
/// The result is the next state, the next blackout start time, and whether
/// the caller must spawn the poweroff command now.
///
/// Blackout entry is strictly below the voltage limit, resumption strictly
/// above it, and the timeout strictly beyond the time limit: a value
/// exactly at a threshold keeps the current state. A failed device
/// operation changes nothing. Dead is terminal.
pub open spec fn spec_step(
    s: DaemonState,
    bs: Option<u64>,
    ev: TickEvent,
    now_ms: u64,
    time_limit_ms: u64,
    voltage_limit_uv: u32,
    poweroff_empty: bool,
) -> (DaemonState, Option<u64>, bool) {
    match s {
        DaemonState::Start => {
            if ev is WatchdogArmed { (DaemonState::PowerOk, bs, false) } else { (s, bs, false) }
        },
        DaemonState::PowerOk => {
            match ev {
                TickEvent::Voltage { microvolts } => {
                    if microvolts < voltage_limit_uv {
                        (DaemonState::Blackout, Some(now_ms), false)
                    } else {
                        (s, bs, false)
                    }
                },
                _ => (s, bs, false),
            }
        },
        DaemonState::Blackout => {
            match ev {
                TickEvent::Voltage { microvolts } => {
                    if microvolts > voltage_limit_uv {
                        (DaemonState::PowerOk, None, false)
                    } else if bs matches Some(start) && spec_elapsed_ms(now_ms, start) > time_limit_ms {
                        (DaemonState::Shutdown, None, false)
                    } else {
                        (s, bs, false)
                    }
                },
                _ => (s, bs, false),
            }
        },
        DaemonState::Shutdown => {
            if ev is ShutdownRequested {
                (DaemonState::Dead, bs, !poweroff_empty)
            } else {
                (s, bs, false)
            }
        },
        DaemonState::Dead => (s, bs, false),
    }
}

/// From Dead no transition fires: whatever the event, the time or the
/// configuration, the machine stays Dead and spawns nothing.
pub proof fn lemma_dead_is_terminal(
    bs: Option<u64>,
    ev: TickEvent,
    now_ms: u64,
    time_limit_ms: u64,
    voltage_limit_uv: u32,
    poweroff_empty: bool,
)
    ensures
        spec_step(DaemonState::Dead, bs, ev, now_ms, time_limit_ms, voltage_limit_uv,
            poweroff_empty) == (DaemonState::Dead, bs, false),
{
}

/// Blackout detection is edge-triggered strictly below the voltage limit,
/// and resumption strictly above it: a reading exactly at the limit keeps
/// the current state, in PowerOk as in Blackout.
pub proof fn lemma_blackout_threshold_is_strict(
    start: u64,
    now_ms: u64,
    time_limit_ms: u64,
    voltage_limit_uv: u32,
    poweroff_empty: bool,
)
    ensures
        spec_step(DaemonState::PowerOk, None, TickEvent::Voltage { microvolts: voltage_limit_uv },
            now_ms, time_limit_ms, voltage_limit_uv, poweroff_empty).0 == DaemonState::PowerOk,
        spec_elapsed_ms(now_ms, start) <= time_limit_ms ==> spec_step(DaemonState::Blackout,
            Some(start), TickEvent::Voltage { microvolts: voltage_limit_uv }, now_ms,
            time_limit_ms, voltage_limit_uv, poweroff_empty) == (DaemonState::Blackout,
            Some(start), false),
{
}

/// Power management state machine.
pub struct StateMachine {
    state: DaemonState,
    blackout_start_ms: Option<u64>,
}

impl StateMachine {
    /// Current state.
    pub closed spec fn state_spec(self) -> DaemonState {
        self.state
    }

    /// Time at which the present blackout began, if one is being waited
    /// out.
    pub closed spec fn blackout_start_spec(self) -> Option<u64> {
        self.blackout_start_ms
    }

    /// The machine's invariant: a blackout start time is recorded exactly
    /// while the state is Blackout.
    pub open spec fn wf(self) -> bool {
        self.state_spec() is Blackout <==> self.blackout_start_spec() is Some
    }

    /// Create a new state machine, in Start.
    pub fn new() -> (r: Self)
        ensures
            r.wf(),
            r.state_spec() is Start,
            r.blackout_start_spec() is None,
    {
        StateMachine { state: DaemonState::Start, blackout_start_ms: None }
    }

    /// Current state.
    pub fn state(&self) -> (r: DaemonState)
        ensures
            r == self.state_spec(),
    {
        self.state
    }

    /// Apply one tick's observation. Returns whether the caller must spawn
    /// the configured poweroff command now (exactly on the transition from
    /// Shutdown to Dead, and only when the command is non-empty).
    pub fn step(&mut self, ev: TickEvent, now_ms: u64, cfg: &Config) -> (spawn: bool)
        requires
            old(self).wf(),
        ensures
            final(self).wf(),
            (final(self).state_spec(), final(self).blackout_start_spec(), spawn) == spec_step(
                old(self).state_spec(), old(self).blackout_start_spec(), ev, now_ms,
                cfg.blackout_time_limit_ms, cfg.blackout_voltage_limit_uv,
                cfg.poweroff@.len() == 0),
    {
        match self.state {
            DaemonState::Start => {
                if matches!(ev, TickEvent::WatchdogArmed) {
                    self.state = DaemonState::PowerOk;
                }
                false
            },
            DaemonState::PowerOk => {
                if let TickEvent::Voltage { microvolts } = ev {
                    if microvolts < cfg.blackout_voltage_limit_uv {
                        self.state = DaemonState::Blackout;
                        self.blackout_start_ms = Some(now_ms);
                    }
                }
                false
            },
            DaemonState::Blackout => {
                if let TickEvent::Voltage { microvolts } = ev {
                    if microvolts > cfg.blackout_voltage_limit_uv {
                        self.state = DaemonState::PowerOk;
                        self.blackout_start_ms = None;
                    } else if let Some(start) = self.blackout_start_ms {
                        let elapsed: u64 = if now_ms >= start { now_ms - start } else { 0 };
                        if elapsed > cfg.blackout_time_limit_ms {
                            self.state = DaemonState::Shutdown;
                            self.blackout_start_ms = None;
                        }
                    }
                }
                false
            },
            DaemonState::Shutdown => {
                if matches!(ev, TickEvent::ShutdownRequested) {
                    self.state = DaemonState::Dead;
                    !cfg.poweroff.as_str().is_empty()
                } else {
                    false
                }
            },
            DaemonState::Dead => false,
        }
    }

    /// One tick took the machine from `pre` to `post` under event `ev`.
    pub open spec fn spec_tick_rel(pre: StateMachine, post: StateMachine, spawn: bool,
        ev: TickEvent, now_ms: u64, cfg: Config) -> bool {
        (post.state_spec(), post.blackout_start_spec(), spawn) == spec_step(pre.state_spec(),
            pre.blackout_start_spec(), ev, now_ms, cfg.blackout_time_limit_ms,
            cfg.blackout_voltage_limit_uv, cfg.poweroff@.len() == 0)
    }

    /// The event a monitoring tick fed to the step: either the measurements
    /// pass succeeded and the voltage is the DC-in value a successful read
    /// in this tick's window carried, or the pass failed.
    pub open spec fn spec_monitor_event(ev: TickEvent, h_old: Seq<Tx>, h_new: Seq<Tx>) -> bool {
        match ev {
            TickEvent::Voltage { microvolts } => spec_logged_analog_read(h_new,
                h_old.len() as int, crate::protocol::REG_DCIN_VOLTAGE,
                crate::protocol::DCIN_MAX_UV, microvolts),
            TickEvent::IoFailed => true,
            _ => false,
        }
    }

    /// Run one tick against the device: perform the device operation the
    /// current state calls for, and apply its outcome.
    ///
    /// Start arms the watchdog; PowerOk and Blackout read the measurements
    /// (feeding the watchdog as a side effect of the transactions);
    /// Shutdown asks the controller to power down. In Dead the device is
    /// not touched at all. Any failed device operation leaves the state
    /// alone; the next tick retries. The caller spawns the poweroff
    /// command exactly when `spawn` comes back true, which happens on the
    /// one transition from Shutdown to Dead, with a non-empty command.
    pub fn tick(&mut self, dev: &mut crate::device::HalpiDevice, cfg: &Config, now_ms: u64)
        -> (spawn: bool)
        requires
            old(self).wf(),
        ensures
            final(self).wf(),
            crate::bus::spec_prefix(final(dev)@, old(dev)@),
            final(dev).firmware_cache() == old(dev).firmware_cache(),
            exists|ev: TickEvent| #[trigger] Self::spec_tick_rel(*old(self), *final(self), spawn,
                ev, now_ms, *cfg),
            old(self).state_spec() is Dead ==> final(dev)@ == old(dev)@
                && *final(self) == *old(self) && !spawn,
            !(old(self).state_spec() is Dead) ==> final(dev)@.len() > old(dev)@.len(),
            old(self).state_spec() is Start ==> {
                &&& spec_wrote(old(dev)@, final(dev)@, crate::protocol::REG_WATCHDOG_TIMEOUT,
                    crate::protocol::spec_encode_word(WATCHDOG_TIMEOUT_MS),
                    final(self).state_spec() is PowerOk)
                &&& final(self).state_spec() is PowerOk || final(self).state_spec() is Start
                &&& final(self).blackout_start_spec() is None
                &&& !spawn
            },
            (old(self).state_spec() is PowerOk || old(self).state_spec() is Blackout) ==> {
                &&& forall|i: int| old(dev)@.len() <= i < final(dev)@.len() ==> !tx_is_write(
                    #[trigger] final(dev)@[i]) && spec_measurement_reg(tx_reg(final(dev)@[i]))
                &&& exists|ev: TickEvent| #[trigger] Self::spec_tick_rel(*old(self),
                    *final(self), spawn, ev, now_ms, *cfg) && Self::spec_monitor_event(ev,
                    old(dev)@, final(dev)@)
            },
            old(self).state_spec() is Shutdown ==> {
                &&& spec_wrote(old(dev)@, final(dev)@, crate::protocol::REG_REQUEST_SHUTDOWN,
                    seq![0x01u8], final(self).state_spec() is Dead)
                &&& final(self).state_spec() is Dead || final(self).state_spec() is Shutdown
                &&& (spawn <==> final(self).state_spec() is Dead && cfg.poweroff@.len() > 0)
            },
            spawn ==> old(self).state_spec() is Shutdown && final(self).state_spec() is Dead
                && final(dev)@.last() == (crate::bus::Tx::Write {
                    reg: crate::protocol::REG_REQUEST_SHUTDOWN, data: seq![0x01u8], ok: true }),
    {
        let ghost h0 = dev@;
        proof {
            assert(dev@.subrange(0, h0.len() as int) =~= h0);
        }
        match self.state {
            DaemonState::Start => {
                let ev = match dev.set_watchdog_timeout(WATCHDOG_TIMEOUT_MS) {
                    Ok(_) => TickEvent::WatchdogArmed,
                    Err(_) => TickEvent::IoFailed,
                };
                let spawn = self.step(ev, now_ms, cfg);
                proof {
                    assert(Self::spec_tick_rel(*old(self), *self, spawn, ev, now_ms, *cfg));
                }
                spawn
            },
            DaemonState::PowerOk => {
                let ev = match dev.get_measurements() {
                    Ok(m) => TickEvent::Voltage { microvolts: m.dcin_voltage },
                    Err(_) => TickEvent::IoFailed,
                };
                let spawn = self.step(ev, now_ms, cfg);
                proof {
                    assert(Self::spec_tick_rel(*old(self), *self, spawn, ev, now_ms, *cfg));
                    assert(Self::spec_monitor_event(ev, h0, dev@));
                }
                spawn
            },
            DaemonState::Blackout => {
                let ev = match dev.get_measurements() {
                    Ok(m) => TickEvent::Voltage { microvolts: m.dcin_voltage },
                    Err(_) => TickEvent::IoFailed,
                };
                let spawn = self.step(ev, now_ms, cfg);
                proof {
                    assert(Self::spec_tick_rel(*old(self), *self, spawn, ev, now_ms, *cfg));
                    assert(Self::spec_monitor_event(ev, h0, dev@));
                }
                spawn
            },
            DaemonState::Shutdown => {
                let ev = match dev.request_shutdown() {
                    Ok(_) => TickEvent::ShutdownRequested,
                    Err(_) => TickEvent::IoFailed,
                };
                let spawn = self.step(ev, now_ms, cfg);
                proof {
                    assert(Self::spec_tick_rel(*old(self), *self, spawn, ev, now_ms, *cfg));
                }
                spawn
            },
            DaemonState::Dead => {
                proof {
                    assert(Self::spec_tick_rel(*self, *self, false, TickEvent::Idle, now_ms,
                        *cfg));
                }
                false
            },
        }
    }
}

} // verus!
