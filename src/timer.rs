//! Conversions between cycle-counter ticks and units of time.
use vstd::prelude::*;

verus! {

/// Cycle-counter frequency of the board, in ticks per second.
pub const TIME_BASE: u64 = 1_500_000_000;

pub const NANOS_PER_SEC: u128 = 1_000_000_000;

pub const MICROS_PER_SEC: u128 = 1_000_000;

pub const MILLIS_PER_SEC: u128 = 1_000;

/// A ticker counting `time_base` ticks per second.
pub struct Vf2Ticker {
    time_base: u64,
}

/// `tick` ticks of a counter at `base` ticks per second, in units of which
/// `per_sec` make a second (rounded down).
pub open spec fn ticks_to_units(tick: int, base: int, per_sec: int) -> int {
    tick * per_sec / base
}

/// `units` time units, of which `per_sec` make a second, in ticks of a
/// counter at `base` ticks per second (rounded down).
pub open spec fn units_to_ticks(units: int, base: int, per_sec: int) -> int {
    units * base / per_sec
}

impl Vf2Ticker {
    pub closed spec fn time_base(&self) -> int {
        self.time_base as int
    }

    /// The board's ticker.
    pub fn new() -> (r: Vf2Ticker)
        ensures
            r.time_base() == TIME_BASE,
    {
        Vf2Ticker { time_base: TIME_BASE }
    }

    fn convert_ticks(&self, tick: u64, per_sec: u128) -> (r: u128)
        requires
            self.time_base() > 0,
            1 <= per_sec <= NANOS_PER_SEC,
        ensures
            r == ticks_to_units(tick as int, self.time_base(), per_sec as int),
    {
        assert(tick as int * per_sec as int <= u64::MAX as int * NANOS_PER_SEC as int) by (nonlinear_arith)
            requires per_sec <= NANOS_PER_SEC;
        (tick as u128 * per_sec) / (self.time_base as u128)
    }

    fn convert_units(&self, units: u64, per_sec: u128) -> (r: u128)
        requires
            1 <= per_sec,
        ensures
            r == units_to_ticks(units as int, self.time_base(), per_sec as int),
    {
        assert(units as int * self.time_base as int <= u64::MAX as int * u64::MAX as int) by (nonlinear_arith);
        (units as u128 * self.time_base as u128) / per_sec
    }

    pub fn tick_to_nanos(&self, tick: u64) -> (r: u128)
        requires
            self.time_base() > 0,
        ensures
            r == ticks_to_units(tick as int, self.time_base(), NANOS_PER_SEC as int),
    {
        self.convert_ticks(tick, NANOS_PER_SEC)
    }

    pub fn tick_to_micros(&self, tick: u64) -> (r: u128)
        requires
            self.time_base() > 0,
        ensures
            r == ticks_to_units(tick as int, self.time_base(), MICROS_PER_SEC as int),
    {
        self.convert_ticks(tick, MICROS_PER_SEC)
    }

    pub fn tick_to_millis(&self, tick: u64) -> (r: u128)
        requires
            self.time_base() > 0,
        ensures
            r == ticks_to_units(tick as int, self.time_base(), MILLIS_PER_SEC as int),
    {
        self.convert_ticks(tick, MILLIS_PER_SEC)
    }

    pub fn tick_to_secs(&self, tick: u64) -> (r: u128)
        requires
            self.time_base() > 0,
        ensures
            r == ticks_to_units(tick as int, self.time_base(), 1),
    {
        self.convert_ticks(tick, 1)
    }

    pub fn nanos_to_tick(&self, nanos: u64) -> (r: u128)
        ensures
            r == units_to_ticks(nanos as int, self.time_base(), NANOS_PER_SEC as int),
    {
        self.convert_units(nanos, NANOS_PER_SEC)
    }

    pub fn micros_to_tick(&self, micros: u64) -> (r: u128)
        ensures
            r == units_to_ticks(micros as int, self.time_base(), MICROS_PER_SEC as int),
    {
        self.convert_units(micros, MICROS_PER_SEC)
    }

    pub fn millis_to_tick(&self, millis: u64) -> (r: u128)
        ensures
            r == units_to_ticks(millis as int, self.time_base(), MILLIS_PER_SEC as int),
    {
        self.convert_units(millis, MILLIS_PER_SEC)
    }

    pub fn secs_to_tick(&self, secs: u64) -> (r: u128)
        ensures
            r == units_to_ticks(secs as int, self.time_base(), 1),
    {
        self.convert_units(secs, 1)
    }
}

} // verus!
