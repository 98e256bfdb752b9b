use vstd::prelude::*;

verus! {

/// Clock low/high ratio in fast mode.
#[derive(Clone, Copy, Debug, PartialEq, Eq, Structural)]
pub enum DutyCycle {
    Ratio2to1,
    Ratio16to9,
}

/// Bus speed class with the requested SCL frequency in hertz.
#[derive(Clone, Copy, Debug, PartialEq, Eq, Structural)]
pub enum Mode {
    Standard { frequency: u32 },
    Fast { frequency: u32, duty_cycle: DutyCycle },
}

/// Why a timing configuration cannot be computed.
#[derive(Clone, Copy, Debug, PartialEq, Eq, Structural)]
pub enum ConfigError {
    /// The requested frequency is zero or above what the speed class allows.
    InvalidFrequency,
    /// The input clock is below the minimum for the speed class, or too slow
    /// to reach the requested frequency with the smallest legal divider.
    ClockTooSlow,
    /// The input clock is above what the controller accepts.
    ClockTooFast,
    /// The divider needed for the requested frequency exceeds its 12-bit field.
    DividerOverflow,
}

/// Register values for the controller's clock generation.
#[derive(Clone, Copy, Debug, PartialEq, Eq, Structural)]
pub struct Timing {
    /// Input clock in whole megahertz (FREQ field).
    pub freq_mhz: u8,
    /// Maximum rise time in input clock periods plus one (TRISE field).
    pub trise: u8,
    /// Clock control divider (CCR field).
    pub ccr: u16,
    /// Fast-mode select bit.
    pub fast: bool,
    /// Duty bit: set for a 16/9 low/high ratio.
    pub duty: bool,
}

pub const STANDARD_MAX_HZ: u32 = 100_000;
pub const FAST_MAX_HZ: u32 = 400_000;
pub const MIN_CLOCK_HZ: u32 = 2_000_000;
pub const MIN_FAST_CLOCK_HZ: u32 = 4_000_000;
pub const MAX_CLOCK_HZ: u32 = 50_000_000;
pub const MAX_CCR: u32 = 4095;

pub open spec fn mode_frequency(m: Mode) -> u32 {
    match m {
        Mode::Standard { frequency } => frequency,
        Mode::Fast { frequency, .. } => frequency,
    }
}

pub open spec fn is_fast(m: Mode) -> bool {
    m is Fast
}

pub open spec fn max_frequency(m: Mode) -> u32 {
    if is_fast(m) { FAST_MAX_HZ } else { STANDARD_MAX_HZ }
}

pub open spec fn min_clock(m: Mode) -> u32 {
    if is_fast(m) { MIN_FAST_CLOCK_HZ } else { MIN_CLOCK_HZ }
}

/// Input clock periods per SCL period, per unit of the divider.
pub open spec fn periods_per_step(m: Mode) -> int {
    match m {
        Mode::Standard { .. } => 2,
        Mode::Fast { duty_cycle: DutyCycle::Ratio2to1, .. } => 3,
        Mode::Fast { duty_cycle: DutyCycle::Ratio16to9, .. } => 25,
    }
}

/// Smallest divider that the controller accepts in this mode.
pub open spec fn min_divider(m: Mode) -> int {
    if is_fast(m) { 1 } else { 4 }
}

/// The divider: input clock over the requested SCL frequency, in steps, rounded down.
pub open spec fn divider(pclk: u32, m: Mode) -> int {
    pclk as int / (periods_per_step(m) * mode_frequency(m))
}

pub open spec fn rise_time(pclk: u32, m: Mode) -> int {
    let mhz = pclk as int / 1_000_000;
    if is_fast(m) { mhz * 300 / 1000 + 1 } else { mhz + 1 }
}

/// The outcome of configuring for input clock `pclk` and mode `m`.
pub open spec fn configure_spec(pclk: u32, m: Mode) -> Result<Timing, ConfigError> {
    let f = mode_frequency(m);
    if f == 0 || f > max_frequency(m) {
        Err(ConfigError::InvalidFrequency)
    } else if pclk < min_clock(m) {
        Err(ConfigError::ClockTooSlow)
    } else if pclk > MAX_CLOCK_HZ {
        Err(ConfigError::ClockTooFast)
    } else if divider(pclk, m) < min_divider(m) {
        Err(ConfigError::ClockTooSlow)
    } else if divider(pclk, m) > MAX_CCR {
        Err(ConfigError::DividerOverflow)
    } else {
        Ok(
            Timing {
                freq_mhz: (pclk / 1_000_000) as u8,
                trise: rise_time(pclk, m) as u8,
                ccr: divider(pclk, m) as u16,
                fast: is_fast(m),
                duty: m matches Mode::Fast { duty_cycle: DutyCycle::Ratio16to9, .. },
            },
        )
    }
}

impl Mode {
    /// The requested SCL frequency in hertz.
    pub fn frequency(&self) -> (r: u32)
        ensures
            r == mode_frequency(*self),
    {
        match self {
            Mode::Standard { frequency } => *frequency,
            Mode::Fast { frequency, .. } => *frequency,
        }
    }
}

impl Timing {
    /// Computes the clock generation registers for input clock `pclk` (in
    /// hertz) and mode `mode`.
    pub fn new(pclk: u32, mode: Mode) -> (r: Result<Timing, ConfigError>)
        ensures
            r == configure_spec(pclk, mode),
    {
        let f = mode.frequency();
        let (fast, max_f, min_clk, step, min_div, duty): (bool, u32, u32, u32, u32, bool) =
            match mode {
            Mode::Standard { .. } => (false, STANDARD_MAX_HZ, MIN_CLOCK_HZ, 2, 4, false),
            Mode::Fast { duty_cycle: DutyCycle::Ratio2to1, .. } => (
                true,
                FAST_MAX_HZ,
                MIN_FAST_CLOCK_HZ,
                3,
                1,
                false,
            ),
            Mode::Fast { duty_cycle: DutyCycle::Ratio16to9, .. } => (
                true,
                FAST_MAX_HZ,
                MIN_FAST_CLOCK_HZ,
                25,
                1,
                true,
            ),
        };
        if f == 0 || f > max_f {
            return Err(ConfigError::InvalidFrequency);
        }
        if pclk < min_clk {
            return Err(ConfigError::ClockTooSlow);
        }
        if pclk > MAX_CLOCK_HZ {
            return Err(ConfigError::ClockTooFast);
        }
        let div: u32 = pclk / (step * f);
        if div < min_div {
            return Err(ConfigError::ClockTooSlow);
        }
        if div > MAX_CCR {
            return Err(ConfigError::DividerOverflow);
        }
        let mhz: u32 = pclk / 1_000_000;
        let trise: u32 = if fast { mhz * 300 / 1000 + 1 } else { mhz + 1 };
        Ok(Timing { freq_mhz: mhz as u8, trise: trise as u8, ccr: div as u16, fast, duty })
    }

    /// The SCL frequency in hertz that these registers produce from input
    /// clock `pclk`, rounded down.
    pub fn scl_frequency(&self, pclk: u32) -> (r: u32)
        requires
            self.ccr > 0,
        ensures
            r as int == pclk as int / (self.steps() * self.ccr),
    {
        let step: u32 = if !self.fast { 2 } else if self.duty { 25 } else { 3 };
        pclk / (step * self.ccr as u32)
    }

    pub open spec fn steps(&self) -> int {
        if !self.fast { 2 } else if self.duty { 25 } else { 3 }
    }
}

/// Whenever configuration succeeds, the SCL period that the divider gives is
/// within one divider step of the requested period: `k * ccr * f <= pclk <
/// k * (ccr + 1) * f`, with `k` the input clock periods per divider step.
/// Otherwise configuration fails, and which error it gives depends on the
/// inputs alone.
pub proof fn lemma_scl_within_step(pclk: u32, m: Mode)
    ensures
        configure_spec(pclk, m) matches Ok(t) ==> {
            let k = periods_per_step(m);
            let f = mode_frequency(m) as int;
            &&& t.ccr as int == divider(pclk, m)
            &&& t.steps() == k
            &&& k * t.ccr * f <= pclk
            &&& pclk < k * (t.ccr + 1) * f
        },
        configure_spec(pclk, m) is Err <==> (mode_frequency(m) == 0 || mode_frequency(m)
            > max_frequency(m) || pclk < min_clock(m) || pclk > MAX_CLOCK_HZ || divider(pclk, m)
            < min_divider(m) || divider(pclk, m) > MAX_CCR),
{
    if configure_spec(pclk, m) is Ok {
        let k = periods_per_step(m);
        let f = mode_frequency(m) as int;
        let d = k * f;
        assert(k >= 2);
        assert(f >= 1);
        assert(d > 0) by (nonlinear_arith)
            requires
                d == k * f,
                k >= 2,
                f >= 1,
        ;
        let q = pclk as int / d;
        let r = pclk as int % d;
        assert(pclk as int == d * q + r && 0 <= r < d) by {
            vstd::arithmetic::div_mod::lemma_fundamental_div_mod(pclk as int, d);
        }
        assert(k * q * f == d * q) by (nonlinear_arith)
            requires
                d == k * f,
        ;
        assert(k * (q + 1) * f == d * q + d) by (nonlinear_arith)
            requires
                d == k * f,
        ;
    }
}

} // verus!
