//! The value type carried between providers and the aggregator: one
//! forecasted measurement.

use vstd::prelude::*;

verus! {

/// Truncating (toward-zero) integer quotient; the rounding used when an
/// averaged temperature is brought back to one fixed-point value.
pub open spec fn div_toward_zero(a: int, b: int) -> int
    recommends
        b >= 1,
{
    if a >= 0 {
        a / b
    } else {
        -((-a) / b)
    }
}

/// Weather data that we return to the user.
///
/// The temperature is a fixed-point value in millidegrees Celsius
/// (thousandths of a degree), so that sums and averages are exact
/// integer arithmetic.
#[derive(Debug, Clone, Copy, PartialEq, Eq, Structural)]
pub struct WeatherData {
    pub temperature: i64,
}

impl WeatherData {
    pub fn new(temperature: i64) -> (r: Self)
        ensures
            r.temperature == temperature,
    {
        Self { temperature }
    }

    /// Elementwise addition, needed to sum forecasts across providers.
    pub fn add(self, other: Self) -> (r: Self)
        requires
            i64::MIN <= self.temperature + other.temperature <= i64::MAX,
        ensures
            r.temperature == self.temperature + other.temperature,
    {
        Self { temperature: self.temperature + other.temperature }
    }

    /// Scalar division, needed to divide a summed forecast by the number
    /// of providers that contributed to it.  Rounds toward zero.
    pub fn div(self, count: i64) -> (r: Self)
        requires
            count >= 1,
        ensures
            r.temperature == div_toward_zero(self.temperature as int, count as int),
    {
        let t = self.temperature;
        if t >= 0 {
            let q: u64 = (t as u64) / (count as u64);
            Self { temperature: q as i64 }
        } else {
            let m: i128 = -(t as i128);
            let q: u128 = (m as u128) / (count as u128);
            assert(q <= 0x8000_0000_0000_0000u128);
            Self { temperature: (-(q as i128)) as i64 }
        }
    }
}

} // verus!
