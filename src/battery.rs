//! The battery producer: charge percentage, direction and time-remaining estimate.
use vstd::prelude::*;
use crate::modules::ModuleRes;
use crate::output::{plain, Fragment, ModuleOutput};
use crate::text::{char_from_code, char_text, decimal, decimal_text};

verus! {

/// What was read from one battery device; `None` where a value could not be read.
pub struct BatteryReading {
    pub charge_full: Option<u64>,
    pub charge_now: Option<u64>,
    pub current_now: Option<u64>,
    /// The raw content of the device's status file.
    pub status: Option<String>,
}

/// The battery producer: the devices whose readings are summed.
pub struct BatteryModule<const N: usize> {
    dev_path: Vec<String>,
}

pub uninterp spec fn trim_of(s: Seq<char>) -> Seq<char>;

/// Relies on `str::trim`: the text without leading and trailing whitespace.
#[verifier::external_body]
fn trimmed(s: &str) -> (r: String)
    ensures
        r@ == trim_of(s@),
{
    s.trim().to_string()
}

/// The sum of the values, when every one is present and there is at least one.
pub open spec fn total(xs: Seq<Option<u64>>) -> Option<int>
    decreases xs.len(),
{
    if xs.len() == 0 {
        None
    } else {
        match (xs.last(), xs.len() == 1) {
            (Some(v), true) => Some(v as int),
            (Some(v), false) => match total(xs.drop_last()) {
                Some(t) => Some(t + v),
                None => None,
            },
            (None, _) => None,
        }
    }
}

pub open spec fn fulls(rs: Seq<BatteryReading>) -> Seq<Option<u64>> {
    rs.map_values(|r: BatteryReading| r.charge_full)
}

pub open spec fn nows(rs: Seq<BatteryReading>) -> Seq<Option<u64>> {
    rs.map_values(|r: BatteryReading| r.charge_now)
}

pub open spec fn currents(rs: Seq<BatteryReading>) -> Seq<Option<u64>> {
    rs.map_values(|r: BatteryReading| r.current_now)
}

/// The total of `xs`, when it exists and fits in a `u64`.
pub open spec fn summed(xs: Seq<Option<u64>>) -> Option<nat> {
    match total(xs) {
        Some(t) => if t <= u64::MAX {
            Some(t as nat)
        } else {
            None
        },
        None => None,
    }
}

/// The direction a status reports: 1 charging, -1 discharging, 0 neither.
pub open spec fn status_direction(status: Option<String>) -> int {
    match status {
        Some(s) => if trim_of(s@) == "Charging"@ {
            1
        } else if trim_of(s@) == "Discharging"@ {
            -1
        } else {
            0
        },
        None => 0,
    }
}

/// The direction of the first device that reports one.
pub open spec fn direction(rs: Seq<BatteryReading>) -> int
    decreases rs.len(),
{
    if rs.len() == 0 {
        0
    } else if status_direction(rs[0].status) != 0 {
        status_direction(rs[0].status)
    } else {
        direction(rs.drop_first())
    }
}

/// The charge percentage.
pub open spec fn percentage(full: nat, now: nat) -> nat
    recommends
        full > 0,
{
    (100 * now / full) as nat
}

/// The code point of the battery glyph: one of five levels below U+F244.
pub open spec fn glyph_code(perc: nat) -> int {
    0xf244 - (4 * perc / 100) as int
}

/// Whether `c` is the glyph for `perc`: the character at `glyph_code`, or the empty-battery
/// glyph where that is no character.
pub open spec fn is_glyph_for(c: char, perc: nat) -> bool {
    if 0 <= glyph_code(perc) <= 0x10FFFF && !(0xD800 <= glyph_code(perc) <= 0xDFFF) {
        c as u32 as int == glyph_code(perc)
    } else {
        c == '\u{f244}'
    }
}

/// The charge amount still to go, in the direction of travel; `None` when there is none
/// to estimate.
pub open spec fn charge_to_go(dir: int, full: nat, now: nat) -> Option<nat> {
    if dir == 1 && now <= full {
        Some((full - now) as nat)
    } else if dir == -1 {
        Some(now)
    } else {
        None
    }
}

/// The estimate of `amount / current` hours as `[Hh Mm]`, or `[Mm]` below one hour, or
/// nothing when there is no remaining time or no current.
pub open spec fn estimate_text(amount: Option<nat>, current: nat) -> Seq<char> {
    match amount {
        Some(a) => if current == 0 {
            seq![]
        } else if a / current > 0 {
            " ["@ + decimal(a / current) + "h "@ + decimal((a % current) * 60 / current) + "m]"@
        } else if a % current > 0 {
            " ["@ + decimal((a % current) * 60 / current) + "m]"@
        } else {
            seq![]
        },
        None => seq![],
    }
}

pub open spec fn direction_color(dir: int) -> Option<Seq<char>> {
    if dir == 1 {
        Some("#50fa7b"@)
    } else if dir == -1 {
        Some("#ff5555"@)
    } else {
        None
    }
}

/// Whether `f` is the battery block for the given totals and direction.
pub open spec fn battery_fragment(f: Fragment, full: nat, now: nat, current: nat, dir: int) -> bool {
    let perc = percentage(full, now);
    &&& f == Fragment { text: f.text, fg: direction_color(dir), ..plain(f.text) }
    &&& f.text.len() > 0
    &&& is_glyph_for(f.text[0], perc)
    &&& f.text.drop_first() == " "@ + decimal(perc) + "%"@ + estimate_text(
        charge_to_go(dir, full, now),
        current,
    )
}

/// Sums the values; `None` when one is missing, there are none, or the sum overflows.
fn sum_measure(xs: &Vec<Option<u64>>) -> (r: Option<u64>)
    ensures
        r matches Some(v) ==> summed(xs@) == Some(v as nat),
        r is None ==> summed(xs@) is None,
{
    let mut acc: u64 = 0;
    let mut failed = false;
    let mut i: usize = 0;
    while i < xs.len()
        invariant
            i <= xs.len(),
            i == 0 ==> !failed,
            i > 0 && !failed ==> total(xs@.take(i as int)) == Some(acc as int),
            failed ==> (total(xs@.take(i as int)) is None || total(xs@.take(i as int))->Some_0
                > u64::MAX),
        decreases xs.len() - i,
    {
        assert(xs@.take(i + 1).drop_last() =~= xs@.take(i as int));
        match xs[i] {
            Some(v) => {
                if !failed {
                    if i == 0 {
                        acc = v;
                    } else if acc <= u64::MAX - v {
                        acc = acc + v;
                    } else {
                        failed = true;
                    }
                }
            },
            None => {
                failed = true;
            },
        }
        i = i + 1;
    }
    assert(xs@.take(xs.len() as int) =~= xs@);
    if failed || xs.len() == 0 {
        None
    } else {
        Some(acc)
    }
}

/// The direction of the first device, from `i` on, that reports one.
pub open spec fn direction_from(rs: Seq<BatteryReading>, i: int) -> int
    decreases rs.len() - i,
{
    if i < 0 || i >= rs.len() {
        0
    } else if status_direction(rs[i].status) != 0 {
        status_direction(rs[i].status)
    } else {
        direction_from(rs, i + 1)
    }
}

fn status_of(status: &Option<String>) -> (r: i8)
    ensures
        r as int == status_direction(*status),
        -1 <= r <= 1,
{
    match status {
        Some(s) => {
            let t = trimmed(s.as_str());
            if t == String::from_str("Charging") {
                1
            } else if t == String::from_str("Discharging") {
                -1
            } else {
                0
            }
        },
        None => 0,
    }
}

fn direction_of(rs: &Vec<BatteryReading>) -> (r: i8)
    ensures
        r as int == direction_from(rs@, 0),
        -1 <= r <= 1,
{
    let mut i: usize = 0;
    while i < rs.len()
        invariant
            i <= rs.len(),
            direction_from(rs@, 0) == direction_from(rs@, i as int),
        decreases rs.len() - i,
    {
        let d = status_of(&rs[i].status);
        if d != 0 {
            return d;
        }
        i = i + 1;
    }
    0
}

fn estimate(dir: i8, full: u64, now: u64, current: u64) -> (r: String)
    requires
        -1 <= dir <= 1,
    ensures
        r@ == estimate_text(charge_to_go(dir as int, full as nat, now as nat), current as nat),
{
    let amount: Option<u64> = if dir == 1 && now <= full {
        Some(full - now)
    } else if dir == -1 {
        Some(now)
    } else {
        None
    };
    match amount {
        Some(a) => {
            if current == 0 {
                String::new()
            } else {
                let hours = a / current;
                let rest = a % current;
                let mins = (rest as u128 * 60) / current as u128;
                if hours > 0 {
                    let mut r = String::from_str(" [");
                    r.append(decimal_text(hours as u128).as_str());
                    r.append("h ");
                    r.append(decimal_text(mins).as_str());
                    r.append("m]");
                    r
                } else if rest > 0 {
                    let mut r = String::from_str(" [");
                    r.append(decimal_text(mins).as_str());
                    r.append("m]");
                    r
                } else {
                    String::new()
                }
            }
        },
        None => String::new(),
    }
}

/// Builds the battery block from the devices' readings: the charge and current are summed
/// over all devices, and a missing value, a zero capacity or an overflowing sum is a
/// silent failure. The estimate is computed from this sample alone: nothing is carried
/// over from earlier samples, so a change of direction starts afresh.
pub fn battery_output(readings: &Vec<BatteryReading>) -> (r: ModuleRes)
    ensures
        match (summed(fulls(readings@)), summed(nows(readings@)), summed(currents(readings@))) {
            (Some(f), Some(n), Some(c)) => if f > 0 {
                r matches Ok(o) && battery_fragment(o@, f, n, c, direction_from(readings@, 0))
            } else {
                r matches Err(None)
            },
            _ => r matches Err(None),
        },
{
    let mut full_v: Vec<Option<u64>> = Vec::new();
    let mut now_v: Vec<Option<u64>> = Vec::new();
    let mut cur_v: Vec<Option<u64>> = Vec::new();
    let mut i: usize = 0;
    while i < readings.len()
        invariant
            i <= readings.len(),
            full_v@ =~= fulls(readings@.take(i as int)),
            now_v@ =~= nows(readings@.take(i as int)),
            cur_v@ =~= currents(readings@.take(i as int)),
        decreases readings.len() - i,
    {
        full_v.push(readings[i].charge_full);
        now_v.push(readings[i].charge_now);
        cur_v.push(readings[i].current_now);
        assert(readings@.take(i + 1) =~= readings@.take(i as int).push(readings@[i as int]));
        i = i + 1;
    }
    assert(readings@.take(readings.len() as int) =~= readings@);
    let full = match sum_measure(&full_v) {
        Some(v) => v,
        None => return Err(None),
    };
    let now = match sum_measure(&now_v) {
        Some(v) => v,
        None => return Err(None),
    };
    let current = match sum_measure(&cur_v) {
        Some(v) => v,
        None => return Err(None),
    };
    if full == 0 {
        return Err(None);
    }
    let perc: u128 = (100 * now as u128) / full as u128;
    let level: u128 = 4 * perc / 100;
    let code: Option<char> = if level <= 0xf244 {
        char_from_code((0xf244 - level) as u32)
    } else {
        None
    };
    let glyph = match code {
        Some(c) => c,
        None => '\u{f244}',
    };
    assert(perc == percentage(full as nat, now as nat));
    let dir = direction_of(readings);
    let mut text = char_text(glyph);
    text.append(" ");
    text.append(decimal_text(perc).as_str());
    text.append("%");
    text.append(estimate(dir, full, now, current).as_str());
    proof {
        reveal_strlit(" ");
        assert(text@.drop_first() =~= " "@ + decimal(percentage(full as nat, now as nat)) + "%"@
            + estimate_text(charge_to_go(dir as int, full as nat, now as nat), current as nat));
    }
    let out = ModuleOutput::new(text);
    if dir == 1 {
        Ok(out.with_color_fg(String::from_str("#50fa7b")))
    } else if dir == -1 {
        Ok(out.with_color_fg(String::from_str("#ff5555")))
    } else {
        Ok(out)
    }
}

impl<const N: usize> BatteryModule<N> {
    /// A battery producer summing over the devices at `path`.
    pub fn new(path: [&str; N]) -> (r: Self)
        ensures
            r.dev_path()@.len() == N,
            forall|i: int| 0 <= i < N ==> #[trigger] r.dev_path()@[i]@ == path@[i]@,
    {
        let mut dev_path: Vec<String> = Vec::new();
        let mut i: usize = 0;
        while i < N
            invariant
                i <= N,
                dev_path@.len() == i,
                forall|k: int| 0 <= k < i ==> #[trigger] dev_path@[k]@ == path@[k]@,
            decreases N - i,
        {
            dev_path.push(String::from_str(path[i]));
            i = i + 1;
        }
        BatteryModule { dev_path }
    }

    pub closed spec fn dev_path(&self) -> Vec<String> {
        self.dev_path
    }

    /// The device directories, in the order given.
    pub fn paths(&self) -> (r: &Vec<String>)
        ensures
            *r == self.dev_path(),
    {
        &self.dev_path
    }

    /// The battery is sampled every fifth tick.
    pub fn rate(&self) -> (r: usize)
        ensures
            r == 5,
    {
        5
    }
}

} // verus!
