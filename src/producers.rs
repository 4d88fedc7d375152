//! The producers whose sampling needs no device access from the library: clock, spacer,
//! disk space and temperature (the latter two take the probe's readings as arguments).
use vstd::prelude::*;
use crate::modules::{Module, ModuleRes};
use crate::output::{plain, ModuleOutput};
use crate::output::Fragment;
use crate::text::{char_from_code, char_text, decimal, decimal_text};

verus! {

/// The clock pattern: day/month/year hours:minutes.
pub open spec fn clock_pattern() -> Seq<char> {
    "%d/%m/%y %H:%M"@
}

/// Relies on chrono's `Local::now` and `DateTime::format`: the local time rendered with
/// `pattern`, a pattern chrono accepts. It depends on the clock: nothing is stated of it.
#[verifier::external_body]
fn local_time_text(pattern: &str) -> (r: String)
    requires
        pattern@ == clock_pattern(),
{
    chrono::Local::now().format(pattern).to_string()
}

/// The clock producer.
pub struct DateTimeModule;

impl Module for DateTimeModule {
    fn get_output(&mut self) -> ModuleRes {
        let pattern = "%d/%m/%y %H:%M";
        Ok(ModuleOutput::new(local_time_text(pattern)))
    }
}

/// A producer of `N` spaces, used as padding at the end of the bar.
pub struct SpacerModule<const N: usize> {
    data: String,
}

impl<const N: usize> SpacerModule<N> {
    pub fn new() -> (r: Self)
        ensures
            r.text()@ == Seq::new(N as nat, |i: int| ' '),
    {
        let mut data = String::new();
        let mut i: usize = 0;
        while i < N
            invariant
                i <= N,
                data@ == Seq::new(i as nat, |k: int| ' '),
            decreases N - i,
        {
            data.append(" ");
            proof {
                reveal_strlit(" ");
                assert(data@ =~= Seq::new((i + 1) as nat, |k: int| ' '));
            }
            i = i + 1;
        }
        SpacerModule { data }
    }

    pub closed spec fn text(&self) -> String {
        self.data
    }

    /// The block of this spacer.
    pub fn output(&self) -> (r: ModuleOutput)
        ensures
            r@ == plain(self.text()@),
    {
        ModuleOutput::new(self.data.clone())
    }
}

impl<const N: usize> Module for SpacerModule<N> {
    fn get_output(&mut self) -> ModuleRes {
        Ok(self.output())
    }
}

/// The first reading whose name is `name`.
pub open spec fn find_named<T>(items: Seq<(String, T)>, name: Seq<char>) -> Option<T>
    decreases items.len(),
{
    if items.len() == 0 {
        None
    } else if items[0].0@ == name {
        Some(items[0].1)
    } else {
        find_named(items.drop_first(), name)
    }
}

/// The disk-space producer for the disk named `dev`.
pub struct DiskSpaceModule {
    dev: &'static str,
}

pub open spec fn gib() -> nat {
    1073741824
}

impl DiskSpaceModule {
    pub fn new(dev: &'static str) -> (r: Self)
        ensures
            r.dev()@ == dev@,
    {
        DiskSpaceModule { dev }
    }

    pub closed spec fn dev(&self) -> &'static str {
        self.dev
    }

    /// The disk looked for.
    pub fn device(&self) -> (r: &'static str)
        ensures
            r@ == self.dev()@,
    {
        self.dev
    }

    /// Disk space is sampled every fifth tick.
    pub fn rate(&self) -> (r: usize)
        ensures
            r == 5,
    {
        5
    }

    /// The block for the disks present, each a name and its available bytes: the whole
    /// GiB available on the first disk of that name, or an error naming its absence.
    pub fn output(&self, disks: &Vec<(String, u64)>) -> (r: ModuleRes)
        ensures
            match find_named(disks@, self.dev()@) {
                Some(avail) => r matches Ok(o) && o@ == plain(
                    decimal(avail as nat / gib()) + " GiB"@,
                ),
                None => r matches Err(Some(m)) && m@ == "Disk unavailable"@,
            },
    {
        let dev = String::from_str(self.dev);
        let mut i: usize = 0;
        assert(disks@.skip(0) =~= disks@);
        while i < disks.len()
            invariant
                i <= disks.len(),
                dev@ == self.dev()@,
                find_named(disks@, dev@) == find_named(disks@.skip(i as int), dev@),
            decreases disks.len() - i,
        {
            assert(disks@.skip(i as int).drop_first() =~= disks@.skip(i + 1));
            if disks[i].0 == dev {
                let mut t = decimal_text((disks[i].1 / 1073741824) as u128);
                t.append(" GiB");
                return Ok(ModuleOutput::new(t));
            }
            i = i + 1;
        }
        assert(disks@.skip(disks.len() as int) =~= Seq::<(String, u64)>::empty());
        Err(Some(String::from_str("Disk unavailable")))
    }
}

/// The temperature producer: the sensor labelled `CPU`.
pub struct TemperatureModule;

impl TemperatureModule {
    pub fn new() -> (r: Self) {
        TemperatureModule
    }

    /// Temperature is sampled every fifth tick.
    pub fn rate(&self) -> (r: usize)
        ensures
            r == 5,
    {
        5
    }

    /// The block for the sensors present, each a label and its rendered reading in degrees
    /// Celsius: the reading of the first sensor labelled `CPU`, or an error naming its
    /// absence.
    pub fn output(&self, sensors: &Vec<(String, String)>) -> (r: ModuleRes)
        ensures
            match find_named(sensors@, "CPU"@) {
                Some(reading) => r matches Ok(o) && o@ == plain(reading@ + "\u{b0}C"@),
                None => r matches Err(Some(m)) && m@ == "CPU unavailable"@,
            },
    {
        let label = String::from_str("CPU");
        let mut i: usize = 0;
        assert(sensors@.skip(0) =~= sensors@);
        while i < sensors.len()
            invariant
                i <= sensors.len(),
                label@ == "CPU"@,
                find_named(sensors@, label@) == find_named(sensors@.skip(i as int), label@),
            decreases sensors.len() - i,
        {
            assert(sensors@.skip(i as int).drop_first() =~= sensors@.skip(i + 1));
            if sensors[i].0 == label {
                let mut t = sensors[i].1.clone();
                t.append("\u{b0}C");
                return Ok(ModuleOutput::new(t));
            }
            i = i + 1;
        }
        assert(sensors@.skip(sensors.len() as int) =~= Seq::<(String, String)>::empty());
        Err(Some(String::from_str("CPU unavailable")))
    }
}

/// The sparkline glyph of a load bucket: the character `bucket` steps above U+2581
/// (LOWER ONE EIGHTH BLOCK), when that is a Unicode scalar value.
pub fn bucket_glyph(bucket: u32) -> (r: Option<char>)
    ensures
        r matches Some(c) ==> c as u32 as int == 0x2581 + bucket,
        r is Some <==> (0x2581 + bucket <= 0x10FFFF && !(0xD800 <= 0x2581 + bucket <= 0xDFFF)),
{
    if bucket <= 0x10FFFF - 0x2581 {
        char_from_code(0x2581 + bucket)
    } else {
        None
    }
}

/// The CPU block: one glyph per core on a dark background with a black border, in the
/// alert color when the machine is overloaded.
pub open spec fn cpu_fragment(glyphs: Seq<char>, overloaded: bool) -> Fragment {
    Fragment {
        bg: Some("#44475a"@),
        border: Some("#000000"@),
        fg: if overloaded {
            Some("#ff5555"@)
        } else {
            None
        },
        ..plain(glyphs)
    }
}

/// Builds the CPU block from the per-core glyphs.
pub fn cpu_output(glyphs: &Vec<char>, overloaded: bool) -> (r: ModuleOutput)
    ensures
        r@ == cpu_fragment(glyphs@, overloaded),
{
    let mut t = String::new();
    let mut i: usize = 0;
    while i < glyphs.len()
        invariant
            i <= glyphs.len(),
            t@ == glyphs@.take(i as int),
        decreases glyphs.len() - i,
    {
        t.append(char_text(glyphs[i]).as_str());
        assert(glyphs@.take(i + 1) =~= glyphs@.take(i as int).push(glyphs@[i as int]));
        i = i + 1;
    }
    assert(glyphs@.take(glyphs.len() as int) =~= glyphs@);
    let out = ModuleOutput::new(t).with_color_bg(String::from_str("#44475a")).with_border(
        String::from_str("#000000"),
    );
    if overloaded {
        out.with_color_fg(String::from_str("#ff5555"))
    } else {
        out
    }
}

} // verus!
