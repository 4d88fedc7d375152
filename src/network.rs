//! The network producer: link state of one interface as reported by the link-management
//! service.
use vstd::prelude::*;
use crate::modules::ModuleRes;
use crate::output::{plain, Fragment, ModuleOutput};
use crate::text::{decimal, decimal_text, pad_left, padded_decimal_text};

verus! {

/// What the link-management service reported of an interface. A field is `None` where
/// the query for it failed.
pub enum Link {
    /// The service could not be reached.
    Unreachable,
    /// No device has that interface name.
    Missing,
    /// A wireless device; the access-point fields are `None` when there is no active one.
    Wireless {
        ssid: Option<String>,
        strength: Option<u8>,
        frequency: Option<u32>,
        addresses: Option<Vec<Vec<[u8; 4]>>>,
    },
    /// A wired device.
    Wired { carrier: Option<bool>, speed: Option<u32>, addresses: Option<Vec<Vec<[u8; 4]>>> },
    /// A device of another kind.
    Other,
}

/// The network producer for one interface, shown under an optional short name.
pub struct NetworkModule {
    device: &'static str,
    name: Option<&'static str>,
}

/// The first address of the first configuration that has one.
pub open spec fn first_address(addrs: Seq<Vec<[u8; 4]>>) -> Option<[u8; 4]>
    decreases addrs.len(),
{
    if addrs.len() == 0 {
        None
    } else if addrs[0]@.len() > 0 {
        Some(addrs[0]@[0])
    } else {
        first_address(addrs.drop_first())
    }
}

/// ` a.b.c.d` for the first address, or nothing.
pub open spec fn address_text(addrs: Seq<Vec<[u8; 4]>>) -> Seq<char> {
    match first_address(addrs) {
        Some(a) => " "@ + decimal(a@[0] as nat) + "."@ + decimal(a@[1] as nat) + "."@ + decimal(
            a@[2] as nat,
        ) + "."@ + decimal(a@[3] as nat),
        None => seq![],
    }
}

pub open spec fn up_color() -> Seq<char> {
    "#50fa7b"@
}

pub open spec fn down_color() -> Seq<char> {
    "#ff5555"@
}

/// The block of a link that is down.
pub open spec fn down_fragment(label: Seq<char>) -> Fragment {
    Fragment { fg: Some(down_color()), ..plain(label + ": down"@) }
}

/// The block of an active wireless link.
pub open spec fn wireless_fragment(
    label: Seq<char>,
    ssid: Seq<char>,
    strength: nat,
    frequency: nat,
    addrs: Seq<Vec<[u8; 4]>>,
) -> Fragment {
    Fragment {
        fg: Some(up_color()),
        ..plain(
            label + ": ("@ + pad_left(decimal(strength), 3) + "% at "@ + ssid + ", "@ + decimal(
                frequency / 1024,
            ) + " Mb/s)"@ + address_text(addrs),
        )
    }
}

/// The block of an active wired link.
pub open spec fn wired_fragment(label: Seq<char>, speed: nat, addrs: Seq<Vec<[u8; 4]>>) -> Fragment {
    Fragment {
        fg: Some(up_color()),
        ..plain(label + ": ("@ + decimal(speed) + " Mb/s)"@ + address_text(addrs))
    }
}

/// What the producer hands back for `link`, shown under `label`.
pub open spec fn link_result(label: Seq<char>, link: Link, r: ModuleRes) -> bool {
    match link {
        Link::Unreachable => r matches Err(Some(m)) && m@ == "dbus unavailable"@,
        Link::Missing => r matches Err(None),
        Link::Other => r matches Err(Some(m)) && m@ == "Unsupported device"@,
        Link::Wireless { ssid, strength, frequency, addresses } => r matches Ok(o) && o@ == match (
            ssid,
            strength,
            frequency,
            addresses,
        ) {
            (Some(s), Some(st), Some(f), Some(a)) => wireless_fragment(
                label,
                s@,
                st as nat,
                f as nat,
                a@,
            ),
            _ => down_fragment(label),
        },
        Link::Wired { carrier, speed, addresses } => r matches Ok(o) && o@ == match (
            carrier,
            speed,
            addresses,
        ) {
            (Some(true), Some(sp), Some(a)) => wired_fragment(label, sp as nat, a@),
            _ => down_fragment(label),
        },
    }
}

fn address_of(addrs: &Vec<Vec<[u8; 4]>>) -> (r: String)
    ensures
        r@ == address_text(addrs@),
{
    let mut i: usize = 0;
    assert(addrs@.skip(0) =~= addrs@);
    while i < addrs.len()
        invariant
            i <= addrs.len(),
            first_address(addrs@) == first_address(addrs@.skip(i as int)),
        decreases addrs.len() - i,
    {
        assert(addrs@.skip(i as int).drop_first() =~= addrs@.skip(i + 1));
        if addrs[i].len() > 0 {
            let a: [u8; 4] = addrs[i][0];
            let mut r = String::from_str(" ");
            r.append(decimal_text(a[0] as u128).as_str());
            r.append(".");
            r.append(decimal_text(a[1] as u128).as_str());
            r.append(".");
            r.append(decimal_text(a[2] as u128).as_str());
            r.append(".");
            r.append(decimal_text(a[3] as u128).as_str());
            return r;
        }
        i = i + 1;
    }
    assert(addrs@.skip(addrs.len() as int) =~= Seq::<Vec<[u8; 4]>>::empty());
    String::new()
}

impl NetworkModule {
    pub fn new(device: &'static str) -> (r: Self)
        ensures
            r.device()@ == device@,
            r.name() is None,
    {
        NetworkModule { device, name: None }
    }

    pub fn with_name(self, name: &'static str) -> (r: Self)
        ensures
            r.device()@ == self.device()@,
            r.name() matches Some(n) && n@ == name@,
    {
        NetworkModule { name: Some(name), ..self }
    }

    pub closed spec fn device(&self) -> &'static str {
        self.device
    }

    pub closed spec fn name(&self) -> Option<&'static str> {
        self.name
    }

    /// The name shown on the bar: the short name if one was given, else the interface.
    pub open spec fn label(&self) -> Seq<char> {
        match self.name() {
            Some(n) => n@,
            None => self.device()@,
        }
    }

    /// The interface queried.
    pub fn interface(&self) -> (r: &'static str)
        ensures
            r@ == self.device()@,
    {
        self.device
    }

    /// The network is sampled every fifth tick.
    pub fn rate(&self) -> (r: usize)
        ensures
            r == 5,
    {
        5
    }

    /// The block for what the service reported of the interface.
    pub fn output(&self, link: Link) -> (r: ModuleRes)
        ensures
            link_result(self.label(), link, r),
    {
        let label: &str = match self.name {
            Some(n) => n,
            None => self.device,
        };
        match link {
            Link::Unreachable => Err(Some(String::from_str("dbus unavailable"))),
            Link::Missing => Err(None),
            Link::Other => Err(Some(String::from_str("Unsupported device"))),
            Link::Wireless { ssid, strength, frequency, addresses } => {
                match (ssid, strength, frequency, addresses) {
                    (Some(s), Some(st), Some(f), Some(a)) => {
                        let mut t = String::from_str(label);
                        t.append(": (");
                        t.append(padded_decimal_text(st as u128, 3).as_str());
                        t.append("% at ");
                        t.append(s.as_str());
                        t.append(", ");
                        t.append(decimal_text((f / 1024) as u128).as_str());
                        t.append(" Mb/s)");
                        t.append(address_of(&a).as_str());
                        Ok(ModuleOutput::new(t).with_color_fg(String::from_str("#50fa7b")))
                    },
                    _ => Ok(down_output(label)),
                }
            },
            Link::Wired { carrier, speed, addresses } => {
                match (carrier, speed, addresses) {
                    (Some(true), Some(sp), Some(a)) => {
                        let mut t = String::from_str(label);
                        t.append(": (");
                        t.append(decimal_text(sp as u128).as_str());
                        t.append(" Mb/s)");
                        t.append(address_of(&a).as_str());
                        Ok(ModuleOutput::new(t).with_color_fg(String::from_str("#50fa7b")))
                    },
                    _ => Ok(down_output(label)),
                }
            },
        }
    }
}

fn down_output(label: &str) -> (r: ModuleOutput)
    ensures
        r@ == down_fragment(label@),
{
    let mut t = String::from_str(label);
    t.append(": down");
    ModuleOutput::new(t).with_color_fg(String::from_str("#ff5555"))
}

} // verus!
