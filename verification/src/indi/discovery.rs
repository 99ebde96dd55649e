//! Finding the cameras and mounts among the devices of a server: by what a driver says it is in
//! the `DRIVER_INTERFACE` bitmask of its `DRIVER_INFO`, never by name.

use super::{find_text, Reading};
use crate::text;
use vstd::prelude::*;

verus! {

/// What a device is used as.
#[derive(Clone, Copy, Debug, PartialEq, Eq, Structural)]
pub enum Role {
    /// A CCD.
    Camera,
    /// A telescope.
    Mount,
}

/// A device of a server, with its bitmask where it has told one.
#[derive(Debug)]
pub struct Listed {
    pub name: String,
    pub interface: Option<u32>,
}

/// Whether a bitmask has the bit of a role: the lowest for telescopes, the next for CCDs.
pub open spec fn plays(mask: u32, role: Role) -> bool {
    match role {
        Role::Mount => mask % 2 == 1,
        Role::Camera => (mask / 2) % 2 == 1,
    }
}

/// Whether a device can be used in a role; not before it has told its bitmask.
pub open spec fn fit(device: Listed, role: Role) -> bool {
    device.interface matches Some(mask) && plays(mask, role)
}

/// The names of the devices fit for a role, in the order of the list.
pub open spec fn names_fit(devices: Seq<Listed>, role: Role) -> Seq<Seq<char>>
    decreases devices.len(),
{
    if devices.len() == 0 {
        Seq::empty()
    } else {
        let front = names_fit(devices.drop_last(), role);
        if fit(devices.last(), role) {
            front.push(devices.last().name@)
        } else {
            front
        }
    }
}

fn is_fit(device: &Listed, role: Role) -> (b: bool)
    ensures
        b == fit(*device, role),
{
    match device.interface {
        Some(mask) => match role {
            Role::Mount => mask % 2 == 1,
            Role::Camera => (mask / 2) % 2 == 1,
        },
        None => false,
    }
}

/// The names of the devices fit for a role, in the order of the list.
pub fn discover(devices: &[Listed], role: Role) -> (names: Vec<String>)
    ensures
        names@.map_values(|s: String| s@) == names_fit(devices@, role),
{
    let mut names: Vec<String> = Vec::new();
    let mut i: usize = 0;
    assert(names@.map_values(|s: String| s@) =~= names_fit(devices@.take(0), role));
    while i < devices.len()
        invariant
            i <= devices@.len(),
            names@.map_values(|s: String| s@) == names_fit(devices@.take(i as int), role),
        decreases devices@.len() - i,
    {
        let ghost before = names@.map_values(|s: String| s@);
        assert(devices@.take(i + 1).drop_last() =~= devices@.take(i as int));
        if is_fit(&devices[i], role) {
            names.push(devices[i].name.clone());
            assert(names@.map_values(|s: String| s@) =~= before.push(devices@[i as int].name@));
        }
        i = i + 1;
    }
    assert(devices@.take(devices@.len() as int) =~= devices@);
    names
}

/// The name of the first device fit for a role, which is bound on connecting.
pub fn first_fit(devices: &[Listed], role: Role) -> (name: Option<String>)
    ensures
        match name {
            Some(n) => names_fit(devices@, role).len() > 0 && n@ == names_fit(devices@, role)[0],
            None => names_fit(devices@, role).len() == 0,
        },
{
    let names: Vec<String> = discover(devices, role);
    let ghost shown = names@.map_values(|s: String| s@);
    if names.len() == 0 {
        assert(shown.len() == 0);
        None
    } else {
        assert(shown[0] == names@[0]@);
        Some(names[0].clone())
    }
}

/// How often a server's devices are listed before those that have not told their bitmask are left
/// aside.
pub const DISCOVERY_TRIES: u32 = 10;

/// Wait before each listing (ms).
pub const DISCOVERY_INTERVAL_MS: u64 = 500;

/// Whether every device has told its bitmask.
pub open spec fn all_told(devices: Seq<Listed>) -> bool {
    forall|i: int| 0 <= i < devices.len() ==> (#[trigger] devices[i]).interface is Some
}

/// Whether devices need not be listed again after `tries` listings: some were found and all of them
/// have told their bitmask, or there were enough listings.
pub fn discovery_over(devices: &[Listed], tries: u32) -> (over: bool)
    ensures
        over == (tries >= DISCOVERY_TRIES || devices@.len() > 0 && all_told(devices@)),
{
    if tries >= DISCOVERY_TRIES {
        return true;
    }
    let mut i: usize = 0;
    while i < devices.len()
        invariant
            i <= devices@.len(),
            tries < DISCOVERY_TRIES,
            forall|j: int| 0 <= j < i ==> (#[trigger] devices@[j]).interface is Some,
        decreases devices@.len() - i,
    {
        if devices[i].interface.is_none() {
            return false;
        }
        i = i + 1;
    }
    devices.len() > 0
}

/// A device is found exactly when it is fit, whatever it is called.
pub proof fn law_devices_are_found_by_interface(devices: Seq<Listed>, role: Role, name: Seq<char>)
    ensures
        names_fit(devices, role).contains(name) <==> exists|i: int|
            0 <= i < devices.len() && #[trigger] fit(devices[i], role) && devices[i].name@ == name,
    decreases devices.len(),
{
    if devices.len() > 0 {
        let rest = devices.drop_last();
        let front = names_fit(rest, role);
        let whole = names_fit(devices, role);
        let n = devices.len() - 1;
        law_devices_are_found_by_interface(rest, role, name);
        if front.contains(name) {
            let i = choose|i: int|
                0 <= i < rest.len() && #[trigger] fit(rest[i], role) && rest[i].name@ == name;
            assert(devices[i] == rest[i] && fit(devices[i], role));
            let j = choose|j: int| 0 <= j < front.len() && front[j] == name;
            assert(whole[j] == name);
        }
        if fit(devices[n], role) && devices[n].name@ == name {
            assert(whole[whole.len() - 1] == name);
        }
        if exists|i: int|
            0 <= i < devices.len() && #[trigger] fit(devices[i], role) && devices[i].name@ == name {
            let i = choose|i: int|
                0 <= i < devices.len() && #[trigger] fit(devices[i], role) && devices[i].name@
                    == name;
            if i < n {
                assert(rest[i] == devices[i] && fit(rest[i], role));
            }
        }
        if whole.contains(name) && !front.contains(name) {
            let j = choose|j: int| 0 <= j < whole.len() && whole[j] == name;
            if j < front.len() {
                assert(front[j] == name);
            }
        }
    }
}

/// The bitmask that a text spells, where it spells one that fits.
pub open spec fn mask_spelled(s: Seq<char>) -> Option<u32> {
    match text::spelled(s) {
        Some(n) => if n <= u32::MAX {
            Some(n as u32)
        } else {
            None
        },
        None => None,
    }
}

/// Read a bitmask written in decimal digits.
pub fn parse_mask(s: &str) -> (mask: Option<u32>)
    ensures
        mask == mask_spelled(s@),
{
    let n: usize = s.unicode_len();
    let mut i: usize = 0;
    let mut value: u32 = 0;
    while i < n
        invariant
            i <= n,
            n == s@.len(),
            i == 0 ==> value == 0,
            i > 0 ==> text::spelled(s@.take(i as int)) == Some(value as nat),
        decreases n - i,
    {
        let c: char = s.get_char(i);
        proof {
            text::lemma_spelled_prefix(s@, i + 1);
            assert(s@.take(i + 1).drop_last() =~= s@.take(i as int));
        }
        if c < '0' || c > '9' {
            return None;
        }
        let digit: u32 = c as u32 - '0' as u32;
        if value > (u32::MAX - digit) / 10 {
            return None;
        }
        value = value * 10 + digit;
        i = i + 1;
    }
    if n == 0 {
        return None;
    }
    assert(s@.take(n as int) =~= s@);
    Some(value)
}

/// The bitmask in a reading of `DRIVER_INFO`.
pub open spec fn told(info: Option<Reading>) -> Option<u32> {
    match info {
        Some(Reading::Texts(elems)) => match super::text_named(elems@, "DRIVER_INTERFACE"@) {
            Some(e) => mask_spelled(e.value@),
            None => None,
        },
        _ => None,
    }
}

/// The bitmask in a reading of `DRIVER_INFO`, where it holds one.
pub fn driver_interface(info: Option<&Reading>) -> (mask: Option<u32>)
    ensures
        mask == told(
            match info {
                Some(r) => Some(*r),
                None => None,
            },
        ),
{
    match info {
        Some(Reading::Texts(elems)) => match find_text(elems, "DRIVER_INTERFACE") {
            Some(e) => parse_mask(e.value.as_str()),
            None => None,
        },
        _ => None,
    }
}

/// The lowest bit of a bitmask is the telescope's and the next one the CCD's, whatever the higher
/// bits say; a device may be both.
pub proof fn law_roles_have_their_bits(rest: u32, telescope: bool, ccd: bool)
    requires
        rest < 0x4000_0000,
    ensures
        ({
            let mask = (4 * rest + (if ccd {
                2int
            } else {
                0
            }) + (if telescope {
                1int
            } else {
                0
            })) as u32;
            (plays(mask, Role::Mount) <==> telescope) && (plays(mask, Role::Camera) <==> ccd)
        }),
{
}

/// A device that has not told its bitmask fits nothing; one that has, fits by it.
pub proof fn law_silent_devices_fit_nothing(device: Listed, role: Role)
    ensures
        device.interface is None ==> !fit(device, role),
        device.interface matches Some(mask) ==> (fit(device, role) <==> plays(mask, role)),
{
}

/// Devices are listed in their order, each as often as it occurs.
pub proof fn law_devices_are_listed_in_order(a: Seq<Listed>, b: Seq<Listed>, role: Role)
    ensures
        names_fit(a + b, role) == names_fit(a, role) + names_fit(b, role),
        names_fit(a, role).len() <= a.len(),
    decreases b.len(), a.len(),
{
    if b.len() == 0 {
        assert(a + b =~= a);
        assert(names_fit(a, role) + names_fit(b, role) =~= names_fit(a, role));
        if a.len() > 0 {
            law_devices_are_listed_in_order(a.drop_last(), b, role);
        }
    } else {
        law_devices_are_listed_in_order(a, b.drop_last(), role);
        assert((a + b).drop_last() =~= a + b.drop_last());
        assert((a + b).last() == b.last());
        assert(names_fit(a + b, role) =~= names_fit(a, role) + names_fit(b, role));
    }
}

/// A bitmask is read where it is a number that 32 bits hold: every number is read back, and a text
/// with anything but digits is none.
pub proof fn law_masks_are_decimal_numbers(mask: u32, s: Seq<char>, i: int)
    ensures
        mask_spelled(text::decimal(mask as nat)) == Some(mask),
        s.len() == 0 ==> mask_spelled(s) is None,
        0 <= i < s.len() && !(48 <= s[i] as int <= 57) ==> mask_spelled(s) is None,
        text::spelled(s) matches Some(n) && n > u32::MAX ==> mask_spelled(s) is None,
{
    text::law_decimal_reads_back(mask as nat);
    if 0 <= i < s.len() && !(48 <= s[i] as int <= 57) {
        text::lemma_spelled_prefix(s, i + 1);
        assert(s.take(i + 1).last() == s[i]);
    }
}

/// The bitmask is the text named `DRIVER_INTERFACE`; without it nothing was told.
pub proof fn law_mask_is_read_by_name(elems: Vec<super::TextElement>)
    ensures
        super::text_named(elems@, "DRIVER_INTERFACE"@) matches Some(e) ==> told(
            Some(Reading::Texts(elems)),
        ) == mask_spelled(e.value@),
        super::text_named(elems@, "DRIVER_INTERFACE"@) is None ==> told(
            Some(Reading::Texts(elems)),
        ) is None,
        told(None) is None,
        told(Some(Reading::Other)) is None,
        DISCOVERY_TRIES == 10,
        DISCOVERY_INTERVAL_MS == 500,
{
}

/// Every device has told its bitmask unless one has not.
pub proof fn law_one_silent_device_keeps_waiting(devices: Seq<Listed>, i: int)
    ensures
        0 <= i < devices.len() && devices[i].interface is None ==> !all_told(devices),
        all_told(Seq::empty()),
{
}

} // verus!
