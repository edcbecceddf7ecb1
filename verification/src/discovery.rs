//! Device discovery: the announcements devices broadcast, and the merged list of
//! devices found over the network and over Bluetooth.
use vstd::prelude::*;
use vstd::utf8::{
    decode_utf8, decode_utf8_encode_utf8, encode_utf8, encode_utf8_decode_utf8, encode_utf8_valid_utf8,
    is_char_boundary_iff_not_is_continuation_byte, valid_utf8, valid_utf8_split,
};

use crate::bytes::copy_range;
use crate::text::{ascii_chars, lemma_ascii_utf8, lemma_valid_utf8_skip_ascii, string_from_utf8};

verus! {

/// A device that can be sent to.
pub struct BleDevice {
    pub id: String,
    pub name: String,
}

/// The identifier and name of a device.
pub open spec fn device_view(d: BleDevice) -> (Seq<char>, Seq<char>) {
    (d.id@, d.name@)
}

/// The identifiers and names of a list of devices.
pub open spec fn device_views(s: Seq<BleDevice>) -> Seq<(Seq<char>, Seq<char>)> {
    s.map_values(|d: BleDevice| device_view(d))
}

/// The devices of `found` whose name is not in `names`, in order.
pub open spec fn unnamed_in(found: Seq<(Seq<char>, Seq<char>)>, names: Seq<Seq<char>>) -> Seq<
    (Seq<char>, Seq<char>),
>
    decreases found.len(),
{
    if found.len() == 0 {
        Seq::empty()
    } else {
        let rest = unnamed_in(found.drop_last(), names);
        if names.contains(found.last().1) {
            rest
        } else {
            rest.push(found.last())
        }
    }
}

/// Whether the string views are equal, decided on their UTF-8 bytes.
pub fn str_eq(a: &str, b: &str) -> (eq: bool)
    ensures
        eq == (a@ == b@),
{
    let x = a.as_bytes();
    let y = b.as_bytes();
    proof {
        encode_utf8_decode_utf8(a@);
        encode_utf8_decode_utf8(b@);
    }
    if x.len() != y.len() {
        return false;
    }
    let mut i: usize = 0;
    while i < x.len()
        invariant
            x@ == encode_utf8(a@),
            y@ == encode_utf8(b@),
            x@.len() == y@.len(),
            i <= x@.len(),
            forall|j: int| 0 <= j < i ==> x@[j] == y@[j],
        decreases x@.len() - i,
    {
        if x[i] != y[i] {
            return false;
        }
        i = i + 1;
    }
    assert(x@ =~= y@);
    true
}

/// Whether a device named `name` is among `devices`.
fn has_name(devices: &Vec<BleDevice>, name: &String) -> (found: bool)
    ensures
        found == device_views(devices@).map_values(|d: (Seq<char>, Seq<char>)| d.1).contains(name@),
{
    let ghost names = device_views(devices@).map_values(|d: (Seq<char>, Seq<char>)| d.1);
    let mut i: usize = 0;
    while i < devices.len()
        invariant
            i <= devices@.len(),
            names == device_views(devices@).map_values(|d: (Seq<char>, Seq<char>)| d.1),
            forall|j: int| 0 <= j < i ==> #[trigger] names[j] != name@,
        decreases devices@.len() - i,
    {
        if devices[i].name == *name {
            assert(names[i as int] == name@);
            return true;
        }
        i = i + 1;
    }
    false
}

/// The devices to offer the user: every device found on the network, then every
/// device found over Bluetooth whose name no network device has.
pub fn merge_discovered(udp: &Vec<BleDevice>, ble: &Vec<BleDevice>) -> (all: Vec<BleDevice>)
    ensures
        device_views(all@) == device_views(udp@) + unnamed_in(
            device_views(ble@),
            device_views(udp@).map_values(|d: (Seq<char>, Seq<char>)| d.1),
        ),
{
    let ghost names = device_views(udp@).map_values(|d: (Seq<char>, Seq<char>)| d.1);
    let mut all: Vec<BleDevice> = Vec::new();
    let mut i: usize = 0;
    while i < udp.len()
        invariant
            i <= udp@.len(),
            all@.len() == i,
            device_views(all@) == device_views(udp@).subrange(0, i as int),
        decreases udp@.len() - i,
    {
        let d = BleDevice { id: udp[i].id.clone(), name: udp[i].name.clone() };
        let ghost before = all@;
        all.push(d);
        proof {
            assert(all@ == before.push(d));
            assert(device_view(d) == device_views(udp@)[i as int]);
            assert forall|k: int| 0 <= k < i + 1 implies #[trigger] device_views(all@)[k]
                == device_views(udp@).subrange(0, i + 1)[k] by {
                if k < i {
                    assert(all@[k] == before[k]);
                    assert(device_views(before)[k] == device_views(udp@).subrange(0, i as int)[k]);
                }
            }
        }
        i = i + 1;
        assert(device_views(all@) =~= device_views(udp@).subrange(0, i as int));
    }
    assert(device_views(udp@).subrange(0, udp@.len() as int) =~= device_views(udp@));
    let ghost base = device_views(all@);
    let mut j: usize = 0;
    while j < ble.len()
        invariant
            j <= ble@.len(),
            base == device_views(udp@),
            names == device_views(udp@).map_values(|d: (Seq<char>, Seq<char>)| d.1),
            device_views(all@) == base + unnamed_in(device_views(ble@).subrange(0, j as int), names),
        decreases ble@.len() - j,
    {
        let ghost prev = device_views(ble@).subrange(0, j as int);
        let ghost next = device_views(ble@).subrange(0, j + 1);
        assert(next.drop_last() =~= prev);
        if !has_name(udp, &ble[j].name) {
            let d = BleDevice { id: ble[j].id.clone(), name: ble[j].name.clone() };
            let ghost before = all@;
            all.push(d);
            proof {
                assert(all@ == before.push(d));
                assert(device_view(d) == device_views(ble@)[j as int]);
                assert(next.last() == device_views(ble@)[j as int]);
                assert(!names.contains(next.last().1));
                assert(unnamed_in(next, names) == unnamed_in(prev, names).push(next.last()));
                assert(device_views(all@) =~= device_views(before).push(device_view(d)));
            }
            assert(device_views(all@) =~= base + unnamed_in(next, names));
        } else {
            assert(device_views(all@) =~= base + unnamed_in(next, names));
        }
        j = j + 1;
    }
    assert(device_views(ble@).subrange(0, ble@.len() as int) =~= device_views(ble@));
    all
}

/// The bytes that start every announcement: "QUICKDROP_DISCOVER:".
pub open spec fn discovery_prefix() -> Seq<u8> {
    seq![
        0x51u8, 0x55u8, 0x49u8, 0x43u8, 0x4bu8, 0x44u8, 0x52u8, 0x4fu8, 0x50u8, 0x5fu8, 0x44u8,
        0x49u8, 0x53u8, 0x43u8, 0x4fu8, 0x56u8, 0x45u8, 0x52u8, 0x3au8,
    ]
}

/// The position of the last ':' in `s`.
pub open spec fn last_colon(s: Seq<u8>) -> Option<int>
    decreases s.len(),
{
    if s.len() == 0 {
        None
    } else if s.last() == 0x3au8 {
        Some(s.len() - 1)
    } else {
        last_colon(s.drop_last())
    }
}

/// The text without an optional leading '+'.
pub open spec fn unsigned_digits(s: Seq<u8>) -> Seq<u8> {
    if s.len() > 0 && s[0] == 0x2bu8 {
        s.drop_first()
    } else {
        s
    }
}

/// The value of a string of decimal digits.
pub open spec fn digits_value(d: Seq<u8>) -> nat
    decreases d.len(),
{
    if d.len() == 0 {
        0
    } else {
        digits_value(d.drop_last()) * 10 + (d.last() - 48) as nat
    }
}

/// Every byte is a decimal digit.
pub open spec fn all_digits(d: Seq<u8>) -> bool {
    forall|i: int| 0 <= i < d.len() ==> 48 <= #[trigger] d[i] <= 57
}

/// Whether `s` is the decimal notation of a `u16`, as `str::parse::<u16>` accepts it:
/// an optional '+', at least one digit, only digits, a value of at most 65535.
pub open spec fn parses_as_u16(s: Seq<u8>) -> bool {
    let d = unsigned_digits(s);
    d.len() > 0 && all_digits(d) && digits_value(d) <= u16::MAX
}

/// Decides whether `s[start..]` is the decimal notation of a `u16`.
pub fn is_u16_text(s: &[u8], start: usize) -> (ok: bool)
    requires
        start <= s@.len(),
    ensures
        ok == parses_as_u16(s@.subrange(start as int, s@.len() as int)),
{
    let ghost t = s@.subrange(start as int, s@.len() as int);
    let len = s.len();
    let mut from = start;
    if from < len && s[from] == 0x2bu8 {
        from = from + 1;
    }
    let ghost d = s@.subrange(from as int, len as int);
    assert(d =~= unsigned_digits(t));
    if from == len {
        return false;
    }
    let mut acc: u32 = 0;
    let mut i = from;
    assert(d.subrange(0, 0) =~= Seq::<u8>::empty());
    while i < len
        invariant
            from <= i <= len == s@.len(),
            d == s@.subrange(from as int, len as int),
            d == unsigned_digits(s@.subrange(start as int, s@.len() as int)),
            all_digits(d.subrange(0, i - from)),
            acc == if digits_value(d.subrange(0, i - from)) > 65535 {
                65536
            } else {
                digits_value(d.subrange(0, i - from))
            },
        decreases len - i,
    {
        let c = s[i];
        if c < 48 || c > 57 {
            assert(d[i - from] == c);
            assert(!(48 <= d[i - from] <= 57));
            assert(!all_digits(d));
            return false;
        }
        let ghost prev = d.subrange(0, i - from);
        let ghost next = d.subrange(0, i - from + 1);
        assert(next.drop_last() =~= prev);
        assert(next.last() == c);
        if acc < 65536 {
            acc = acc * 10 + (c - 48) as u32;
            if acc > 65536 {
                acc = 65536;
            }
        }
        i = i + 1;
        assert(all_digits(next));
    }
    assert(d.subrange(0, len - from) =~= d);
    acc <= 65535
}

/// The name an announcement payload carries: without a trailing ":port" when what
/// follows its last ':' is a `u16`.
pub open spec fn strip_port(p: Seq<u8>) -> Seq<u8> {
    match last_colon(p) {
        Some(c) => if parses_as_u16(p.subrange(c + 1, p.len() as int)) {
            p.subrange(0, c)
        } else {
            p
        },
        None => p,
    }
}

/// The name announced by a packet, as bytes: the packet must be UTF-8 and start with
/// the announcement prefix.
pub open spec fn spec_announced_name(packet: Seq<u8>) -> Option<Seq<u8>> {
    if valid_utf8(packet) && packet.len() >= 19 && packet.subrange(0, 19) == discovery_prefix() {
        Some(strip_port(packet.subrange(19, packet.len() as int)))
    } else {
        None
    }
}

/// The last ':' is a ':' inside the text.
pub proof fn lemma_last_colon_is_colon(s: Seq<u8>)
    ensures
        last_colon(s) matches Some(c) ==> 0 <= c < s.len() && s[c] == 0x3au8,
    decreases s.len(),
{
    if s.len() > 0 && s.last() != 0x3au8 {
        lemma_last_colon_is_colon(s.drop_last());
    }
}

/// Finds the last ':' in `s`.
fn find_last_colon(s: &[u8]) -> (pos: Option<usize>)
    ensures
        match pos {
            Some(c) => c < s@.len() && last_colon(s@) == Some(c as int),
            None => last_colon(s@) is None,
        },
{
    let mut i = s.len();
    assert(s@.subrange(0, i as int) =~= s@);
    while i > 0
        invariant
            i <= s@.len(),
            last_colon(s@) == last_colon(s@.subrange(0, i as int)),
        decreases i,
    {
        let ghost sub = s@.subrange(0, i as int);
        assert(sub.drop_last() =~= s@.subrange(0, i - 1));
        if s[i - 1] == 0x3au8 {
            return Some(i - 1);
        }
        i = i - 1;
    }
    None
}

/// Reads the device name out of an announcement packet; `None` when the packet is not
/// an announcement.
pub fn parse_announcement(packet: &[u8]) -> (name: Option<String>)
    ensures
        match spec_announced_name(packet@) {
            Some(n) => valid_utf8(n) && (name matches Some(s) && s@ == decode_utf8(n)),
            None => name is None,
        },
{
    let whole = copy_range(packet, 0, packet.len());
    assert(whole@ =~= packet@);
    if string_from_utf8(whole).is_none() {
        return None;
    }
    let len = packet.len();
    if len < 19 {
        return None;
    }
    let prefix: Vec<u8> = vec![
        0x51u8, 0x55u8, 0x49u8, 0x43u8, 0x4bu8, 0x44u8, 0x52u8, 0x4fu8, 0x50u8, 0x5fu8, 0x44u8,
        0x49u8, 0x53u8, 0x43u8, 0x4fu8, 0x56u8, 0x45u8, 0x52u8, 0x3au8,
    ];
    let mut i: usize = 0;
    while i < 19
        invariant
            i <= 19 <= len == packet@.len(),
            prefix@ == discovery_prefix(),
            forall|j: int| 0 <= j < i ==> packet@[j] == prefix@[j],
        decreases 19 - i,
    {
        if packet[i] != prefix[i] {
            assert(packet@.subrange(0, 19)[i as int] != discovery_prefix()[i as int]);
            return None;
        }
        i = i + 1;
    }
    assert(packet@.subrange(0, 19) =~= discovery_prefix());
    let payload = copy_range(packet, 19, len);
    let name_end = match find_last_colon(payload.as_slice()) {
        Some(c) => if is_u16_text(payload.as_slice(), c + 1) {
            c
        } else {
            payload.len()
        },
        None => payload.len(),
    };
    let name_bytes = copy_range(payload.as_slice(), 0, name_end);
    proof {
        let p = packet@.subrange(19, packet@.len() as int);
        assert(payload@ == p);
        assert(payload@.subrange(0, payload@.len() as int) =~= payload@);
        assert(name_bytes@ == strip_port(p));
        assert forall|k: int| 0 <= k < 19 implies #[trigger] packet@[k] < 128 by {
            assert(packet@[k] == discovery_prefix()[k]);
        }
        lemma_valid_utf8_skip_ascii(packet@, 19);
        if name_end < payload@.len() {
            assert(payload@[name_end as int] == 0x3au8) by {
                lemma_last_colon_is_colon(payload@);
            }
            is_char_boundary_iff_not_is_continuation_byte(payload@, name_end as int);
            valid_utf8_split(payload@, name_end as int);
        }
    }
    string_from_utf8(name_bytes)
}

/// The characters of the announcement prefix.
pub open spec fn discovery_prefix_chars() -> Seq<char> {
    ascii_chars(discovery_prefix())
}

/// Builds the announcement of a device named `name`.
pub fn announcement(name: &str) -> (msg: String)
    ensures
        msg@ == discovery_prefix_chars() + name@,
{
    let mut msg = String::from_str("QUICKDROP_DISCOVER:");
    proof {
        reveal_strlit("QUICKDROP_DISCOVER:");
        assert("QUICKDROP_DISCOVER:"@ =~= discovery_prefix_chars());
    }
    msg.append(name);
    msg
}

/// The UTF-8 encoding of a concatenation is the concatenation of the encodings.
pub proof fn lemma_encode_utf8_concat(a: Seq<char>, b: Seq<char>)
    ensures
        encode_utf8(a + b) == encode_utf8(a) + encode_utf8(b),
    decreases a.len(),
{
    if a.len() == 0 {
        assert(a + b =~= b);
    } else {
        assert((a + b).drop_first() =~= a.drop_first() + b);
        lemma_encode_utf8_concat(a.drop_first(), b);
        assert((a + b)[0] == a[0]);
    }
}

/// Reading an announcement gives back the announced name, unless the name itself ends
/// in ':' followed by a port number.
pub proof fn lemma_announcement_roundtrip(name: Seq<char>)
    requires
        strip_port(encode_utf8(name)) == encode_utf8(name),
    ensures
        spec_announced_name(encode_utf8(discovery_prefix_chars() + name)) == Some(
            encode_utf8(name),
        ),
        valid_utf8(encode_utf8(name)),
        decode_utf8(encode_utf8(name)) == name,
{
    let pre = discovery_prefix();
    lemma_ascii_utf8(pre);
    decode_utf8_encode_utf8(pre);
    lemma_encode_utf8_concat(discovery_prefix_chars(), name);
    let packet = encode_utf8(discovery_prefix_chars() + name);
    assert(packet == pre + encode_utf8(name));
    encode_utf8_valid_utf8(discovery_prefix_chars() + name);
    assert(packet.subrange(0, 19) =~= pre);
    assert(packet.subrange(19, packet.len() as int) =~= encode_utf8(name));
    encode_utf8_valid_utf8(name);
    encode_utf8_decode_utf8(name);
}

/// Whether an announcement from `ip` naming `name` comes from another device:
/// not one named like this device, not from a loopback or unspecified address, not
/// from one of this device's own addresses.
pub fn from_other_device(name: &str, my_name: &str, ip: &str, is_own_ip: bool) -> (other: bool)
    ensures
        other == !(name@ == my_name@ || ip@ == "127.0.0.1"@ || ip@ == "0.0.0.0"@ || is_own_ip),
{
    let same_name = str_eq(name, my_name);
    let loopback = str_eq(ip, "127.0.0.1");
    let unspecified = str_eq(ip, "0.0.0.0");
    !(same_name || loopback || unspecified || is_own_ip)
}

/// Whether `ip` is one of `local_ips`.
pub fn is_own_ip(ip: &str, local_ips: &Vec<String>) -> (own: bool)
    ensures
        own == exists|i: int| 0 <= i < local_ips@.len() && #[trigger] local_ips@[i]@ == ip@,
{
    let mut i: usize = 0;
    while i < local_ips.len()
        invariant
            i <= local_ips@.len(),
            forall|j: int| 0 <= j < i ==> #[trigger] local_ips@[j]@ != ip@,
        decreases local_ips@.len() - i,
    {
        if str_eq(local_ips[i].as_str(), ip) {
            return true;
        }
        i = i + 1;
    }
    false
}

/// How long a device found on the network stays listed without announcing itself.
pub const UDP_DEVICE_TTL_NANOS: u128 = 10000000000;

/// How long a device found over Bluetooth stays listed without being seen, in seconds.
pub const BLE_DEVICE_TTL_SECS: u64 = 30;

/// A device found on the network stays listed while less than ten seconds passed
/// since it last announced itself.
pub fn udp_device_fresh(elapsed_nanos: u128) -> (fresh: bool)
    ensures
        fresh == (elapsed_nanos < UDP_DEVICE_TTL_NANOS),
{
    elapsed_nanos < UDP_DEVICE_TTL_NANOS
}

/// A device found over Bluetooth stays listed while at most thirty whole seconds
/// passed since it was last seen.
pub fn ble_device_fresh(elapsed_secs: u64) -> (fresh: bool)
    ensures
        fresh == (elapsed_secs <= BLE_DEVICE_TTL_SECS),
{
    elapsed_secs <= BLE_DEVICE_TTL_SECS
}

/// The name shown for a Bluetooth device that advertises none.
pub fn advertised_name(local_name: Option<String>) -> (name: String)
    ensures
        name@ == match local_name {
            Some(n) => n@,
            None => "Nearby Device"@,
        },
{
    match local_name {
        Some(n) => n,
        None => String::from_str("Nearby Device"),
    }
}

/// A found device stays exactly when its name is none of `names`.
pub proof fn lemma_unnamed_in_membership(
    found: Seq<(Seq<char>, Seq<char>)>,
    names: Seq<Seq<char>>,
    x: (Seq<char>, Seq<char>),
)
    ensures
        unnamed_in(found, names).contains(x) <==> (found.contains(x) && !names.contains(x.1)),
    decreases found.len(),
{
    if found.len() > 0 {
        let rest = found.drop_last();
        lemma_unnamed_in_membership(rest, names, x);
        assert(found =~= rest.push(found.last()));
        if found.contains(x) && x != found.last() {
            let i = choose|i: int| 0 <= i < found.len() && found[i] == x;
            assert(i < found.len() - 1);
            assert(rest[i] == x);
        }
        if rest.contains(x) {
            let i = choose|i: int| 0 <= i < rest.len() && rest[i] == x;
            assert(found[i] == x);
        }
        if !names.contains(found.last().1) {
            let r = unnamed_in(rest, names);
            if r.push(found.last()).contains(x) && x != found.last() {
                let i = choose|i: int| 0 <= i < r.push(found.last()).len() && r.push(found.last())[i] == x;
                assert(r[i] == x);
            }
            if x == found.last() {
                assert(r.push(found.last())[r.len() as int] == x);
            }
            if r.contains(x) {
                let i = choose|i: int| 0 <= i < r.len() && r[i] == x;
                assert(r.push(found.last())[i] == x);
            }
        } else {
            if x == found.last() {
                assert(found[found.len() - 1] == x);
            }
        }
    }
}

/// Merging keeps a Bluetooth device exactly when no network device, any of them, has
/// its name: the devices that follow the network devices in the merged list are the
/// Bluetooth devices whose name no network device has.
pub proof fn lemma_merge_keeps_unnamed(udp: Seq<BleDevice>, ble: Seq<BleDevice>, j: int)
    requires
        0 <= j < ble.len(),
    ensures
        unnamed_in(
            device_views(ble),
            device_views(udp).map_values(|d: (Seq<char>, Seq<char>)| d.1),
        ).contains(device_view(ble[j])) <==> (forall|k: int|
            0 <= k < udp.len() ==> #[trigger] udp[k].name@ != ble[j].name@),
{
    let names = device_views(udp).map_values(|d: (Seq<char>, Seq<char>)| d.1);
    let b = device_view(ble[j]);
    lemma_unnamed_in_membership(device_views(ble), names, b);
    assert(device_views(ble)[j] == b);
    assert(device_views(ble).contains(b));
    if names.contains(b.1) {
        let i = choose|i: int| 0 <= i < names.len() && names[i] == b.1;
        assert(names[i] == device_view(udp[i]).1);
        assert(udp[i].name@ == ble[j].name@);
    }
    if exists|k: int| 0 <= k < udp.len() && #[trigger] udp[k].name@ == ble[j].name@ {
        let k = choose|k: int| 0 <= k < udp.len() && #[trigger] udp[k].name@ == ble[j].name@;
        assert(names[k] == udp[k].name@);
        assert(names.contains(b.1));
    }
}

/// The devices kept are those of `found` whose name is none of `names`, each once and
/// in their order: a filter of `found`.
pub proof fn lemma_unnamed_in_is_filter(found: Seq<(Seq<char>, Seq<char>)>, names: Seq<Seq<char>>)
    ensures
        unnamed_in(found, names) == found.filter(|x: (Seq<char>, Seq<char>)| !names.contains(x.1)),
    decreases found.len(),
{
    reveal_with_fuel(Seq::filter, 1);
    if found.len() > 0 {
        lemma_unnamed_in_is_filter(found.drop_last(), names);
    }
}

} // verus!
