//! Device identities and the store of trusted devices.
use vstd::hash_map::StringHashMap;
use vstd::prelude::*;

use base64::engine::general_purpose;
use base64::Engine as _;
use rand::Rng;

use crate::crypto::{sha256, sha256_digest};
use crate::text::{ascii_chars, hex_lower, hex_lower_bytes};

verus! {

/// Length of a handshake nonce in bytes.
pub const NONCE_SIZE: usize = 32;

/// The stages of the server side of a handshake.
#[derive(Debug, Clone, Copy, PartialEq, Eq, Structural)]
pub enum State {
    New,
    HelloReceived,
    ChallengeSent,
    Authenticated,
    Rejected,
}

/// A device the user chose to trust: its name and its base64-encoded public key.
pub struct TrustedDevice {
    pub name: String,
    pub public_key: String,
}

/// The digit of the standard base64 alphabet (RFC 4648) for the six-bit value `v`.
pub open spec fn base64_digit(v: int) -> char {
    if v < 26 {
        (65 + v) as char
    } else if v < 52 {
        (97 + v - 26) as char
    } else if v < 62 {
        (48 + v - 52) as char
    } else if v == 62 {
        '+'
    } else {
        '/'
    }
}

/// The standard base64 encoding (RFC 4648, with padding) of `data`: four digits for
/// every three bytes, and a last group padded with '='.
pub open spec fn base64_standard(data: Seq<u8>) -> Seq<char>
    decreases data.len(),
{
    if data.len() == 0 {
        Seq::empty()
    } else if data.len() == 1 {
        let a = data[0] as int;
        seq![base64_digit(a / 4), base64_digit((a % 4) * 16), '=', '=']
    } else if data.len() == 2 {
        let a = data[0] as int;
        let b = data[1] as int;
        seq![base64_digit(a / 4), base64_digit((a % 4) * 16 + b / 16), base64_digit((b % 16) * 4), '=']
    } else {
        let a = data[0] as int;
        let b = data[1] as int;
        let c = data[2] as int;
        seq![
            base64_digit(a / 4),
            base64_digit((a % 4) * 16 + b / 16),
            base64_digit((b % 16) * 4 + c / 64),
            base64_digit(c % 64),
        ] + base64_standard(data.subrange(3, data.len() as int))
    }
}

/// Calls `Engine::encode` of the `base64` crate on `general_purpose::STANDARD`.
/// Claims: the result is the standard base64 encoding of `data`, with padding.
#[verifier::external_body]
fn base64_encode(data: &[u8]) -> (s: String)
    ensures
        s@ == base64_standard(data@),
{
    general_purpose::STANDARD.encode(data)
}

/// Calls `rand::rng().fill` of the `rand` crate: 32 random bytes. Nothing is claimed
/// of the bytes.
#[verifier::external_body]
pub fn generate_nonce() -> (nonce: [u8; NONCE_SIZE]) {
    let mut nonce = [0u8; NONCE_SIZE];
    rand::rng().fill(&mut nonce);
    nonce
}

/// The identifier of the device whose public key is `public_key`: the lowercase hex
/// notation of its SHA-256 digest.
pub open spec fn spec_device_id(public_key: Seq<u8>) -> Seq<char> {
    ascii_chars(hex_lower_bytes(sha256(public_key)))
}

/// The identifier of the device whose public key is `public_key`.
pub fn device_id(public_key: &[u8]) -> (id: String)
    ensures
        id@ == spec_device_id(public_key@),
{
    let digest = sha256_digest(public_key);
    hex_lower(&digest)
}

/// The trusted devices, by identifier.
pub struct Store {
    devices: StringHashMap<TrustedDevice>,
    ids: Vec<String>,
}

/// The identifiers of a list of strings.
pub open spec fn string_views(v: Seq<String>) -> Seq<Seq<char>> {
    v.map_values(|s: String| s@)
}

impl View for Store {
    type V = Map<Seq<char>, (Seq<char>, Seq<char>)>;

    /// Each trusted device's identifier, mapped to its name and encoded public key.
    closed spec fn view(&self) -> Self::V {
        self.devices@.map_values(|d: TrustedDevice| (d.name@, d.public_key@))
    }
}

impl Store {
    /// The identifiers are listed once each, and exactly the stored ones are listed.
    pub closed spec fn wf(&self) -> bool {
        &&& string_views(self.ids@).no_duplicates()
        &&& forall|k: Seq<char>|
            self.devices@.contains_key(k) <==> string_views(self.ids@).contains(k)
    }

    /// The listed identifiers.
    pub closed spec fn listed(&self) -> Seq<Seq<char>> {
        string_views(self.ids@)
    }

    /// An empty store.
    pub fn new() -> (s: Self)
        ensures
            s@ == Map::<Seq<char>, (Seq<char>, Seq<char>)>::empty(),
            s.wf(),
    {
        let s = Store { devices: StringHashMap::new(), ids: Vec::new() };
        assert(s@ =~= Map::<Seq<char>, (Seq<char>, Seq<char>)>::empty());
        s
    }

    /// Whether the device `id` is stored.
    pub fn contains(&self, id: &str) -> (b: bool)
        ensures
            b == self@.contains_key(id@),
    {
        self.devices.contains_key(id)
    }

    /// The stored device `id`, if any.
    pub fn get(&self, id: &str) -> (d: Option<&TrustedDevice>)
        ensures
            match d {
                Some(d) => self@.contains_key(id@) && self@[id@] == (d.name@, d.public_key@),
                None => !self@.contains_key(id@),
            },
    {
        self.devices.get(id)
    }

    /// The identifiers of the stored devices, each once.
    pub fn device_ids(&self) -> (ids: &Vec<String>)
        requires
            self.wf(),
        ensures
            string_views(ids@).no_duplicates(),
            forall|k: Seq<char>| self@.contains_key(k) <==> string_views(ids@).contains(k),
    {
        &self.ids
    }

    /// Stores `device` under `id`, replacing what was stored there.
    pub fn insert(&mut self, id: String, device: TrustedDevice)
        requires
            old(self).wf(),
        ensures
            final(self).wf(),
            final(self)@ == old(self)@.insert(id@, (device.name@, device.public_key@)),
    {
        let present = self.devices.contains_key(id.as_str());
        let ghost old_ids = string_views(self.ids@);
        if present {
            self.devices.insert(id, device);
        } else {
            let key = id.clone();
            self.devices.insert(id, device);
            self.ids.push(key);
            proof {
                assert(string_views(self.ids@) =~= old_ids.push(key@));
                assert forall|i: int, j: int|
                    0 <= i < string_views(self.ids@).len() && 0 <= j < string_views(
                        self.ids@,
                    ).len() && i != j implies string_views(self.ids@)[i] != string_views(
                    self.ids@,
                )[j] by {
                    if i < old_ids.len() && j < old_ids.len() {
                    } else if i < old_ids.len() {
                        assert(old_ids.contains(old_ids[i]));
                    } else {
                        assert(old_ids.contains(old_ids[j]));
                    }
                }
                assert forall|k: Seq<char>|
                    self.devices@.contains_key(k) implies string_views(self.ids@).contains(
                    k,
                ) by {
                    if k != key@ {
                        let i = choose|i: int| 0 <= i < old_ids.len() && old_ids[i] == k;
                        assert(string_views(self.ids@)[i] == k);
                    } else {
                        assert(string_views(self.ids@)[old_ids.len() as int] == k);
                    }
                }
            }
        }
        assert(self@ =~= old(self)@.insert(id@, (device.name@, device.public_key@)));
    }

    /// Removes the device `id`, if it is stored.
    pub fn remove(&mut self, id: &str)
        requires
            old(self).wf(),
        ensures
            final(self).wf(),
            final(self)@ == old(self)@.remove(id@),
    {
        let ghost old_ids = string_views(self.ids@);
        let key = id.to_owned();
        let mut i: usize = 0;
        let mut found: Option<usize> = None;
        while i < self.ids.len()
            invariant
                i <= self.ids@.len(),
                string_views(self.ids@) == old_ids,
                key@ == id@,
                found is None ==> forall|j: int| 0 <= j < i ==> old_ids[j] != id@,
                found matches Some(f) ==> f < self.ids@.len() && old_ids[f as int] == id@,
            decreases self.ids@.len() - i,
        {
            if found.is_none() && self.ids[i] == key {
                found = Some(i);
            }
            i = i + 1;
        }
        self.devices.remove(id);
        match found {
            Some(f) => {
                self.ids.remove(f);
                proof {
                    let new_ids = string_views(self.ids@);
                    assert(new_ids =~= old_ids.remove(f as int));
                    assert forall|a: int, b: int|
                        0 <= a < new_ids.len() && 0 <= b < new_ids.len() && a != b implies new_ids[a]
                        != new_ids[b] by {
                        let a2 = if a < f { a } else { a + 1 };
                        let b2 = if b < f { b } else { b + 1 };
                        assert(new_ids[a] == old_ids[a2]);
                        assert(new_ids[b] == old_ids[b2]);
                    }
                    assert forall|k: Seq<char>|
                        self.devices@.contains_key(k) <==> new_ids.contains(k) by {
                        if self.devices@.contains_key(k) {
                            let j = choose|j: int| 0 <= j < old_ids.len() && old_ids[j] == k;
                            assert(j != f);
                            let j2 = if j < f { j } else { j - 1 };
                            assert(new_ids[j2] == k);
                        }
                        if new_ids.contains(k) {
                            let j = choose|j: int| 0 <= j < new_ids.len() && new_ids[j] == k;
                            let j2 = if j < f { j } else { j + 1 };
                            assert(old_ids[j2] == k);
                            assert(j2 != f);
                        }
                    }
                }
            },
            None => {
                proof {
                    assert(!old_ids.contains(id@));
                }
            },
        }
        assert(self@ =~= old(self)@.remove(id@));
    }
}

/// Whether the device with public key `public_key` is trusted.
pub fn is_trusted(store: &Store, public_key: &[u8]) -> (trusted: bool)
    ensures
        trusted == store@.contains_key(spec_device_id(public_key@)),
{
    let id = device_id(public_key);
    store.contains(id.as_str())
}

/// Trusts the device with public key `public_key` under `name`, unless it is trusted
/// already. Returns whether the store changed (and needs saving).
pub fn add_trusted(store: &mut Store, public_key: &[u8], name: &str) -> (changed: bool)
    requires
        old(store).wf(),
    ensures
        final(store).wf(),
        changed == !old(store)@.contains_key(spec_device_id(public_key@)),
        changed ==> final(store)@ == old(store)@.insert(
            spec_device_id(public_key@),
            (name@, base64_standard(public_key@)),
        ),
        !changed ==> final(store)@ == old(store)@,
        final(store)@.contains_key(spec_device_id(public_key@)),
{
    if is_trusted(store, public_key) {
        return false;
    }
    let device = TrustedDevice { name: name.to_owned(), public_key: base64_encode(public_key) };
    let id = device_id(public_key);
    store.insert(id, device);
    true
}

/// Stops trusting the device `id`.
pub fn remove_trusted(store: &mut Store, id: &str)
    requires
        old(store).wf(),
    ensures
        final(store).wf(),
        final(store)@ == old(store)@.remove(id@),
        !final(store)@.contains_key(id@),
{
    store.remove(id);
}

} // verus!
