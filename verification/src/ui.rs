//! What the desktop front end shows and keeps: settings, transfers and devices.
use vstd::prelude::*;

use crate::discovery::str_eq;
use crate::identity::{string_views, Store};

verus! {

/// The user's settings.
pub struct Settings {
    pub local_name: String,
    pub download_dir: String,
    pub run_in_tray: bool,
    pub port: u16,
}

/// The port the settings name by default.
pub const DEFAULT_PORT: u16 = 52341;

impl Settings {
    /// The default settings for a device named `local_name` that downloads into
    /// `download_dir`.
    pub fn with_defaults(local_name: String, download_dir: String) -> (s: Settings)
        ensures
            s.local_name == local_name,
            s.download_dir == download_dir,
            !s.run_in_tray,
            s.port == DEFAULT_PORT,
    {
        Settings { local_name, download_dir, run_in_tray: false, port: DEFAULT_PORT }
    }
}

/// Settings saved with the placeholder download directory "./downloads" get the
/// platform's download directory instead.
pub fn resolve_download_dir(saved: String, platform_default: String) -> (dir: String)
    ensures
        dir@ == if saved@ == "./downloads"@ {
            platform_default@
        } else {
            saved@
        },
{
    if str_eq(saved.as_str(), "./downloads") {
        platform_default
    } else {
        saved
    }
}

/// A transfer as the front end shows it.
pub struct Transfer {
    pub id: String,
    pub file_name: String,
    pub file_size: u64,
    pub bytes_done: u64,
    pub direction: String,
    pub peer_name: String,
    pub peer_ip: String,
    pub status: String,
    pub speed_bps: Option<u64>,
}

/// A trusted device as the front end shows it.
pub struct Device {
    pub id: String,
    pub name: String,
    pub public_key: String,
}

/// A device that can be sent to, as the front end shows it.
pub struct DiscoveredDevice {
    pub id: String,
    pub name: String,
}

/// The event that announces a transfer in `status`.
pub open spec fn spec_event_name(status: Seq<char>) -> Seq<char> {
    if status == "done"@ {
        "transfer-complete"@
    } else if status == "error"@ {
        "transfer-error"@
    } else {
        "transfer-progress"@
    }
}

/// Names the event that announces a transfer in `status`.
pub fn transfer_event_name(status: &str) -> (name: &'static str)
    ensures
        name@ == spec_event_name(status@),
{
    if str_eq(status, "done") {
        "transfer-complete"
    } else if str_eq(status, "error") {
        "transfer-error"
    } else {
        "transfer-progress"
    }
}

/// The identifier, name and encoded public key of a listed device.
pub open spec fn device_entry(d: Device) -> (Seq<char>, (Seq<char>, Seq<char>)) {
    (d.id@, (d.name@, d.public_key@))
}

/// Lists the trusted devices, each once.
pub fn trusted_device_list(store: &Store) -> (list: Vec<Device>)
    requires
        store.wf(),
    ensures
        list@.len() == store@.len(),
        forall|i: int|
            0 <= i < list@.len() ==> store@.contains_key(#[trigger] list@[i].id@) && store@[list@[i].id@]
                == (list@[i].name@, list@[i].public_key@),
        forall|k: Seq<char>|
            store@.contains_key(k) ==> exists|i: int| 0 <= i < list@.len() && #[trigger] list@[i].id@ == k,
        forall|i: int, j: int| 0 <= i < j < list@.len() ==> #[trigger] list@[i].id@ != #[trigger] list@[j].id@,
{
    let ids = store.device_ids();
    let ghost keys = string_views(ids@);
    let mut list: Vec<Device> = Vec::new();
    let mut i: usize = 0;
    while i < ids.len()
        invariant
            i <= ids@.len(),
            keys == string_views(ids@),
            keys.no_duplicates(),
            forall|k: Seq<char>| store@.contains_key(k) <==> keys.contains(k),
            list@.len() == i,
            forall|j: int| 0 <= j < i ==> #[trigger] list@[j].id@ == keys[j],
            forall|j: int|
                0 <= j < i ==> store@.contains_key(#[trigger] list@[j].id@) && store@[list@[j].id@]
                    == (list@[j].name@, list@[j].public_key@),
        decreases ids@.len() - i,
    {
        let id = &ids[i];
        assert(keys[i as int] == id@);
        assert(keys.contains(id@));
        match store.get(id.as_str()) {
            Some(d) => {
                list.push(Device { id: id.clone(), name: d.name.clone(), public_key: d.public_key.clone() });
            },
            None => {
                assert(false);
            },
        }
        i = i + 1;
    }
    proof {
        assert forall|k: Seq<char>| store@.contains_key(k) implies exists|i: int|
            0 <= i < list@.len() && #[trigger] list@[i].id@ == k by {
            let j = choose|j: int| 0 <= j < keys.len() && keys[j] == k;
            assert(list@[j].id@ == k);
        }
        assert(store@.dom() =~= keys.to_set());
        keys.unique_seq_to_set();
    }
    list
}

/// The event a status is announced with: "transfer-complete" exactly for "done",
/// "transfer-error" exactly for "error", and "transfer-progress" for every other
/// status (such as "active" or "cancelled").
pub proof fn lemma_event_name_cases(status: Seq<char>)
    ensures
        (spec_event_name(status) == "transfer-complete"@) == (status == "done"@),
        (spec_event_name(status) == "transfer-error"@) == (status == "error"@),
        status != "done"@ && status != "error"@ ==> spec_event_name(status) == "transfer-progress"@,
{
    reveal_strlit("transfer-complete");
    reveal_strlit("transfer-error");
    reveal_strlit("transfer-progress");
    reveal_strlit("done");
    reveal_strlit("error");
    assert("transfer-complete"@.len() != "transfer-error"@.len());
    assert("transfer-complete"@ != "transfer-progress"@) by {
        assert("transfer-complete"@[9] != "transfer-progress"@[9]);
    }
    assert("transfer-error"@.len() != "transfer-progress"@.len());
    assert("done"@.len() != "error"@.len());
}

} // verus!
