//! What the application keeps about offers and transfers.
use vstd::hash_set::StringHashSet;
use vstd::prelude::*;

verus! {

/// An offer waiting for the user's decision.
pub struct IncomingOffer {
    pub id: String,
    pub file_name: String,
    pub file_size: u64,
    pub peer_name: String,
    pub peer_ip: String,
    pub is_trusted: bool,
}

/// The progress of a transfer, as shown to the user.
pub struct Transfer {
    pub id: String,
    pub file_name: String,
    pub file_size: u64,
    pub bytes_done: u64,
    pub direction: String,
    pub peer_name: String,
    pub peer_ip: String,
    pub status: String,
    pub speed_bps: Option<u64>,
}

/// The user's decision on an offer.
#[derive(Debug, Clone, Copy, PartialEq, Eq, Structural)]
pub enum TransferAction {
    Accept,
    Reject,
    TrustAndAccept,
}

/// The map from identifiers to values that a list of pairs holds, later pairs
/// overriding earlier ones.
pub open spec fn pairs_map<T>(s: Seq<(String, T)>) -> Map<Seq<char>, T>
    decreases s.len(),
{
    if s.len() == 0 {
        Map::empty()
    } else {
        pairs_map(s.drop_last()).insert(s.last().0@, s.last().1)
    }
}

/// No identifier occurs twice.
pub open spec fn distinct_keys<T>(s: Seq<(String, T)>) -> bool {
    forall|i: int, j: int| 0 <= i < j < s.len() ==> #[trigger] s[i].0@ != #[trigger] s[j].0@
}

/// The identifiers of a list of pairs are the keys of its map.
pub proof fn lemma_pairs_map_keys<T>(s: Seq<(String, T)>, k: Seq<char>)
    ensures
        pairs_map(s).contains_key(k) <==> exists|i: int| 0 <= i < s.len() && #[trigger] s[i].0@ == k,
    decreases s.len(),
{
    if s.len() > 0 {
        lemma_pairs_map_keys(s.drop_last(), k);
        if pairs_map(s).contains_key(k) && k != s.last().0@ {
            let i = choose|i: int| 0 <= i < s.drop_last().len() && #[trigger] s.drop_last()[i].0@ == k;
            assert(s[i].0@ == k);
        }
        if exists|i: int| 0 <= i < s.len() && #[trigger] s[i].0@ == k {
            let i = choose|i: int| 0 <= i < s.len() && #[trigger] s[i].0@ == k;
            if i < s.len() - 1 {
                assert(s.drop_last()[i].0@ == k);
            }
        }
    }
}

/// With distinct identifiers, the map gives each pair's value.
pub proof fn lemma_pairs_map_value<T>(s: Seq<(String, T)>, i: int)
    requires
        distinct_keys(s),
        0 <= i < s.len(),
    ensures
        pairs_map(s).contains_key(s[i].0@),
        pairs_map(s)[s[i].0@] == s[i].1,
    decreases s.len(),
{
    if i < s.len() - 1 {
        assert(s.drop_last()[i] == s[i]);
        assert(distinct_keys(s.drop_last()));
        lemma_pairs_map_value(s.drop_last(), i);
    }
}

/// With distinct identifiers, removing a pair removes its identifier from the map.
pub proof fn lemma_pairs_map_remove<T>(s: Seq<(String, T)>, i: int)
    requires
        distinct_keys(s),
        0 <= i < s.len(),
    ensures
        pairs_map(s.remove(i)) == pairs_map(s).remove(s[i].0@),
        distinct_keys(s.remove(i)),
    decreases s.len(),
{
    let r = s.remove(i);
    assert forall|a: int, b: int| 0 <= a < b < r.len() implies #[trigger] r[a].0@ != #[trigger] r[b].0@ by {
        let a2 = if a < i { a } else { a + 1 };
        let b2 = if b < i { b } else { b + 1 };
        assert(r[a] == s[a2]);
        assert(r[b] == s[b2]);
    }
    if i == s.len() - 1 {
        assert(r =~= s.drop_last());
        lemma_pairs_map_keys(s.drop_last(), s[i].0@);
        assert forall|j: int| 0 <= j < s.drop_last().len() implies #[trigger] s.drop_last()[j].0@
            != s[i].0@ by {
            assert(s.drop_last()[j] == s[j]);
        }
        assert(pairs_map(r) =~= pairs_map(s).remove(s[i].0@));
    } else {
        let d = s.drop_last();
        assert(distinct_keys(d)) by {
            assert forall|a: int, b: int| 0 <= a < b < d.len() implies #[trigger] d[a].0@
                != #[trigger] d[b].0@ by {
                assert(d[a] == s[a] && d[b] == s[b]);
            }
        }
        lemma_pairs_map_remove(d, i);
        assert(r.drop_last() =~= d.remove(i));
        assert(r.last() == s.last());
        assert(s[i].0@ != s.last().0@);
        assert(d[i] == s[i]);
        assert(pairs_map(r) =~= pairs_map(s).remove(s[i].0@));
    }
}

/// Offers waiting for a decision, each under its identifier, with what delivers the
/// decision to the waiting session. The entries are a list of pairs with distinct
/// identifiers: resolving an offer hands its value out, which a `StringHashMap`
/// cannot do (its `remove` drops the value, and the value need not be `Clone`).
pub struct PendingOffers<T> {
    entries: Vec<(String, T)>,
}

impl<T> View for PendingOffers<T> {
    type V = Map<Seq<char>, T>;

    closed spec fn view(&self) -> Map<Seq<char>, T> {
        pairs_map(self.entries@)
    }
}

impl<T> PendingOffers<T> {
    /// Each identifier is held once.
    pub closed spec fn wf(&self) -> bool {
        distinct_keys(self.entries@)
    }

    /// No offer is pending.
    pub fn new() -> (p: Self)
        ensures
            p.wf(),
            p@ == Map::<Seq<char>, T>::empty(),
    {
        PendingOffers { entries: Vec::new() }
    }

    /// The position of the entry `id`, if any.
    fn find(&self, id: &String) -> (pos: Option<usize>)
        requires
            self.wf(),
        ensures
            match pos {
                Some(i) => i < self.entries@.len() && self.entries@[i as int].0@ == id@,
                None => !self@.contains_key(id@),
            },
    {
        let mut i: usize = 0;
        while i < self.entries.len()
            invariant
                i <= self.entries@.len(),
                forall|j: int| 0 <= j < i ==> #[trigger] self.entries@[j].0@ != id@,
            decreases self.entries@.len() - i,
        {
            if self.entries[i].0 == *id {
                return Some(i);
            }
            i = i + 1;
        }
        proof {
            lemma_pairs_map_keys(self.entries@, id@);
        }
        None
    }

    /// Records the offer `id`, replacing an offer with the same identifier.
    pub fn add_pending_offer(&mut self, id: String, value: T)
        requires
            old(self).wf(),
        ensures
            final(self).wf(),
            final(self)@ == old(self)@.insert(id@, value),
    {
        match self.find(&id) {
            Some(i) => {
                let ghost before = self.entries@;
                let _ = self.entries.remove(i);
                proof {
                    lemma_pairs_map_remove(before, i as int);
                }
            },
            None => {},
        }
        let ghost mid = self.entries@;
        proof {
            lemma_pairs_map_keys(mid, id@);
        }
        self.entries.push((id, value));
        proof {
            assert(self.entries@.drop_last() =~= mid);
            assert forall|a: int, b: int|
                0 <= a < b < self.entries@.len() implies #[trigger] self.entries@[a].0@
                != #[trigger] self.entries@[b].0@ by {
                if b == self.entries@.len() - 1 {
                    assert(mid[a] == self.entries@[a]);
                    assert(!pairs_map(mid).contains_key(id@));
                } else {
                    assert(mid[a] == self.entries@[a] && mid[b] == self.entries@[b]);
                }
            }
            assert(pairs_map(self.entries@) =~= old(self)@.insert(id@, value));
        }
    }

    /// Hands out the offer `id` for its decision and forgets it. An offer that is not
    /// pending (never offered, or already resolved) is refused.
    pub fn resolve_offer(&mut self, id: &str) -> (res: Result<T, String>)
        requires
            old(self).wf(),
        ensures
            final(self).wf(),
            old(self)@.contains_key(id@) ==> (res matches Ok(v) && v == old(self)@[id@]),
            !old(self)@.contains_key(id@) ==> (res matches Err(msg) && msg@ == not_pending_message()),
            final(self)@ == old(self)@.remove(id@),
    {
        let key = id.to_owned();
        match self.find(&key) {
            Some(i) => {
                let ghost before = self.entries@;
                proof {
                    lemma_pairs_map_value(before, i as int);
                    lemma_pairs_map_remove(before, i as int);
                }
                let (_, value) = self.entries.remove(i);
                Ok(value)
            },
            None => {
                let msg = "Transfer not found or already resolved";
                proof {
                    reveal_strlit("Transfer not found or already resolved");
                    assert(old(self)@.remove(id@) =~= old(self)@);
                }
                Err(msg.to_owned())
            },
        }
    }
}

/// What a refused resolution answers.
pub open spec fn not_pending_message() -> Seq<char> {
    "Transfer not found or already resolved"@
}

/// Transfers the user cancelled.
pub struct CancelledTransfers {
    ids: StringHashSet,
}

impl View for CancelledTransfers {
    type V = Set<Seq<char>>;

    closed spec fn view(&self) -> Set<Seq<char>> {
        self.ids@
    }
}

impl CancelledTransfers {
    /// Nothing is cancelled.
    pub fn new() -> (c: Self)
        ensures
            c@ == Set::<Seq<char>>::empty(),
    {
        CancelledTransfers { ids: StringHashSet::new() }
    }

    /// Cancels the transfer `id`.
    pub fn cancel_transfer(&mut self, id: &str)
        ensures
            final(self)@ == old(self)@.insert(id@),
    {
        let _ = self.ids.insert(id.to_owned());
    }

    /// Whether the transfer `id` was cancelled.
    pub fn is_cancelled(&self, id: &str) -> (b: bool)
        ensures
            b == self@.contains(id@),
    {
        self.ids.contains(id)
    }
}

/// How many devices are kept alive at most, besides the newest.
pub const KEEP_ALIVE_LIMIT: usize = 10;

/// Keeps `device` alive with the others; when more than `KEEP_ALIVE_LIMIT` are kept,
/// the oldest is dropped first.
pub fn keep_alive_push<T>(devices: &mut Vec<T>, device: T)
    ensures
        old(devices)@.len() > KEEP_ALIVE_LIMIT ==> final(devices)@ == old(devices)@.drop_first().push(
            device,
        ),
        old(devices)@.len() <= KEEP_ALIVE_LIMIT ==> final(devices)@ == old(devices)@.push(device),
{
    if devices.len() > KEEP_ALIVE_LIMIT {
        let _ = devices.remove(0);
        assert(old(devices)@.remove(0) =~= old(devices)@.drop_first());
    }
    devices.push(device);
}

/// Keeping devices alive one at a time never keeps more than `KEEP_ALIVE_LIMIT + 1`.
pub proof fn lemma_keep_alive_bounded<T>(devices: Seq<T>, device: T)
    requires
        devices.len() <= KEEP_ALIVE_LIMIT + 1,
    ensures
        (if devices.len() > KEEP_ALIVE_LIMIT {
            devices.drop_first().push(device)
        } else {
            devices.push(device)
        }).len() <= KEEP_ALIVE_LIMIT + 1,
{
}

} // verus!
