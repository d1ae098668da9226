//! The mailbox store that brokers protocol messages between parties that
//! may be transiently offline: messages are keyed by a content-derived
//! hash, carry a time-to-live, and expired entries are swept by `cleanup`.
//!
//! The store is modelled as a map from the hash string to the stored
//! message's plain view; the concurrent map that holds the entries is
//! trusted only for the map operations themselves. The clock enters every
//! operation as a plain argument, so the reasoning covers every time the
//! clock could report; the callers without a clock argument read it once
//! and delegate.
use vstd::prelude::*;

use crate::encoding::{blake3_hash, blake3_of, dec_chars_of, hex_chars_of, hex_encode};
use vstd::string::StrSliceExecFns;
use vstd::string::StringExecFns;

verus! {

/// Errors of the mailbox store.
#[derive(Debug)]
pub enum RelayError {
    /// No message is stored under the hash carried here.
    NotFound(String),
    /// A message that cannot be parsed.
    InvalidFormat(String),
    /// A session whose messages have all expired.
    SessionExpired(String),
    /// A fault inside the store.
    Internal(String),
}

/// Identifies one protocol message: session, round, the sender and
/// receiver where addressed, and a tag that separates message kinds.
#[derive(Debug, Clone, PartialEq, Eq, Hash)]
pub struct MessageId {
    /// The session the message belongs to.
    pub session_id: String,
    /// The round the message belongs to.
    pub round: u32,
    /// The sender, absent on broadcasts.
    pub from: Option<usize>,
    /// The receiver, absent on broadcasts.
    pub to: Option<usize>,
    /// The message kind.
    pub tag: String,
}

/// The decimal rendering of an optional party id; empty when absent.
pub open spec fn opt_dec_chars(o: Option<usize>) -> Seq<char> {
    match o {
        Some(v) => dec_chars_of(v as nat),
        None => Seq::empty(),
    }
}

/// The canonical rendering of a message id:
/// `session:round:from:to:tag`, with absent parties rendered empty.
pub open spec fn canonical_chars(id: MessageId) -> Seq<char> {
    id.session_id@ + seq![':'] + dec_chars_of(id.round as nat) + seq![':'] + opt_dec_chars(id.from)
        + seq![':'] + opt_dec_chars(id.to) + seq![':'] + id.tag@
}

/// The content hash of a message id: the BLAKE3 digest of the canonical
/// rendering, in lowercase hexadecimal.
pub open spec fn id_hash_chars(id: MessageId) -> Seq<char> {
    hex_chars_of(blake3_of(vstd::utf8::encode_utf8(canonical_chars(id))))
}

impl MessageId {
    /// Packs a message id from its parts.
    pub fn new(session_id: &str, round: u32, from: Option<usize>, to: Option<usize>, tag: &str)
        -> (r: MessageId)
        ensures
            r.session_id@ == session_id@,
            r.round == round,
            r.from == from,
            r.to == to,
            r.tag@ == tag@,
    {
        MessageId {
            session_id: String::from_str(session_id),
            round,
            from,
            to,
            tag: String::from_str(tag),
        }
    }

    /// The content hash used to look the message up: distinct ids give
    /// distinct canonical renderings wherever the session id and tag are
    /// colon-free, and the digest separates them.
    pub fn hash(&self) -> (r: String)
        ensures
            r@ == id_hash_chars(*self),
    {
        proof {
            reveal_strlit(":");
        }
        let mut data = String::new();
        data.append(self.session_id.as_str());
        data.append(":");
        let round_str = crate::encoding::u64_to_dec(self.round as u64);
        data.append(round_str.as_str());
        data.append(":");
        match self.from {
            Some(v) => {
                let s = crate::encoding::u64_to_dec(v as u64);
                data.append(s.as_str());
            },
            None => {},
        }
        data.append(":");
        match self.to {
            Some(v) => {
                let s = crate::encoding::u64_to_dec(v as u64);
                data.append(s.as_str());
            },
            None => {},
        }
        data.append(":");
        data.append(self.tag.as_str());
        proof {
            assert(":"@ =~= seq![':']);
            assert(data@ =~= canonical_chars(*self));
        }
        let bytes = data.as_str().as_bytes_vec();
        let digest = blake3_hash(bytes.as_slice());
        hex_encode(digest.as_slice())
    }
}

/// A message at rest in the store.
#[derive(Debug, Clone)]
pub struct StoredMessage {
    /// The message's id.
    pub id: MessageId,
    /// The message's payload bytes.
    pub payload: Vec<u8>,
    /// When the message was (last) put, in Unix seconds.
    pub created_at: i64,
    /// When the message expires, in Unix seconds.
    pub expires_at: i64,
}

/// The plain view of a stored message: session, round, sender, receiver,
/// tag, payload, creation time, and expiry time.
pub type StoredView = (Seq<char>, u32, Option<usize>, Option<usize>, Seq<char>, Seq<u8>, int, int);

/// The plain view of a stored message.
pub open spec fn stored_view(m: StoredMessage) -> StoredView {
    (
        m.id.session_id@,
        m.id.round,
        m.id.from,
        m.id.to,
        m.id.tag@,
        m.payload@,
        m.created_at as int,
        m.expires_at as int,
    )
}

/// What the concurrent map holds: the stored views, keyed by hash string.
pub uninterp spec fn store_entries(m: dashmap::DashMap<String, StoredMessage>) -> Map<
    Seq<char>,
    StoredView,
>;

/// The concurrent map of `dashmap`, holding the store's entries; opaque to
/// this library but for [`store_entries`].
#[verifier::external_type_specification]
#[verifier::external_body]
#[verifier::reject_recursive_types(K)]
#[verifier::reject_recursive_types(V)]
#[verifier::reject_recursive_types(S)]
pub struct ExDashMap<K, V, S>(dashmap::DashMap<K, V, S>);

/// Creates an empty concurrent map.
///
/// Relies on `dashmap::DashMap::new`, which holds nothing.
#[verifier::external_body]
fn dashmap_new() -> (m: dashmap::DashMap<String, StoredMessage>)
    ensures
        store_entries(m) =~= Map::empty(),
{
    dashmap::DashMap::new()
}

/// Stores a value under a key, replacing what was there.
///
/// Relies on `dashmap::DashMap::insert`, which maps the key to the new
/// value and leaves every other key unchanged.
#[verifier::external_body]
fn dashmap_insert(m: &mut dashmap::DashMap<String, StoredMessage>, key: String, value: StoredMessage)
    ensures
        store_entries(*final(m)) == store_entries(*old(m)).insert(key@, stored_view(value)),
{
    m.insert(key, value);
}

/// Looks a key up, cloning the value out.
///
/// Relies on `dashmap::DashMap::get`, which finds exactly the keys that
/// were inserted.
#[verifier::external_body]
fn dashmap_get(m: &dashmap::DashMap<String, StoredMessage>, key: &String) -> (r: Option<
    StoredMessage,
>)
    ensures
        (r is Some) == store_entries(*m).contains_key(key@),
        r matches Some(v) ==> stored_view(v) == store_entries(*m)[key@],
{
    match m.get(key) {
        Some(entry) => Some(entry.value().clone()),
        None => None,
    }
}

/// Tests whether a key is present.
///
/// Relies on `dashmap::DashMap::contains_key`.
#[verifier::external_body]
fn dashmap_contains(m: &dashmap::DashMap<String, StoredMessage>, key: &String) -> (r: bool)
    ensures
        r == store_entries(*m).contains_key(key@),
{
    m.contains_key(key)
}

/// Whether a stored message is still live at the given time.
pub fn msg_unexpired(v: &StoredMessage, now: i64) -> (r: bool)
    ensures
        r == (v.expires_at > now),
{
    v.expires_at > now
}

/// Drops every entry whose expiry is not after `now`, keeping the rest
/// unchanged.
///
/// Relies on `dashmap::DashMap::retain`, which keeps exactly the entries
/// the predicate accepts; the predicate is the verified [`msg_unexpired`].
#[verifier::external_body]
fn dashmap_retain_unexpired(m: &mut dashmap::DashMap<String, StoredMessage>, now: i64)
    ensures
        forall|k: Seq<char>|
            (#[trigger] store_entries(*final(m)).contains_key(k)) == (store_entries(
                *old(m),
            ).contains_key(k) && store_entries(*old(m))[k].7 > now),
        forall|k: Seq<char>|
            #[trigger] store_entries(*final(m)).contains_key(k) ==> store_entries(*final(m))[k]
                == store_entries(*old(m))[k],
{
    m.retain(|_, v| msg_unexpired(v, now));
}

/// Every listed message appears among the entries.
pub open spec fn values_sound(entries: Map<Seq<char>, StoredView>, vals: Seq<StoredMessage>) -> bool {
    forall|i: int|
        0 <= i < vals.len() ==> exists|k: Seq<char>|
            entries.contains_key(k) && entries[k] == stored_view(#[trigger] vals[i])
}

/// Every entry appears among the listed messages.
pub open spec fn values_covering(entries: Map<Seq<char>, StoredView>, vals: Seq<StoredMessage>) -> bool {
    forall|k: Seq<char>|
        #[trigger] entries.contains_key(k) ==> exists|i: int|
            0 <= i < vals.len() && stored_view(#[trigger] vals[i]) == entries[k]
}

/// Clones every stored value out, in no particular order: the iteration
/// order of the concurrent map is left open, so only membership both ways
/// is stated.
///
/// Relies on `dashmap::DashMap::iter`, which visits every entry once.
#[verifier::external_body]
fn dashmap_values(m: &dashmap::DashMap<String, StoredMessage>) -> (r: Vec<StoredMessage>)
    ensures
        values_sound(store_entries(*m), r@),
        values_covering(store_entries(*m), r@),
{
    let mut out = Vec::new();
    for entry in m.iter() {
        out.push(entry.value().clone());
    }
    out
}

/// Reads the wall clock, in Unix seconds.
///
/// Relies on `chrono::Utc::now`; nothing is assumed of the value, and
/// every store operation takes the time as a plain argument.
#[verifier::external_body]
pub fn now_ts() -> i64 {
    chrono::Utc::now().timestamp()
}

/// The expiry of a message put at `now` with the given time-to-live:
/// their sum, pushed to the far future when it overflows.
pub open spec fn expiry_time(now: int, ttl: int) -> int {
    if -0x8000000000000000 <= now + ttl <= 0x7FFFFFFFFFFFFFFF {
        now + ttl
    } else {
        0x7FFFFFFFFFFFFFFF
    }
}

/// The message store: entries keyed by content hash, each with a
/// time-to-live granted at `put`.
pub struct MessageStore {
    /// The entries, keyed by hash string.
    pub messages: dashmap::DashMap<String, StoredMessage>,
    /// The time-to-live granted to new entries, in seconds.
    pub ttl_seconds: i64,
}

impl MessageStore {
    /// What the store holds: stored views keyed by hash string.
    pub open spec fn entries(&self) -> Map<Seq<char>, StoredView> {
        store_entries(self.messages)
    }

    /// Creates an empty store granting each message the given
    /// time-to-live.
    pub fn new(ttl_seconds: i64) -> (r: MessageStore)
        ensures
            r.entries() == Map::<Seq<char>, StoredView>::empty(),
            r.ttl_seconds == ttl_seconds,
    {
        MessageStore { messages: dashmap_new(), ttl_seconds }
    }

    /// Stores a message at the given time and returns its content hash.
    /// Re-putting an id refreshes its creation time but keeps the earliest
    /// expiry, so a message cannot be kept alive by repetition.
    pub fn put_at(&mut self, id: MessageId, payload: Vec<u8>, now: i64) -> (r: Result<
        String,
        RelayError,
    >)
        ensures
            final(self).ttl_seconds == old(self).ttl_seconds,
            r matches Ok(h) ==> {
                let key = id_hash_chars(id);
                let fresh = expiry_time(now as int, old(self).ttl_seconds as int);
                let expires = if old(self).entries().contains_key(key) && old(
                    self,
                ).entries()[key].7 < fresh {
                    old(self).entries()[key].7
                } else {
                    fresh
                };
                &&& h@ == key
                &&& final(self).entries() == old(self).entries().insert(
                    key,
                    (
                        id.session_id@,
                        id.round,
                        id.from,
                        id.to,
                        id.tag@,
                        payload@,
                        now as int,
                        expires,
                    ),
                )
            },
            r is Ok,
    {
        let hash = id.hash();
        let fresh = match now.checked_add(self.ttl_seconds) {
            Some(v) => v,
            None => i64::MAX,
        };
        let expires_at = match dashmap_get(&self.messages, &hash) {
            Some(prior) => {
                if prior.expires_at < fresh {
                    prior.expires_at
                } else {
                    fresh
                }
            },
            None => fresh,
        };
        let message = StoredMessage { id, payload, created_at: now, expires_at };
        let key = hash.clone();
        dashmap_insert(&mut self.messages, key, message);
        Ok(hash)
    }

    /// Stores a message at the current time and returns its content hash.
    /// The clock's reading is unknowable here, so only what holds for
    /// every reading is stated; [`MessageStore::put_at`] carries the exact
    /// contract.
    pub fn put(&mut self, id: MessageId, payload: Vec<u8>) -> (r: Result<String, RelayError>)
        ensures
            final(self).ttl_seconds == old(self).ttl_seconds,
            r is Ok,
            r matches Ok(h) ==> {
                let key = id_hash_chars(id);
                &&& h@ == key
                &&& final(self).entries().contains_key(key)
                &&& final(self).entries()[key].0 == id.session_id@
                &&& final(self).entries()[key].1 == id.round
                &&& final(self).entries()[key].5 == payload@
                &&& final(self).entries().remove(key) == old(self).entries().remove(key)
            },
    {
        let now = now_ts();
        let ghost pre = self.entries();
        let r = self.put_at(id, payload, now);
        proof {
            assert(final(self).entries().remove(id_hash_chars(id)) =~= pre.remove(
                id_hash_chars(id),
            ));
        }
        r
    }

    /// Fetches the message stored under an id's hash; `NotFound`, carrying
    /// the hash, exactly when nothing is stored there.
    pub fn get(&self, id: &MessageId) -> (r: Result<StoredMessage, RelayError>)
        ensures
            (r is Ok) == self.entries().contains_key(id_hash_chars(*id)),
            r matches Ok(m) ==> stored_view(m) == self.entries()[id_hash_chars(*id)],
            r matches Err(e) ==> (e matches RelayError::NotFound(h) && h@ == id_hash_chars(*id)),
    {
        let hash = id.hash();
        match dashmap_get(&self.messages, &hash) {
            Some(m) => Ok(m),
            None => Err(RelayError::NotFound(hash)),
        }
    }

    /// Whether a message is stored under an id's hash.
    pub fn contains(&self, id: &MessageId) -> (r: bool)
        ensures
            r == self.entries().contains_key(id_hash_chars(*id)),
    {
        let hash = id.hash();
        dashmap_contains(&self.messages, &hash)
    }

    /// Sweeps out every entry whose expiry is not after the given time;
    /// the surviving entries are unchanged.
    pub fn cleanup_at(&mut self, now: i64)
        ensures
            final(self).ttl_seconds == old(self).ttl_seconds,
            forall|k: Seq<char>|
                (#[trigger] final(self).entries().contains_key(k)) == (old(
                    self,
                ).entries().contains_key(k) && old(self).entries()[k].7 > now),
            forall|k: Seq<char>|
                #[trigger] final(self).entries().contains_key(k) ==> final(self).entries()[k]
                    == old(self).entries()[k],
    {
        dashmap_retain_unexpired(&mut self.messages, now);
    }

    /// Sweeps out the entries expired at the current time. The clock's
    /// reading is unknowable here, so only what holds for every reading is
    /// stated; [`MessageStore::cleanup_at`] carries the exact contract.
    pub fn cleanup(&mut self)
        ensures
            final(self).ttl_seconds == old(self).ttl_seconds,
            forall|k: Seq<char>|
                #[trigger] final(self).entries().contains_key(k) ==> old(
                    self,
                ).entries().contains_key(k) && final(self).entries()[k] == old(self).entries()[k],
    {
        let now = now_ts();
        self.cleanup_at(now);
    }

    /// Every stored message of one session and round, in no particular
    /// order: the store does not promise an order across writers, so
    /// callers that need one sort by sender id. Every returned message
    /// belongs to the asked session and round and is one of the store's
    /// entries. The converse — that every matching entry is returned —
    /// holds of the body ([`dashmap_values`] lists every entry and the
    /// loop keeps every match) but is not restated here: every attempted
    /// proof of the composed membership chain exhausts the solver's
    /// resources on this view.
    pub fn get_round_messages(&self, session_id: &str, round: u32) -> (r: Vec<StoredMessage>)
        ensures
            forall|i: int|
                0 <= i < r@.len() ==> (#[trigger] r@[i]).id.session_id@ == session_id@
                    && r@[i].id.round == round,
            values_sound(self.entries(), r@),
    {
        let all = dashmap_values(&self.messages);
        let mut out: Vec<StoredMessage> = Vec::new();
        let mut i: usize = 0;
        while i < all.len()
            invariant
                i <= all@.len(),
                values_sound(self.entries(), all@),
                forall|q: int|
                    0 <= q < out@.len() ==> (#[trigger] out@[q]).id.session_id@ == session_id@
                        && out@[q].id.round == round,
                values_sound(self.entries(), out@),
            decreases all@.len() - i,
        {
            let m = &all[i];
            let ghost prior = out@;
            if crate::encoding::str_eq(m.id.session_id.as_str(), session_id) && m.id.round
                == round {
                out.push(m.clone2());
                proof {
                    assert(stored_view(out@[out@.len() - 1]) == stored_view(all@[i as int]));
                    assert(values_sound(self.entries(), out@)) by {
                        assert forall|q: int| 0 <= q < out@.len() implies exists|k: Seq<char>|
                            self.entries().contains_key(k) && self.entries()[k] == stored_view(
                            #[trigger] out@[q],
                        ) by {
                            if q < out@.len() - 1 {
                                assert(out@[q] == prior[q]);
                            } else {
                                assert(stored_view(out@[q]) == stored_view(all@[i as int]));
                            }
                        }
                    }
                }
            }
            i += 1;
        }
        out
    }
}

impl StoredMessage {
    /// Copies a stored message, field by field.
    pub fn clone2(&self) -> (r: StoredMessage)
        ensures
            stored_view(r) == stored_view(*self),
            r.id.session_id@ == self.id.session_id@,
            r.id.round == self.id.round,
            r.expires_at == self.expires_at,
    {
        let mut payload: Vec<u8> = Vec::new();
        payload.extend_from_slice(self.payload.as_slice());
        proof {
            assert(payload@ =~= self.payload@);
        }
        StoredMessage {
            id: MessageId {
                session_id: String::from_str(self.id.session_id.as_str()),
                round: self.id.round,
                from: self.id.from,
                to: self.id.to,
                tag: String::from_str(self.id.tag.as_str()),
            },
            payload,
            created_at: self.created_at,
            expires_at: self.expires_at,
        }
    }
}

impl Default for MessageStore {
    /// An empty store granting each message an hour.
    fn default() -> (r: MessageStore)
        ensures
            r.entries() == Map::<Seq<char>, StoredView>::empty(),
            r.ttl_seconds == 3600,
    {
        MessageStore::new(3600)
    }
}

/// Connection information about a peer broker.
#[derive(Debug, Clone)]
pub struct PeerInfo {
    /// The peer's address.
    pub url: String,
    /// Whether the peer is believed reachable.
    pub active: bool,
    /// When the peer was last seen, in Unix seconds.
    pub last_seen: i64,
}

/// Publishing the same id twice yields the identical hash, and a read
/// after a publish returns exactly what was stored: the hash is a function
/// of the id alone, and a publish maps that hash to the stored view.
pub proof fn lemma_relay_idempotence(
    before: Map<Seq<char>, StoredView>,
    after: Map<Seq<char>, StoredView>,
    h1: Seq<char>,
    h2: Seq<char>,
    id: MessageId,
    stored: StoredView,
)
    requires
        h1 == id_hash_chars(id),
        h2 == id_hash_chars(id),
        after == before.insert(id_hash_chars(id), stored),
    ensures
        h1 == h2,
        after.contains_key(id_hash_chars(id)),
        after[id_hash_chars(id)] == stored,
{
}

/// After a sweep at time `now`, no entry that had expired by `now`
/// remains.
pub proof fn lemma_cleanup_expired_absent(
    before: Map<Seq<char>, StoredView>,
    after: Map<Seq<char>, StoredView>,
    now: int,
)
    requires
        forall|k: Seq<char>|
            (#[trigger] after.contains_key(k)) == (before.contains_key(k) && before[k].7 > now),
    ensures
        forall|k: Seq<char>|
            #[trigger] before.contains_key(k) && before[k].7 <= now ==> !after.contains_key(k),
{
}

/// The decision of one poll step while collecting a round's messages: the
/// caller reports how many distinct senders have posted and the clock, and
/// is told to deliver, to keep waiting, or to give up. Collection gates on
/// count, never on arrival order, and a run whose deadline passes is
/// abandoned with a timeout.
#[derive(Debug, Clone, Copy, PartialEq, Eq, Structural)]
pub enum CollectStep {
    /// Enough distinct senders have posted: deliver.
    Ready,
    /// Not enough yet, and time remains: poll again.
    Wait,
    /// The deadline has passed with messages missing: the run is abandoned
    /// with a timeout.
    TimedOut,
}

/// Decides one poll step of a collect operation.
pub fn collect_step(have: usize, expected: usize, now_ms: u64, deadline_ms: u64) -> (r:
    CollectStep)
    ensures
        r == (if have >= expected {
            CollectStep::Ready
        } else if now_ms >= deadline_ms {
            CollectStep::TimedOut
        } else {
            CollectStep::Wait
        }),
{
    if have >= expected {
        CollectStep::Ready
    } else if now_ms >= deadline_ms {
        CollectStep::TimedOut
    } else {
        CollectStep::Wait
    }
}

} // verus!
