//! What is kept about a session, the contract of the key-value store that
//! keeps it, the keys under which it is kept, and a store in memory.

use crate::felt::Felt;
use crate::hex::hex_text;
use crate::session::{copy_felts, Session, SessionView};
use crate::signers::DeviceError;
use vstd::prelude::*;
use vstd::string::StringExecFns;

verus! {

/// What binds a session key to the account: the signature of owner and
/// guardian over the session's commitment, and the session's private scalar.
#[derive(Debug, PartialEq, Eq)]
pub struct Credentials {
    pub authorization: Vec<Felt>,
    pub private_key: Felt,
}

/// Credentials as a mathematical value.
pub struct CredentialsView {
    pub authorization: Seq<Felt>,
    pub private_key: Felt,
}

impl View for Credentials {
    type V = CredentialsView;

    open spec fn view(&self) -> CredentialsView {
        CredentialsView { authorization: self.authorization@, private_key: self.private_key }
    }
}

impl Credentials {
    /// A copy of the credentials.
    pub fn duplicate(&self) -> (r: Credentials)
        ensures
            r@ == self@,
    {
        Credentials {
            authorization: copy_felts(&self.authorization),
            private_key: self.private_key,
        }
    }
}

/// A session with its credentials and an optional cap on the fee: the unit
/// that is persisted.
#[derive(Debug, PartialEq, Eq)]
pub struct SessionMetadata {
    pub session: Session,
    pub max_fee: Option<Felt>,
    pub credentials: Credentials,
}

/// Session metadata as a mathematical value.
pub struct SessionMetadataView {
    pub session: SessionView,
    pub max_fee: Option<Felt>,
    pub credentials: CredentialsView,
}

impl View for SessionMetadata {
    type V = SessionMetadataView;

    open spec fn view(&self) -> SessionMetadataView {
        SessionMetadataView {
            session: self.session@,
            max_fee: self.max_fee,
            credentials: self.credentials@,
        }
    }
}

impl SessionMetadata {
    /// A copy of the metadata.
    pub fn duplicate(&self) -> (r: SessionMetadata)
        ensures
            r@ == self@,
    {
        SessionMetadata {
            session: self.session.duplicate(),
            max_fee: self.max_fee,
            credentials: self.credentials.duplicate(),
        }
    }
}

/// A stored value: a tagged union with, so far, one variant.
#[derive(Debug, PartialEq, Eq)]
pub enum StorageValue {
    Session(SessionMetadata),
}

/// A stored value as a mathematical value.
pub enum StorageValueView {
    Session(SessionMetadataView),
}

impl View for StorageValue {
    type V = StorageValueView;

    open spec fn view(&self) -> StorageValueView {
        match self {
            StorageValue::Session(metadata) => StorageValueView::Session(metadata@),
        }
    }
}

impl StorageValue {
    /// A copy of the value.
    pub fn duplicate(&self) -> (r: StorageValue)
        ensures
            r@ == self@,
    {
        match self {
            StorageValue::Session(metadata) => StorageValue::Session(metadata.duplicate()),
        }
    }
}

/// Why the store failed.
#[derive(Debug, PartialEq, Eq)]
pub enum StorageError {
    /// A value could not be written as text or read back from it.
    Serialization(String),
    /// An operation of the backend failed; the text says which.
    OperationFailed(String),
}

/// Whether a list names every key of a store, and each key once.
pub open spec fn lists_each_key_once(
    keys: Seq<String>,
    entries: Map<Seq<char>, StorageValueView>,
) -> bool {
    &&& forall|i: int| 0 <= i < keys.len() ==> entries.contains_key(#[trigger] keys[i]@)
    &&& forall|k: Seq<char>| #[trigger]
        entries.contains_key(k) ==> exists|i: int| 0 <= i < keys.len() && #[trigger] keys[i]@ == k
    &&& forall|i: int, j: int|
        0 <= i < j < keys.len() ==> #[trigger] keys[i]@ != #[trigger] keys[j]@
}

/// Holds of every store and every map: nothing is known of what a store holds
/// beyond what its operations promise.
pub open spec fn may_hold<S: ?Sized>(store: &S, held: Map<Seq<char>, StorageValueView>) -> bool {
    true
}

/// A key-value store of session data. `entries` is what the store holds.
/// A failed operation leaves the store as it was.
pub trait StorageBackend {
    /// Whether the store is in a state that its operations can work on. A
    /// store that says nothing else is always in such a state.
    open spec fn valid(&self) -> bool {
        true
    }

    /// The keys of the store and the value under each. A store that says
    /// nothing else holds some map that its state determines.
    open spec fn entries(&self) -> Map<Seq<char>, StorageValueView> {
        choose|held: Map<Seq<char>, StorageValueView>| may_hold(self, held)
    }

    /// Puts a value under a key, in place of what was there.
    fn set(&mut self, key: &str, value: &StorageValue) -> (r: Result<(), StorageError>)
        requires
            old(self).valid(),
        ensures
            final(self).valid(),
            r is Ok ==> final(self).entries() == old(self).entries().insert(key@, value@),
            r is Err ==> final(self).entries() == old(self).entries(),
    ;

    /// The value under a key, or `None` where the key is not in the store.
    fn get(&self, key: &str) -> (r: Result<Option<StorageValue>, StorageError>)
        requires
            self.valid(),
        ensures
            r matches Ok(Some(v)) ==> self.entries().contains_key(key@) && self.entries()[key@]
                == v@,
            r matches Ok(None) ==> !self.entries().contains_key(key@),
    ;

    /// Takes a key and its value out of the store.
    fn remove(&mut self, key: &str) -> (r: Result<(), StorageError>)
        requires
            old(self).valid(),
        ensures
            final(self).valid(),
            r is Ok ==> final(self).entries() == old(self).entries().remove(key@),
            r is Err ==> final(self).entries() == old(self).entries(),
    ;

    /// Empties the store.
    fn clear(&mut self) -> (r: Result<(), StorageError>)
        requires
            old(self).valid(),
        ensures
            final(self).valid(),
            r is Ok ==> final(self).entries() == Map::<Seq<char>, StorageValueView>::empty(),
            r is Err ==> final(self).entries() == old(self).entries(),
    ;

    /// The keys of the store, each once.
    fn keys(&self) -> (r: Result<Vec<String>, StorageError>)
        requires
            self.valid(),
        ensures
            r matches Ok(ks) ==> lists_each_key_once(ks@, self.entries()),
    ;
}

/// Tells which application asks: sessions are kept apart by origin.
pub trait OriginProvider {
    /// The origin of the requesting application.
    fn origin() -> Result<String, DeviceError>;
}

/// The keys under which values are stored.
pub struct Selectors;

impl Selectors {
    /// The key of the session of an account for one origin on one chain.
    pub open spec fn session_key(address: Felt, origin: Seq<char>, chain_id: Felt) -> Seq<char> {
        "@cartridge/session/"@ + hex_text(address.value()) + "/"@ + origin + "/"@ + hex_text(
            chain_id.value(),
        )
    }

    /// The key of the session of an account for one origin on one chain.
    pub fn session(address: &Felt, origin: &str, chain_id: &Felt) -> (r: String)
        ensures
            r@ == Selectors::session_key(*address, origin@, *chain_id),
    {
        let mut key = String::from_str("@cartridge/session/");
        key.append(address.to_hex_string().as_str());
        key.append("/");
        key.append(origin);
        key.append("/");
        key.append(chain_id.to_hex_string().as_str());
        key
    }
}

/// The sessions of one account on one chain are kept apart by origin: two
/// origins that differ never share a key.
pub proof fn lemma_session_keys_differ_by_origin(
    address: Felt,
    chain_id: Felt,
    origin_a: Seq<char>,
    origin_b: Seq<char>,
)
    requires
        origin_a != origin_b,
    ensures
        Selectors::session_key(address, origin_a, chain_id) != Selectors::session_key(
            address,
            origin_b,
            chain_id,
        ),
{
    let head = "@cartridge/session/"@ + hex_text(address.value()) + "/"@;
    let tail = "/"@ + hex_text(chain_id.value());
    let key_a = Selectors::session_key(address, origin_a, chain_id);
    let key_b = Selectors::session_key(address, origin_b, chain_id);
    assert(key_a =~= head + origin_a + tail);
    assert(key_b =~= head + origin_b + tail);
    if key_a == key_b {
        assert(origin_a.len() == origin_b.len()) by {
            assert(key_a.len() == head.len() + origin_a.len() + tail.len());
            assert(key_b.len() == head.len() + origin_b.len() + tail.len());
        }
        assert forall|i: int| 0 <= i < origin_a.len() implies origin_a[i] == origin_b[i] by {
            assert(key_a[head.len() + i] == origin_a[i]);
            assert(key_b[head.len() + i] == origin_b[i]);
        }
        assert(origin_a =~= origin_b);
    }
}

/// Two keys are the same only for the same account, the same origin and the
/// same chain.
pub proof fn lemma_session_key_is_injective(
    address_a: Felt,
    origin_a: Seq<char>,
    chain_a: Felt,
    address_b: Felt,
    origin_b: Seq<char>,
    chain_b: Felt,
)
    requires
        address_a.is_canonical(),
        address_b.is_canonical(),
        chain_a.is_canonical(),
        chain_b.is_canonical(),
        Selectors::session_key(address_a, origin_a, chain_a) == Selectors::session_key(
            address_b,
            origin_b,
            chain_b,
        ),
    ensures
        address_a == address_b,
        origin_a == origin_b,
        chain_a == chain_b,
{
    reveal_strlit("@cartridge/session/");
    reveal_strlit("/");
    let prefix = "@cartridge/session/"@;
    let slash = "/"@;
    assert(slash.len() == 1 && slash[0] == '/');
    let account_a = hex_text(address_a.value());
    let account_b = hex_text(address_b.value());
    let net_a = hex_text(chain_a.value());
    let net_b = hex_text(chain_b.value());
    crate::hex::lemma_hex_text_has_no_slash(address_a.value());
    crate::hex::lemma_hex_text_has_no_slash(address_b.value());
    crate::hex::lemma_hex_text_has_no_slash(chain_a.value());
    crate::hex::lemma_hex_text_has_no_slash(chain_b.value());
    let key_a = Selectors::session_key(address_a, origin_a, chain_a);
    let key_b = Selectors::session_key(address_b, origin_b, chain_b);
    assert(key_a =~= prefix + account_a + slash + origin_a + slash + net_a);
    assert(key_b =~= prefix + account_b + slash + origin_b + slash + net_b);
    let start = prefix.len() as int;
    let len = key_a.len() as int;
    assert(len == start + account_a.len() + 1 + origin_a.len() + 1 + net_a.len());
    assert(len == start + account_b.len() + 1 + origin_b.len() + 1 + net_b.len());
    // The account ends at the first `/` behind the prefix.
    assert(account_a.len() == account_b.len()) by {
        if account_a.len() < account_b.len() {
            let at = start + account_a.len();
            assert(key_a[at] == slash[0]);
            assert(key_b[at] == account_b[at - start]);
        } else if account_b.len() < account_a.len() {
            let at = start + account_b.len();
            assert(key_b[at] == slash[0]);
            assert(key_a[at] == account_a[at - start]);
        }
    }
    assert(account_a =~= account_b) by {
        assert forall|i: int| 0 <= i < account_a.len() implies account_a[i] == account_b[i] by {
            assert(key_a[start + i] == account_a[i]);
            assert(key_b[start + i] == account_b[i]);
        }
    }
    // The chain begins behind the last `/`.
    assert(net_a.len() == net_b.len()) by {
        if net_a.len() < net_b.len() {
            let at = len - net_a.len() - 1;
            assert(key_a[at] == slash[0]);
            assert(key_b[at] == net_b[at - (len - net_b.len())]);
        } else if net_b.len() < net_a.len() {
            let at = len - net_b.len() - 1;
            assert(key_b[at] == slash[0]);
            assert(key_a[at] == net_a[at - (len - net_a.len())]);
        }
    }
    assert(net_a =~= net_b) by {
        assert forall|i: int| 0 <= i < net_a.len() implies net_a[i] == net_b[i] by {
            assert(key_a[len - net_a.len() + i] == net_a[i]);
            assert(key_b[len - net_b.len() + i] == net_b[i]);
        }
    }
    crate::hex::lemma_hex_text_is_injective(address_a.value(), address_b.value());
    crate::hex::lemma_hex_text_is_injective(chain_a.value(), chain_b.value());
    crate::felt::lemma_value_is_injective(address_a, address_b);
    crate::felt::lemma_value_is_injective(chain_a, chain_b);
    if origin_a != origin_b {
        lemma_session_keys_differ_by_origin(address_a, chain_a, origin_a, origin_b);
    }
}

/// The keys that were found among the slots of a store, in the order of the
/// slots.
pub open spec fn found_keys(slots: Seq<Option<String>>) -> Seq<Seq<char>>
    decreases slots.len(),
{
    if slots.len() == 0 {
        Seq::<Seq<char>>::empty()
    } else {
        match slots.last() {
            Some(key) => found_keys(slots.drop_last()).push(key@),
            None => found_keys(slots.drop_last()),
        }
    }
}

/// The names of keys, in order.
pub open spec fn key_names(keys: Seq<String>) -> Seq<Seq<char>> {
    keys.map_values(|k: String| k@)
}

/// Gathers the keys of a store that is read slot by slot: a slot that gave no
/// key is passed over.
pub fn collect_keys(slots: Vec<Option<String>>) -> (r: Vec<String>)
    ensures
        key_names(r@) == found_keys(slots@),
{
    let mut keys: Vec<String> = Vec::new();
    let mut i: usize = 0;
    assert(slots@.subrange(0, 0) =~= Seq::<Option<String>>::empty());
    assert(key_names(keys@) =~= found_keys(slots@.subrange(0, 0)));
    while i < slots.len()
        invariant
            i <= slots.len(),
            key_names(keys@) == found_keys(slots@.subrange(0, i as int)),
        decreases slots.len() - i,
    {
        let ghost before = keys@;
        let ghost next = slots@.subrange(0, i + 1);
        assert(next.drop_last() =~= slots@.subrange(0, i as int));
        assert(next.last() == slots@[i as int]);
        match &slots[i] {
            Some(key) => {
                keys.push(key.clone());
                assert(key_names(keys@) =~= key_names(before).push(key@));
            },
            None => {},
        }
        i = i + 1;
    }
    assert(slots@.subrange(0, slots@.len() as int) =~= slots@);
    keys
}

/// One key of the store in memory with its value.
#[derive(Debug)]
struct Entry {
    key: String,
    value: StorageValue,
}

/// A store that lives in memory and never fails.
#[derive(Debug)]
pub struct InMemoryStorage {
    entries: Vec<Entry>,
}

impl InMemoryStorage {
    /// No key occurs twice.
    pub closed spec fn well_formed(&self) -> bool {
        forall|i: int, j: int|
            0 <= i < j < self.entries@.len() ==> (#[trigger] self.entries@[i]).key@ != (
            #[trigger] self.entries@[j]).key@
    }

    /// Whether a key is held at a position.
    closed spec fn held_at(&self, key: Seq<char>, i: int) -> bool {
        0 <= i < self.entries@.len() && self.entries@[i].key@ == key
    }

    /// The position of a key that is held.
    closed spec fn position(&self, key: Seq<char>) -> int {
        choose|i: int| self.held_at(key, i)
    }

    /// An empty store.
    pub fn new() -> (r: InMemoryStorage)
        ensures
            r.valid(),
            r.entries() == Map::<Seq<char>, StorageValueView>::empty(),
    {
        let r = InMemoryStorage { entries: Vec::new() };
        assert(r.entries() =~= Map::<Seq<char>, StorageValueView>::empty()) by {
            assert forall|k: Seq<char>| !r.entries().contains_key(k) by {
                if r.entries().contains_key(k) {
                    let i = choose|i: int| r.held_at(k, i);
                    assert(r.held_at(k, i));
                }
            }
        }
        r
    }

    /// The position of a key, or `None` where the store does not hold it.
    fn find(&self, key: &str) -> (r: Option<usize>)
        ensures
            r matches Some(i) ==> self.held_at(key@, i as int),
            r is None ==> forall|i: int| !self.held_at(key@, i),
    {
        let wanted = String::from_str(key);
        let mut i: usize = 0;
        while i < self.entries.len()
            invariant
                i <= self.entries.len(),
                wanted@ == key@,
                forall|j: int| 0 <= j < i ==> !self.held_at(key@, j),
            decreases self.entries.len() - i,
        {
            if self.entries[i].key == wanted {
                return Some(i);
            }
            i = i + 1;
        }
        None
    }

    /// What the store holds under the key at a position.
    proof fn lemma_entry(&self, i: int)
        requires
            self.well_formed(),
            0 <= i < self.entries@.len(),
        ensures
            self.entries().contains_key(self.entries@[i].key@),
            self.entries()[self.entries@[i].key@] == self.entries@[i].value@,
    {
        let key = self.entries@[i].key@;
        assert(self.held_at(key, i));
        let p = self.position(key);
        assert(self.held_at(key, p));
        if p < i {
            assert(self.entries@[p].key@ != self.entries@[i].key@);
        } else if i < p {
            assert(self.entries@[i].key@ != self.entries@[p].key@);
        }
    }

    /// A key that the store holds is held at some position.
    proof fn lemma_held(&self, key: Seq<char>)
        requires
            self.entries().contains_key(key),
        ensures
            self.held_at(key, self.position(key)),
    {
        let i = choose|i: int| self.held_at(key, i);
        assert(self.held_at(key, i));
    }
}

/// The origin under which the store in memory keeps its sessions.
pub open spec fn in_memory_origin() -> Seq<char> {
    "https://cartridge.gg"@
}

impl OriginProvider for InMemoryStorage {
    /// The store in memory always answers with the same origin.
    fn origin() -> (r: Result<String, DeviceError>)
        ensures
            r is Ok,
            r->Ok_0@ == in_memory_origin(),
    {
        Ok(String::from_str("https://cartridge.gg"))
    }
}

impl Default for InMemoryStorage {
    fn default() -> (r: InMemoryStorage)
        ensures
            r.valid(),
            r.entries() == Map::<Seq<char>, StorageValueView>::empty(),
    {
        InMemoryStorage::new()
    }
}

impl StorageBackend for InMemoryStorage {
    open spec fn valid(&self) -> bool {
        self.well_formed()
    }

    closed spec fn entries(&self) -> Map<Seq<char>, StorageValueView> {
        Map::new(
            |k: Seq<char>| exists|i: int| self.held_at(k, i),
            |k: Seq<char>| self.entries@[self.position(k)].value@,
        )
    }

    fn set(&mut self, key: &str, value: &StorageValue) -> (r: Result<(), StorageError>)
        ensures
            r is Ok,
    {
        let ghost before = *self;
        let found = self.find(key);
        let entry = Entry { key: String::from_str(key), value: value.duplicate() };
        match found {
            Some(i) => {
                self.entries.set(i, entry);
            },
            None => {
                self.entries.push(entry);
            },
        }
        proof {
            let after = *self;
            let at: int = match found {
                Some(i) => i as int,
                None => before.entries@.len() as int,
            };
            assert(after.entries@[at].key@ == key@ && after.entries@[at].value@ == value@);
            assert forall|i: int, j: int| 0 <= i < j < after.entries@.len() implies (
            #[trigger] after.entries@[i]).key@ != (#[trigger] after.entries@[j]).key@ by {
                if i != at && j != at {
                    assert(after.entries@[i] == before.entries@[i]);
                    assert(after.entries@[j] == before.entries@[j]);
                } else if i == at {
                    assert(after.entries@[j] == before.entries@[j]);
                    assert(before.held_at(before.entries@[j].key@, j));
                    if found is Some {
                        assert(before.entries@[at].key@ != before.entries@[j].key@);
                    }
                } else {
                    if i < before.entries@.len() {
                        assert(after.entries@[i] == before.entries@[i]);
                        assert(before.held_at(before.entries@[i].key@, i));
                    }
                    if found is Some {
                        assert(before.entries@[i].key@ != before.entries@[at].key@);
                    }
                }
            }
            assert(after.well_formed());
            let want = before.entries().insert(key@, value@);
            assert forall|k: Seq<char>| after.entries().contains_key(k) <==> want.contains_key(
                k,
            ) by {
                if after.entries().contains_key(k) {
                    after.lemma_held(k);
                    let p = after.position(k);
                    if p != at {
                        assert(after.entries@[p] == before.entries@[p]);
                        assert(before.held_at(k, p));
                    }
                }
                if want.contains_key(k) {
                    if k == key@ {
                        assert(after.held_at(k, at));
                    } else {
                        before.lemma_held(k);
                        let p = before.position(k);
                        assert(p != at);
                        assert(after.entries@[p] == before.entries@[p]);
                        assert(after.held_at(k, p));
                    }
                }
            }
            assert forall|k: Seq<char>| after.entries().contains_key(k) implies after.entries()[k]
                == want[k] by {
                after.lemma_held(k);
                let p = after.position(k);
                after.lemma_entry(p);
                if p != at {
                    assert(after.entries@[p] == before.entries@[p]);
                    before.lemma_entry(p);
                }
            }
            assert(after.entries() =~= want);
        }
        Ok(())
    }

    fn get(&self, key: &str) -> (r: Result<Option<StorageValue>, StorageError>)
        ensures
            r is Ok,
            r matches Ok(None) <==> !self.entries().contains_key(key@),
    {
        match self.find(key) {
            Some(i) => {
                proof {
                    self.lemma_entry(i as int);
                }
                Ok(Some(self.entries[i].value.duplicate()))
            },
            None => {
                proof {
                    if self.entries().contains_key(key@) {
                        self.lemma_held(key@);
                    }
                }
                Ok(None)
            },
        }
    }

    fn remove(&mut self, key: &str) -> (r: Result<(), StorageError>)
        ensures
            r is Ok,
    {
        let ghost before = *self;
        let found = self.find(key);
        match found {
            Some(i) => {
                let _ = self.entries.remove(i);
            },
            None => {},
        }
        proof {
            let after = *self;
            let want = before.entries().remove(key@);
            match found {
                Some(at) => {
                    let at = at as int;
                    assert forall|i: int| 0 <= i < after.entries@.len() implies #[trigger]
                        after.entries@[i] == before.entries@[if i < at {
                        i
                    } else {
                        i + 1
                    }] by {}
                    assert forall|i: int, j: int| 0 <= i < j < after.entries@.len() implies (
                    #[trigger] after.entries@[i]).key@ != (#[trigger] after.entries@[j]).key@ by {
                        let bi = if i < at {
                            i
                        } else {
                            i + 1
                        };
                        let bj = if j < at {
                            j
                        } else {
                            j + 1
                        };
                        assert(before.entries@[bi].key@ != before.entries@[bj].key@);
                    }
                    assert(after.well_formed());
                    assert forall|k: Seq<char>| after.entries().contains_key(k)
                        <==> want.contains_key(k) by {
                        if after.entries().contains_key(k) {
                            after.lemma_held(k);
                            let p = after.position(k);
                            let bp = if p < at {
                                p
                            } else {
                                p + 1
                            };
                            assert(before.held_at(k, bp));
                            assert(before.entries@[bp].key@ != before.entries@[at].key@) by {
                                if bp < at {
                                    assert(before.entries@[bp].key@ != before.entries@[at].key@);
                                } else {
                                    assert(before.entries@[at].key@ != before.entries@[bp].key@);
                                }
                            }
                        }
                        if want.contains_key(k) {
                            before.lemma_held(k);
                            let bp = before.position(k);
                            assert(bp != at);
                            let p = if bp < at {
                                bp
                            } else {
                                bp - 1
                            };
                            assert(after.entries@[p] == before.entries@[bp]);
                            assert(after.held_at(k, p));
                        }
                    }
                    assert forall|k: Seq<char>| after.entries().contains_key(k) implies
                        after.entries()[k] == want[k] by {
                        after.lemma_held(k);
                        let p = after.position(k);
                        after.lemma_entry(p);
                        let bp = if p < at {
                            p
                        } else {
                            p + 1
                        };
                        assert(after.entries@[p] == before.entries@[bp]);
                        before.lemma_entry(bp);
                    }
                    assert(after.entries() =~= want);
                },
                None => {
                    assert(!before.entries().contains_key(key@)) by {
                        if before.entries().contains_key(key@) {
                            before.lemma_held(key@);
                        }
                    }
                    assert(after.entries() =~= want);
                },
            }
        }
        Ok(())
    }

    fn clear(&mut self) -> (r: Result<(), StorageError>)
        ensures
            r is Ok,
    {
        self.entries.clear();
        proof {
            let after = *self;
            assert forall|k: Seq<char>| !after.entries().contains_key(k) by {
                if after.entries().contains_key(k) {
                    after.lemma_held(k);
                }
            }
            assert(after.entries() =~= Map::<Seq<char>, StorageValueView>::empty());
        }
        Ok(())
    }

    fn keys(&self) -> (r: Result<Vec<String>, StorageError>)
        ensures
            r is Ok,
    {
        let mut out: Vec<String> = Vec::new();
        let mut i: usize = 0;
        while i < self.entries.len()
            invariant
                i <= self.entries.len(),
                out@.len() == i,
                forall|j: int| 0 <= j < i ==> (#[trigger] out@[j])@ == self.entries@[j].key@,
            decreases self.entries.len() - i,
        {
            out.push(self.entries[i].key.clone());
            i = i + 1;
        }
        proof {
            assert forall|j: int| 0 <= j < out@.len() implies self.entries().contains_key(
                #[trigger] out@[j]@,
            ) by {
                self.lemma_entry(j);
            }
            assert forall|k: Seq<char>| #[trigger] self.entries().contains_key(k) implies exists|
                j: int,
            |
                0 <= j < out@.len() && #[trigger] out@[j]@ == k by {
                self.lemma_held(k);
                let p = self.position(k);
                assert(out@[p]@ == k);
            }
            assert forall|a: int, b: int| 0 <= a < b < out@.len() implies #[trigger] out@[a]@
                != #[trigger] out@[b]@ by {
                assert(self.entries@[a].key@ != self.entries@[b].key@);
            }
            assert(lists_each_key_once(out@, self.entries()));
        }
        Ok(out)
    }
}

} // verus!
