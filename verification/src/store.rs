//! The store: a map from keys to typed values, each with a record of how
//! often and how recently it was accessed.
use crate::number::{i64_to_string, is_float_literal, signed_decimal};
use crate::text::texts;
use std::hash::BuildHasher;
use std::time::UNIX_EPOCH;
use vstd::prelude::*;
use vstd::seq_lib::seq_to_set_is_finite;
use vstd::set_lib::{lemma_set_disjoint_lens, lemma_set_subset_finite};
use vstd::string::StringExecFns;

verus! {

/// `ahash::AHasher`: carried through, never looked into.
#[verifier::external_type_specification]
#[verifier::external_body]
pub struct ExAHasher(ahash::AHasher);

/// `scc::HashMap`: what it holds is known by `contents` alone.
#[verifier::external_type_specification]
#[verifier::external_body]
#[verifier::reject_recursive_types(K)]
#[verifier::reject_recursive_types(V)]
#[verifier::reject_recursive_types(H)]
pub struct ExSccHashMap<K, V, H: BuildHasher>(scc::HashMap<K, V, H>);

/// Builds hashers that all hash alike, so that a key is found again under
/// the hash it was stored with.
pub struct AHashBuilder;

impl BuildHasher for AHashBuilder {
    type Hasher = ahash::AHasher;

    /// `AHasher::default`: a hasher with the process's fixed keys.
    #[verifier::external_body]
    fn build_hasher(&self) -> ahash::AHasher {
        ahash::AHasher::default()
    }
}

/// A key: one word of a request line.
pub type Key = String;

/// What an optional value holds, as mathematics.
pub open spec fn opt_view<T: View>(r: Option<T>) -> Option<T::V> {
    match r {
        Some(value) => Some(value@),
        None => None,
    }
}

/// A stored value. A floating-point value is held as the literal that
/// denotes it.
#[derive(Debug, PartialEq, Clone)]
pub enum Value {
    Str(String),
    Int(i64),
    Float(String),
    Bool(bool),
}

/// What a `Value` holds, as mathematics.
pub enum ValueView {
    Str(Seq<char>),
    Int(i64),
    Float(Seq<char>),
    Bool(bool),
}

impl ValueView {
    /// The canonical text of a value: its type tag, a space, its literal.
    pub open spec fn encode(self) -> Seq<char> {
        match self {
            ValueView::Str(s) => "str "@ + s,
            ValueView::Int(i) => "int "@ + signed_decimal(i as int),
            ValueView::Float(t) => "float "@ + t,
            ValueView::Bool(b) => if b {
                "bool true"@
            } else {
                "bool false"@
            },
        }
    }

    /// A floating-point value holds a floating-point literal.
    pub open spec fn wf(self) -> bool {
        self matches ValueView::Float(t) ==> is_float_literal(t)
    }
}

impl View for Value {
    type V = ValueView;

    open spec fn view(&self) -> ValueView {
        match self {
            Value::Str(s) => ValueView::Str(s@),
            Value::Int(i) => ValueView::Int(*i),
            Value::Float(t) => ValueView::Float(t@),
            Value::Bool(b) => ValueView::Bool(*b),
        }
    }
}

impl Value {
    /// The canonical text of the value.
    pub fn to_string(&self) -> (r: String)
        ensures
            r@ == self@.encode(),
    {
        match self {
            Value::Str(s) => String::from_str("str ").concat(s.as_str()),
            Value::Int(i) => String::from_str("int ").concat(i64_to_string(*i).as_str()),
            Value::Float(t) => String::from_str("float ").concat(t.as_str()),
            Value::Bool(b) => if *b {
                String::from_str("bool true")
            } else {
                String::from_str("bool false")
            },
        }
    }
}

/// An entry of the store: a value, the time of its last access in
/// milliseconds since the Unix epoch, and the number of its accesses.
#[derive(Clone)]
pub struct Data {
    pub value: Value,
    pub last_accessed: u128,
    pub times_accessed: usize,
}

/// What a `Data` holds, as mathematics.
pub struct DataView {
    pub value: ValueView,
    pub last_accessed: u128,
    pub times_accessed: usize,
}

impl DataView {
    /// An entry that was never accessed.
    pub open spec fn fresh(value: ValueView) -> DataView {
        DataView { value, last_accessed: 0, times_accessed: 0 }
    }

    /// The entry after one access at time `now`. The time of the last access
    /// never goes back: it is the later of `now` and the time it was. The
    /// count stops at the largest number it can hold.
    pub open spec fn touched(self, now: u128) -> DataView {
        DataView {
            value: self.value,
            last_accessed: if now > self.last_accessed {
                now
            } else {
                self.last_accessed
            },
            times_accessed: if self.times_accessed < usize::MAX {
                (self.times_accessed + 1) as usize
            } else {
                self.times_accessed
            },
        }
    }

    /// The entry with another value in place of its own.
    pub open spec fn with_value(self, value: ValueView) -> DataView {
        DataView { value, last_accessed: self.last_accessed, times_accessed: self.times_accessed }
    }

    /// The entry after one access at time `now` that also puts `value`, where
    /// one is given, in place of the entry's own.
    pub open spec fn accessed(self, now: u128, value: Option<ValueView>) -> DataView {
        match value {
            Some(value) => self.touched(now).with_value(value),
            None => self.touched(now),
        }
    }
}

impl View for Data {
    type V = DataView;

    open spec fn view(&self) -> DataView {
        DataView {
            value: self.value@,
            last_accessed: self.last_accessed,
            times_accessed: self.times_accessed,
        }
    }
}

impl Data {
    /// An entry for `value` that was never accessed.
    pub fn new(value: Value) -> (r: Data)
        ensures
            r@ == DataView::fresh(value@),
    {
        Self { value, last_accessed: 0, times_accessed: 0 }
    }

    /// Records one access at time `now`.
    pub fn touch(&mut self, now: u128)
        ensures
            final(self)@ == old(self)@.touched(now),
    {
        if now > self.last_accessed {
            self.last_accessed = now;
        }
        if self.times_accessed < usize::MAX {
            self.times_accessed = self.times_accessed + 1;
        }
    }

    /// Records one access at time `now` and puts `value`, where one is given,
    /// in place of the entry's own.
    pub fn access(&mut self, now: u128, value: Option<Value>)
        ensures
            final(self)@ == old(self)@.accessed(now, opt_view(value)),
    {
        self.touch(now);
        match value {
            Some(value) => {
                self.value = value;
            },
            None => {},
        }
    }
}

/// `SystemTime::elapsed` on `UNIX_EPOCH`: the milliseconds from the Unix
/// epoch to now, or `None` where the clock stands before the epoch. Nothing
/// is promised of the number.
#[verifier::external_body]
fn clock_millis() -> Option<u128> {
    UNIX_EPOCH.elapsed().ok().map(|elapsed| elapsed.as_millis())
}

/// The current time in milliseconds since the Unix epoch; zero where the
/// clock stands before the epoch.
pub fn current_epoch_millis() -> u128 {
    millis_or_epoch(clock_millis())
}

/// The time that a reading of the clock stands for: the reading itself, or
/// the epoch, zero, where the clock stood before it.
pub fn millis_or_epoch(reading: Option<u128>) -> (r: u128)
    ensures
        r == match reading {
            Some(millis) => millis,
            None => 0,
        },
{
    match reading {
        Some(millis) => millis,
        None => 0,
    }
}

/// The map that holds the entries of a store.
pub type StoreMap = scc::HashMap<Key, Data, AHashBuilder>;

/// What a store holds, as mathematics: each key with its entry.
pub type Entries = Map<Seq<char>, DataView>;

/// The entries that a map holds, each key with its entry.
pub uninterp spec fn contents(map: StoreMap) -> Map<Seq<char>, DataView>;

/// `scc::HashMap::with_hasher`: a map without entries.
#[verifier::external_body]
fn map_new() -> (r: StoreMap)
    ensures
        contents(r) == Entries::empty(),
{
    scc::HashMap::with_hasher(AHashBuilder)
}

/// `scc::HashMap::contains`: whether the map holds an entry for the key.
#[verifier::external_body]
fn map_contains(map: &StoreMap, key: &Key) -> (r: bool)
    ensures
        r == contents(*map).contains_key(key@),
{
    map.contains(key)
}

/// `scc::HashMap::insert`: adds the entry where the map holds none for the
/// key and says so; otherwise leaves the map as it is.
#[verifier::external_body]
fn map_insert(map: &mut StoreMap, key: Key, data: Data) -> (r: bool)
    ensures
        r == !contents(*old(map)).contains_key(key@),
        contents(*final(map)) == if r {
            contents(*old(map)).insert(key@, data@)
        } else {
            contents(*old(map))
        },
{
    map.insert(key, data).is_ok()
}

/// `scc::HashMap::update`: where the map holds an entry for the key,
/// records one access on it in place, puts `value`, where one is given, in
/// place of the entry's own, and says so; otherwise leaves the map as it is.
#[verifier::external_body]
fn map_update(map: &mut StoreMap, key: &Key, now: u128, value: Option<Value>) -> (r: bool)
    ensures
        r == contents(*old(map)).contains_key(key@),
        contents(*final(map)) == if r {
            contents(*old(map)).insert(
                key@,
                contents(*old(map))[key@].accessed(now, opt_view(value)),
            )
        } else {
            contents(*old(map))
        },
{
    map.update(key, |_, data| data.access(now, value)).is_some()
}

/// `scc::HashMap::read`: the canonical text of the value stored under the
/// key, or `None` where the map holds no entry for it.
#[verifier::external_body]
fn map_read(map: &StoreMap, key: &Key) -> (r: Option<String>)
    ensures
        opt_view(r) == Store::spec_get(contents(*map), key@),
{
    map.read(key, |_, data| data.value.to_string())
}

/// `scc::HashMap::remove`: takes the entry for the key out of the map and
/// hands it back, or `None` where the map holds none.
#[verifier::external_body]
fn map_remove(map: &mut StoreMap, key: &Key) -> (r: Option<Data>)
    ensures
        opt_view(r) == contents(*old(map)).get(key@),
        contents(*final(map)) == contents(*old(map)).remove(key@),
{
    map.remove(key).map(|pair| pair.1)
}

/// A key-value store.
///
/// Every method that changes an entry or records an access takes the store
/// by exclusive reference: callers that share one store put it behind a lock.
pub struct Store {
    pub map: StoreMap,
}

impl View for Store {
    type V = Entries;

    open spec fn view(&self) -> Entries {
        contents(self.map)
    }
}

impl Store {
    /// The store after an access to `key` at time `now`.
    pub open spec fn spec_touch(m: Entries, key: Seq<char>, now: u128) -> Entries {
        if m.contains_key(key) {
            m.insert(key, m[key].touched(now))
        } else {
            m
        }
    }

    /// The store after `value` is stored under `key` at time `now`: an entry
    /// that exists is accessed and takes the value, a new one starts fresh.
    pub open spec fn spec_set(
        m: Entries,
        key: Seq<char>,
        value: ValueView,
        now: u128,
    ) -> Entries {
        if m.contains_key(key) {
            m.insert(key, m[key].touched(now).with_value(value))
        } else {
            m.insert(key, DataView::fresh(value))
        }
    }

    /// What a lookup of `key` answers: the canonical text of its value.
    pub open spec fn spec_get(m: Entries, key: Seq<char>) -> Option<Seq<char>> {
        if m.contains_key(key) {
            Some(m[key].value.encode())
        } else {
            None
        }
    }

    /// What a deletion of `key` hands back: the value stored under it.
    pub open spec fn spec_del(m: Entries, key: Seq<char>) -> Option<ValueView> {
        if m.contains_key(key) {
            Some(m[key].value)
        } else {
            None
        }
    }

    /// The store after an access to each of `keys` in turn, the access to
    /// `keys[i]` at time `times[i]`.
    pub open spec fn spec_touch_many(
        m: Entries,
        keys: Seq<Seq<char>>,
        times: Seq<u128>,
    ) -> Entries
        decreases keys.len(),
    {
        if keys.len() == 0 {
            m
        } else {
            Store::spec_touch(
                Store::spec_touch_many(m, keys.drop_last(), times.drop_last()),
                keys.last(),
                times.last(),
            )
        }
    }

    /// How many of `keys` are present, a key counted as often as it occurs.
    pub open spec fn present(m: Entries, keys: Seq<Seq<char>>) -> nat {
        keys.filter(|key: Seq<char>| m.contains_key(key)).len()
    }

    /// A store without entries.
    pub fn new() -> (s: Store)
        ensures
            s@ == Entries::empty(),
    {
        Store { map: map_new() }
    }

    /// Records an access to `key` at time `now`. Returns 1 where the key is
    /// present and 0 where it is not.
    pub fn touch_at(&mut self, key: &Key, now: u128) -> (r: usize)
        ensures
            final(self)@ == Store::spec_touch(old(self)@, key@, now),
            r == if old(self)@.contains_key(key@) { 1usize } else { 0usize },
    {
        if map_update(&mut self.map, key, now, None) {
            1
        } else {
            0
        }
    }

    /// Touches a key: counts the access and moves its last accessed time on to
    /// the current time, unless the clock has gone back.
    pub fn touch(&mut self, key: &Key) -> (r: usize)
        ensures
            exists|now: u128| final(self)@ == Store::spec_touch(old(self)@, key@, now),
            r == if old(self)@.contains_key(key@) { 1usize } else { 0usize },
    {
        let now = current_epoch_millis();
        self.touch_at(key, now)
    }

    /// Stores `value` under `key`, with `now` as the time of the access where
    /// the key is present already.
    pub fn set_at(&mut self, key: Key, value: Value, now: u128)
        ensures
            final(self)@ == Store::spec_set(old(self)@, key@, value@, now),
    {
        if map_contains(&self.map, &key) {
            map_update(&mut self.map, &key, now, Some(value));
        } else {
            map_insert(&mut self.map, key, Data::new(value));
        }
    }

    /// Sets a key-value pair in the store.
    pub fn set(&mut self, key: Key, value: Value)
        ensures
            exists|now: u128| final(self)@ == Store::spec_set(old(self)@, key@, value@, now),
    {
        let now = current_epoch_millis();
        self.set_at(key, value, now)
    }

    /// Looks `key` up and records the access at time `now`.
    pub fn get_at(&mut self, key: &Key, now: u128) -> (r: Option<String>)
        ensures
            final(self)@ == Store::spec_touch(old(self)@, key@, now),
            opt_view(r) == Store::spec_get(old(self)@, key@),
    {
        self.touch_at(key, now);
        map_read(&self.map, key)
    }

    /// Gets the canonical text of the value associated with the key.
    ///
    /// Returns `None` if the key does not exist.
    pub fn get(&mut self, key: &Key) -> (r: Option<String>)
        ensures
            exists|now: u128| final(self)@ == Store::spec_touch(old(self)@, key@, now),
            opt_view(r) == Store::spec_get(old(self)@, key@),
    {
        let now = current_epoch_millis();
        self.get_at(key, now)
    }

    /// Removes the key-value pair from the store.
    ///
    /// Returns the value associated with the key, if it exists.
    pub fn del(&mut self, key: &Key) -> (r: Option<Value>)
        ensures
            final(self)@ == old(self)@.remove(key@),
            opt_view(r) == Store::spec_del(old(self)@, key@),
    {
        match map_remove(&mut self.map, key) {
            Some(data) => Some(data.value),
            None => None,
        }
    }
    /// Touches each key in turn and returns how many were present, a key
    /// counted as often as it occurs.
    pub fn touch_many(&mut self, keys: Vec<Key>) -> (r: usize)
        ensures
            exists|times: Seq<u128>|
                times.len() == keys.len() && final(self)@ == Store::spec_touch_many(
                    old(self)@,
                    texts(keys@),
                    times,
                ),
            r == Store::present(old(self)@, texts(keys@)),
    {
        let ghost names = texts(keys@);
        let ghost present = |key: Seq<char>| old(self)@.contains_key(key);
        let ghost mut times: Seq<u128> = Seq::empty();
        let mut count: usize = 0;
        let mut i: usize = 0;
        proof {
            assert(names.take(0) == Seq::<Seq<char>>::empty());
            assert(names.take(0).filter(present).len() == 0) by {
                names.take(0).lemma_filter_len(present);
            }
        }
        while i < keys.len()
            invariant
                i <= keys.len(),
                names == texts(keys@),
                present == |key: Seq<char>| old(self)@.contains_key(key),
                times.len() == i,
                self@ == Store::spec_touch_many(old(self)@, names.take(i as int), times),
                self@.dom() == old(self)@.dom(),
                count == names.take(i as int).filter(present).len(),
                count <= i,
            decreases keys.len() - i,
        {
            let now = current_epoch_millis();
            let touched = self.touch_at(&keys[i], now);
            proof {
                let before = names.take(i as int);
                names.lemma_take_succ_push(i as int);
                assert(names.take(i + 1).drop_last() == before);
                assert(times.push(now).drop_last() == times);
                before.lemma_filter_len_push(present, names[i as int]);
                times = times.push(now);
            }
            count = count + touched;
            i += 1;
        }
        proof {
            assert(names.take(keys.len() as int) == names);
        }
        count
    }

    /// Deletes each key in turn and returns how many entries were removed:
    /// a key that is absent, or that occurred before, removes none.
    pub fn del_many(&mut self, keys: Vec<Key>) -> (r: usize)
        ensures
            final(self)@ == old(self)@.remove_keys(texts(keys@).to_set()),
            r == texts(keys@).to_set().intersect(old(self)@.dom()).len(),
    {
        let ghost names = texts(keys@);
        let mut count: usize = 0;
        let mut i: usize = 0;
        proof {
            assert(names.take(0) == Seq::<Seq<char>>::empty());
            assert(names.take(0).to_set() == Set::<Seq<char>>::empty());
            assert(names.take(0).to_set().intersect(old(self)@.dom()) == Set::<Seq<char>>::empty());
            assert(old(self)@.remove_keys(Set::<Seq<char>>::empty()) == old(self)@);
        }
        while i < keys.len()
            invariant
                i <= keys.len(),
                names == texts(keys@),
                self@ == old(self)@.remove_keys(names.take(i as int).to_set()),
                count == names.take(i as int).to_set().intersect(old(self)@.dom()).len(),
                count <= i,
            decreases keys.len() - i,
        {
            let removed = self.del(&keys[i]);
            proof {
                let key = names[i as int];
                let seen = names.take(i as int).to_set();
                let hit = seen.intersect(old(self)@.dom());
                names.lemma_take_succ_push(i as int);
                names.take(i as int).lemma_push_to_set_commute(key);
                seq_to_set_is_finite(names.take(i as int));
                lemma_set_subset_finite(seen, hit);
                let next = names.take(i + 1).to_set().intersect(old(self)@.dom());
                if removed is Some {
                    assert(next == hit.insert(key));
                } else {
                    assert(next == hit);
                }
                assert(self@ == old(self)@.remove_keys(names.take(i + 1).to_set()));
            }
            if removed.is_some() {
                count = count + 1;
            }
            i += 1;
        }
        proof {
            assert(names.take(keys.len() as int) == names);
        }
        count
    }
}

/// One operation on the store, with the time that the clock gave it.
pub enum Operation {
    SetValue { key: Seq<char>, value: ValueView, now: u128 },
    Get { key: Seq<char>, now: u128 },
    Touch { key: Seq<char>, now: u128 },
    TouchMany { keys: Seq<Seq<char>>, times: Seq<u128> },
    Del { key: Seq<char> },
    DelMany { keys: Seq<Seq<char>> },
}

impl Operation {
    /// Whether the operation stores a value under `key`.
    pub open spec fn sets(self, key: Seq<char>) -> bool {
        self matches Operation::SetValue { key: k, .. } && k == key
    }

    /// Whether the operation deletes `key`.
    pub open spec fn deletes(self, key: Seq<char>) -> bool {
        match self {
            Operation::Del { key: k } => k == key,
            Operation::DelMany { keys } => keys.contains(key),
            _ => false,
        }
    }

    /// The store after the operation.
    pub open spec fn apply(self, m: Entries) -> Entries {
        match self {
            Operation::SetValue { key, value, now } => Store::spec_set(m, key, value, now),
            Operation::Get { key, now } => Store::spec_touch(m, key, now),
            Operation::Touch { key, now } => Store::spec_touch(m, key, now),
            Operation::TouchMany { keys, times } => Store::spec_touch_many(m, keys, times),
            Operation::Del { key } => m.remove(key),
            Operation::DelMany { keys } => m.remove_keys(keys.to_set()),
        }
    }
}

/// The store after a sequence of operations on a new store.
pub open spec fn run(operations: Seq<Operation>) -> Entries
    decreases operations.len(),
{
    if operations.len() == 0 {
        Entries::empty()
    } else {
        operations.last().apply(run(operations.drop_last()))
    }
}

/// A value that was stored is the value that a lookup finds: after
/// `set(key, value)`, `get(key)` answers with the canonical text of `value`.
pub proof fn lemma_get_after_set(m: Entries, key: Seq<char>, value: ValueView, now: u128)
    ensures
        Store::spec_get(Store::spec_set(m, key, value, now), key) == Some(value.encode()),
{
}

/// A value that was stored is the value that a deletion hands back, and the
/// key is absent afterwards: after `set(key, value)`, `del(key)` returns
/// `value`, and a `get(key)` after that finds nothing.
pub proof fn lemma_del_after_set(m: Entries, key: Seq<char>, value: ValueView, now: u128)
    ensures
        Store::spec_del(Store::spec_set(m, key, value, now), key) == Some(value),
        Store::spec_get(Store::spec_set(m, key, value, now).remove(key), key) is None,
{
}

/// Accesses change no key: the store holds the same keys after them.
pub proof fn lemma_touch_many_keeps_the_keys(m: Entries, keys: Seq<Seq<char>>, times: Seq<u128>)
    ensures
        Store::spec_touch_many(m, keys, times).dom() == m.dom(),
    decreases keys.len(),
{
    if keys.len() > 0 {
        lemma_touch_many_keeps_the_keys(m, keys.drop_last(), times.drop_last());
    }
}

/// A key is present exactly if it was set and not deleted since: whatever
/// the operations on a new store were, the store holds `key` if and only if
/// one of them set it and none after that one deleted it.
pub proof fn lemma_present_iff_set_and_not_deleted(operations: Seq<Operation>, key: Seq<char>)
    ensures
        run(operations).contains_key(key) <==> exists|i: int|
            0 <= i < operations.len() && (#[trigger] operations[i]).sets(key) && forall|j: int|
                i < j < operations.len() ==> !(#[trigger] operations[j]).deletes(key),
    decreases operations.len(),
{
    let held = |ops: Seq<Operation>|
        exists|i: int|
            0 <= i < ops.len() && (#[trigger] ops[i]).sets(key) && forall|j: int|
                i < j < ops.len() ==> !(#[trigger] ops[j]).deletes(key);
    if operations.len() > 0 {
        let before = operations.drop_last();
        let last = operations.last();
        let n = before.len() as int;
        lemma_present_iff_set_and_not_deleted(before, key);
        assert(run(before).contains_key(key) <==> held(before));
        match last {
            Operation::TouchMany { keys, times } => {
                lemma_touch_many_keeps_the_keys(run(before), keys, times);
            },
            _ => {},
        }
        if last.sets(key) {
            assert(operations[n].sets(key));
            assert(held(operations));
        } else if last.deletes(key) {
            if held(operations) {
                let i = choose|i: int|
                    0 <= i < operations.len() && (#[trigger] operations[i]).sets(key) && forall|
                        j: int,
                    |
                        i < j < operations.len() ==> !(#[trigger] operations[j]).deletes(key);
                assert(operations[n].deletes(key));
            }
            match last {
                Operation::DelMany { keys } => {
                    assert(keys.to_set().contains(key));
                },
                _ => {},
            }
        } else {
            match last {
                Operation::DelMany { keys } => {
                    assert(!keys.to_set().contains(key));
                },
                _ => {},
            }
            assert(run(operations).contains_key(key) == run(before).contains_key(key));
            if held(before) {
                let i = choose|i: int|
                    0 <= i < before.len() && (#[trigger] before[i]).sets(key) && forall|j: int|
                        i < j < before.len() ==> !(#[trigger] before[j]).deletes(key);
                assert(operations[i] == before[i]);
                assert forall|j: int| i < j < operations.len() implies !(
                #[trigger] operations[j]).deletes(key) by {
                    if j < n {
                        assert(operations[j] == before[j]);
                    }
                }
                assert(held(operations));
            }
            if held(operations) {
                let i = choose|i: int|
                    0 <= i < operations.len() && (#[trigger] operations[i]).sets(key) && forall|
                        j: int,
                    |
                        i < j < operations.len() ==> !(#[trigger] operations[j]).deletes(key);
                assert(i < n);
                assert(before[i] == operations[i]);
                assert forall|j: int| i < j < before.len() implies !(#[trigger] before[j]).deletes(
                    key,
                ) by {
                    assert(before[j] == operations[j]);
                }
                assert(held(before));
            }
        }
    }
}

/// A key that was never set is absent: a deletion of it hands nothing back,
/// and a touch of it counts nothing.
pub proof fn lemma_never_set_is_absent(operations: Seq<Operation>, key: Seq<char>)
    requires
        forall|i: int| 0 <= i < operations.len() ==> !(#[trigger] operations[i]).sets(key),
    ensures
        !run(operations).contains_key(key),
        Store::spec_del(run(operations), key) is None,
        Store::spec_get(run(operations), key) is None,
        Store::present(run(operations), seq![key]) == 0,
        forall|now: u128| Store::spec_touch(run(operations), key, now) == run(operations),
{
    lemma_present_iff_set_and_not_deleted(operations, key);
    let present = |k: Seq<char>| run(operations).contains_key(k);
    assert(seq![key].filter(present).len() == 0) by {
        let none = Seq::<Seq<char>>::empty();
        assert(seq![key] == none.push(key));
        none.lemma_filter_push(key, present);
        none.lemma_filter_len(present);
    }
}

/// A touch changes neither the keys of the store nor any value in it.
pub proof fn lemma_touch_keeps_keys_and_values(m: Entries, key: Seq<char>, now: u128)
    ensures
        Store::spec_touch(m, key, now).dom() == m.dom(),
        forall|k: Seq<char>|
            m.contains_key(k) ==> (#[trigger] Store::spec_touch(m, key, now)[k]).value
                == m[k].value,
        forall|k: Seq<char>|
            m.contains_key(k) && k != key ==> #[trigger] Store::spec_touch(m, key, now)[k] == m[k],
{
}

/// Every touch of a present key counts: the number of accesses grows with
/// each one, until it is the largest that the counter holds.
pub proof fn lemma_touch_counts_up(m: Entries, key: Seq<char>, now: u128)
    requires
        m.contains_key(key),
        m[key].times_accessed < usize::MAX,
    ensures
        Store::spec_touch(m, key, now)[key].times_accessed > m[key].times_accessed,
{
}

/// The time of the last access never goes back, whatever the clock reads:
/// after a touch it is the reading where that is later, and what it was
/// otherwise.
pub proof fn lemma_touch_never_goes_back(m: Entries, key: Seq<char>, now: u128)
    requires
        m.contains_key(key),
    ensures
        Store::spec_touch(m, key, now)[key].last_accessed >= m[key].last_accessed,
        now >= m[key].last_accessed ==> Store::spec_touch(m, key, now)[key].last_accessed == now,
{
}

/// Storing a value under a present key and looking a present key up count as
/// one touch each: the count grows as by a touch, and the time of the last
/// access never goes back.
pub proof fn lemma_set_and_get_touch(m: Entries, key: Seq<char>, value: ValueView, now: u128)
    requires
        m.contains_key(key),
    ensures
        Store::spec_set(m, key, value, now)[key] == m[key].touched(now).with_value(value),
        Store::spec_set(m, key, value, now)[key].last_accessed >= m[key].last_accessed,
        Store::spec_set(m, key, value, now).dom() == m.dom(),
        forall|k: Seq<char>|
            m.contains_key(k) && k != key ==> #[trigger] Store::spec_set(m, key, value, now)[k]
                == m[k],
{
}

/// Naming a key again, or naming a key that is absent, changes neither what
/// a bulk deletion removes nor what it counts.
pub proof fn lemma_del_many_counts_each_key_once(m: Entries, keys: Seq<Seq<char>>, key: Seq<char>)
    requires
        keys.contains(key) || !m.contains_key(key),
    ensures
        m.remove_keys(keys.push(key).to_set()) == m.remove_keys(keys.to_set()),
        keys.push(key).to_set().intersect(m.dom()) == keys.to_set().intersect(m.dom()),
{
    keys.lemma_push_to_set_commute(key);
    if keys.contains(key) {
        assert(keys.to_set().insert(key) == keys.to_set());
    } else {
        assert(keys.push(key).to_set().intersect(m.dom()) == keys.to_set().intersect(m.dom()));
        assert(m.remove_keys(keys.push(key).to_set()) == m.remove_keys(keys.to_set()));
    }
}

/// A bulk deletion counts the entries that leave the store.
pub proof fn lemma_del_many_counts_what_leaves(m: Entries, keys: Seq<Seq<char>>)
    requires
        m.dom().finite(),
    ensures
        m.remove_keys(keys.to_set()).dom().finite(),
        keys.to_set().intersect(m.dom()).len() == m.dom().len() - m.remove_keys(
            keys.to_set(),
        ).dom().len(),
{
    let named = keys.to_set();
    let left = named.intersect(m.dom());
    let stay = m.remove_keys(named).dom();
    seq_to_set_is_finite(keys);
    lemma_set_subset_finite(named, left);
    lemma_set_subset_finite(m.dom(), stay);
    assert(left.disjoint(stay));
    assert(left + stay == m.dom());
    lemma_set_disjoint_lens(left, stay);
}

/// Two writers of one key: whichever of them the store serves first, the key
/// is present afterwards and holds the value of the one served last, whole.
pub proof fn lemma_two_sets_leave_one_value(
    m: Entries,
    key: Seq<char>,
    first: ValueView,
    second: ValueView,
    t1: u128,
    t2: u128,
)
    ensures
        Store::spec_get(
            Store::spec_set(Store::spec_set(m, key, first, t1), key, second, t2),
            key,
        ) == Some(second.encode()),
        Store::spec_get(
            Store::spec_set(Store::spec_set(m, key, second, t1), key, first, t2),
            key,
        ) == Some(first.encode()),
        Store::spec_set(Store::spec_set(m, key, first, t1), key, second, t2).dom() == m.dom().insert(
            key,
        ),
        Store::spec_set(Store::spec_set(m, key, second, t1), key, first, t2).dom() == m.dom().insert(
            key,
        ),
{
}

} // verus!
