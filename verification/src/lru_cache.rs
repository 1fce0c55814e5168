//! A cache of lazily initialised values that forgets the least recently used
//! ones.

use std::collections::{HashMap, VecDeque};
use std::hash::Hash;
use std::sync::Arc;

use tokio::sync::OnceCell;
use vstd::prelude::*;

verus! {

use vstd::laws_eq::obeys_concrete_eq;
use vstd::std_specs::hash::obeys_key_model;

broadcast use vstd::std_specs::hash::group_hash_axioms;

/// Decides which key has to leave when another one comes in.
///
/// The view of a strategy is what its decisions depend on.
pub trait EvictionStrategy<K: Eq>: View {
    /// The keys that the strategy takes to be present.
    spec fn keys(state: Self::V) -> Set<K>;

    /// The strategy can be used in this state.
    spec fn valid(state: Self::V) -> bool;

    /// What a use of `key` makes of the state, and which key has to leave.
    spec fn step(state: Self::V, key: K, is_present: bool) -> (Self::V, Option<K>);

    /// As long as it is told the truth about the key in use, a strategy stays
    /// right about the keys that are present, and the key in use stays.
    proof fn step_keeps(state: Self::V, key: K)
        requires
            Self::valid(state),
        ensures
            ({
                let is_present = Self::keys(state).contains(key);
                let (after, evicted) = Self::step(state, key, is_present);
                &&& Self::valid(after)
                &&& match evicted {
                    None => Self::keys(after) == Self::keys(state).insert(key),
                    Some(k) => {
                        &&& k != key
                        &&& !is_present
                        &&& Self::keys(state).contains(k)
                        &&& Self::keys(after) == Self::keys(state).insert(key).remove(k)
                    },
                }
            }),
    ;

    /// Notes that `key` is used. The answer is the key that has to leave.
    fn insert(&mut self, key: K, is_present: bool) -> (evicted: Option<K>)
        requires
            obeys_concrete_eq::<K>(),
        ensures
            (final(self)@, evicted) == Self::step(old(self)@, key, is_present),
    ;

    /// The number of keys to make room for at the start.
    fn initial_capacity(&self) -> (n: usize)
        default_ensures
            n == 0,
    {
        0
    }
}

/// Evicts the least recently used key once there are more than `capacity`.
pub struct Lru<K> {
    capacity: usize,
    lru: VecDeque<K>,
}

/// The keys, most recently used first, and how many there may be.
pub struct LruView<K> {
    pub keys: Seq<K>,
    pub capacity: nat,
}

impl<K> View for Lru<K> {
    type V = LruView<K>;

    closed spec fn view(&self) -> LruView<K> {
        LruView { keys: self.lru@, capacity: self.capacity as nat }
    }
}

/// `s` without the first occurrence of `key`.
pub open spec fn without_first<K>(s: Seq<K>, key: K) -> Seq<K> {
    if s.contains(key) {
        s.remove(s.index_of_first(key)->0)
    } else {
        s
    }
}

/// What using `key` makes of the keys, and which one leaves.
pub open spec fn lru_insert<K>(keys: Seq<K>, capacity: nat, key: K, is_present: bool) -> (
    Seq<K>,
    Option<K>,
) {
    if is_present {
        (seq![key] + without_first(keys, key), None)
    } else if keys.len() < capacity {
        (seq![key] + keys, None)
    } else {
        let all = seq![key] + keys;
        (all.drop_last(), Some(all.last()))
    }
}

impl<K> Lru<K> {
    /// Starts without keys.
    pub fn new(capacity: usize) -> (r: Self)
        requires
            0 < capacity < usize::MAX,
        ensures
            r@ == (LruView { keys: Seq::<K>::empty(), capacity: capacity as nat }),
    {
        Self { capacity, lru: VecDeque::with_capacity(capacity + 1) }
    }
}

impl<K: Eq> Lru<K> {
    /// Where `key` occurs first.
    fn position(&self, key: &K) -> (r: Option<usize>)
        requires
            obeys_concrete_eq::<K>(),
        ensures
            match r {
                Some(i) => {
                    &&& i < self@.keys.len()
                    &&& self@.keys[i as int] == *key
                    &&& forall|j: int| 0 <= j < i ==> self@.keys[j] != *key
                },
                None => !self@.keys.contains(*key),
            },
    {
        reveal(obeys_concrete_eq);
        let mut i: usize = 0;
        while i < self.lru.len()
            invariant
                i <= self.lru@.len(),
                obeys_concrete_eq::<K>(),
                forall|j: int| 0 <= j < i ==> self.lru@[j] != *key,
            decreases self.lru@.len() - i,
        {
            reveal(obeys_concrete_eq);
            if self.lru[i] == *key {
                return Some(i);
            }
            i = i + 1;
        }
        None
    }
}

/// Taking out the first occurrence from keys without duplicates takes the key
/// out of the set.
proof fn lemma_without_first<K>(s: Seq<K>, key: K)
    requires
        s.no_duplicates(),
        s.contains(key),
    ensures
        without_first(s, key).no_duplicates(),
        without_first(s, key).to_set() == s.to_set().remove(key),
        without_first(s, key).len() == s.len() - 1,
        !without_first(s, key).contains(key),
{
    s.index_of_first_ensures(key);
    let i = s.index_of_first(key)->0;
    let r = without_first(s, key);
    assert(forall|j: int| 0 <= j < r.len() ==> r[j] == s[if j < i { j } else { j + 1 }]);
    assert forall|k: K| r.to_set().contains(k) == s.to_set().remove(key).contains(k) by {
        if s.contains(k) && k != key {
            let j = s.index_of(k);
            assert(r[if j < i { j } else { j - 1 }] == k);
        }
    }
    assert(r.to_set() =~= s.to_set().remove(key));
}

/// Using a key keeps the keys free of duplicates and within the capacity, and
/// adds the key in exchange for the one that leaves.
proof fn lemma_lru_insert<K>(keys: Seq<K>, capacity: nat, key: K, is_present: bool)
    requires
        0 < capacity,
        keys.no_duplicates(),
        keys.len() <= capacity,
        is_present == keys.contains(key),
    ensures
        ({
            let (after, evicted) = lru_insert(keys, capacity, key, is_present);
            &&& after.no_duplicates()
            &&& after.len() <= capacity
            &&& after.len() > 0 && after[0] == key
            &&& match evicted {
                None => after.to_set() == keys.to_set().insert(key),
                Some(k) => {
                    &&& k != key
                    &&& !is_present
                    &&& keys.contains(k)
                    &&& after.to_set() == keys.to_set().insert(key).remove(k)
                },
            }
        }),
{
    broadcast use vstd::seq_lib::group_seq_properties;

    let (after, evicted) = lru_insert(keys, capacity, key, is_present);
    if is_present {
        lemma_without_first(keys, key);
        let rest = without_first(keys, key);
        assert forall|k: K| after.to_set().contains(k) == keys.to_set().insert(key).contains(k) by {
            if rest.contains(k) {
                assert(after[rest.index_of(k) + 1] == k);
            }
            assert(after[0] == key);
            if after.contains(k) && k != key {
                let j = after.index_of(k);
                assert(rest[j - 1] == k);
            }
            assert(rest.to_set().contains(k) == keys.to_set().remove(key).contains(k));
        }
        assert(after.to_set() =~= keys.to_set().insert(key));
    } else {
        let all = seq![key] + keys;
        assert(all.no_duplicates());
        assert forall|k: K| all.to_set().contains(k) == keys.to_set().insert(key).contains(k) by {
            if keys.contains(k) {
                assert(all[keys.index_of(k) + 1] == k);
            }
            assert(all[0] == key);
        }
        assert(all.to_set() =~= keys.to_set().insert(key));
        if keys.len() == capacity {
            let last = all.last();
            assert(last == keys.last());
            assert forall|k: K|
                after.to_set().contains(k) == all.to_set().remove(last).contains(k) by {
                if all.contains(k) && k != last {
                    let j = all.index_of(k);
                    assert(after[j] == k);
                }
                if after.contains(k) {
                    let j = after.index_of(k);
                    assert(all[j] == k);
                }
            }
            assert(after.to_set() =~= all.to_set().remove(last));
        }
    }
}

impl<K: Eq> EvictionStrategy<K> for Lru<K> {
    open spec fn keys(state: LruView<K>) -> Set<K> {
        state.keys.to_set()
    }

    open spec fn valid(state: LruView<K>) -> bool {
        &&& 0 < state.capacity
        &&& state.keys.no_duplicates()
        &&& state.keys.len() <= state.capacity
    }

    open spec fn step(state: LruView<K>, key: K, is_present: bool) -> (LruView<K>, Option<K>) {
        let (keys, evicted) = lru_insert(state.keys, state.capacity, key, is_present);
        (LruView { keys, ..state }, evicted)
    }

    proof fn step_keeps(state: LruView<K>, key: K) {
        lemma_lru_insert(state.keys, state.capacity, key, state.keys.contains(key));
    }

    fn insert(&mut self, key: K, is_present: bool) -> (evicted: Option<K>) {
        if is_present {
            let index = self.position(&key);
            if let Some(index) = index {
                proof {
                    self@.keys.index_of_first_ensures(key);
                }
                self.lru.remove(index);
            }
            self.lru.push_front(key);
            None
        } else {
            self.lru.push_front(key);
            let ghost all = self.lru@;
            if self.lru.len() > self.capacity {
                let evicted = self.lru.pop_back();
                assert(self.lru@ =~= all.drop_last());
                evicted
            } else {
                None
            }
        }
    }

    fn initial_capacity(&self) -> (n: usize)
        ensures
            n == self@.capacity,
    {
        self.capacity
    }
}

/// A cell that is written at most once.
#[verifier::external_type_specification]
#[verifier::external_body]
#[verifier::reject_recursive_types(T)]
pub struct ExOnceCell<T>(OnceCell<T>);

/// [`OnceCell::new`] makes a cell. Nothing is claimed of what the cell holds.
pub assume_specification<T>[ OnceCell::<T>::new ]() -> (r: OnceCell<T>)
;

/// What a use of `key` makes of the cells: an absent key gets the fresh cell,
/// and the key that has to leave leaves.
pub open spec fn cells_used<K, C>(cells: Map<K, C>, key: K, fresh: C, evicted: Option<K>) -> Map<
    K,
    C,
> {
    let all = if cells.contains_key(key) {
        cells
    } else {
        cells.insert(key, fresh)
    };
    match evicted {
        None => all,
        Some(k) => all.remove(k),
    }
}

/// The cells of a cache by their keys.
#[verifier::reject_recursive_types(K)]
#[verifier::reject_recursive_types(V)]
pub struct CacheInner<K, V, E> {
    cache: HashMap<K, Arc<OnceCell<V>>>,
    eviction_strategy: E,
}

impl<K: Eq + Hash + Copy, V, E: EvictionStrategy<K>> View for CacheInner<K, V, E> {
    type V = Map<K, Arc<OnceCell<V>>>;

    closed spec fn view(&self) -> Map<K, Arc<OnceCell<V>>> {
        self.cache@
    }
}

impl<K: Eq + Hash + Copy, V, E: EvictionStrategy<K>> CacheInner<K, V, E> {
    /// The strategy that decides which cells leave.
    pub closed spec fn strategy(&self) -> E {
        self.eviction_strategy
    }

    /// The strategy is right about the keys.
    pub open spec fn wf(&self) -> bool {
        &&& E::valid(self.strategy()@)
        &&& E::keys(self.strategy()@) == self@.dom()
    }

    /// Starts without cells.
    pub fn new(eviction_strategy: E) -> (r: Self)
        requires
            obeys_key_model::<K>(),
            E::valid(eviction_strategy@),
            E::keys(eviction_strategy@) == Set::<K>::empty(),
        ensures
            r.wf(),
            r@ == Map::<K, Arc<OnceCell<V>>>::empty(),
            r.strategy() == eviction_strategy,
    {
        let capacity: usize = eviction_strategy.initial_capacity().saturating_add(1);
        let r = CacheInner { cache: HashMap::with_capacity(capacity), eviction_strategy };
        assert(r@.dom() =~= Set::<K>::empty());
        r
    }

    /// The cell for `key`: the one that is there, or else the fresh one, for
    /// which another cell may have to leave.
    pub fn get_or_insert(&mut self, key: K, fresh: Arc<OnceCell<V>>) -> (r: Arc<OnceCell<V>>)
        requires
            obeys_key_model::<K>(),
            obeys_concrete_eq::<K>(),
            old(self).wf(),
        ensures
            final(self).wf(),
            ({
                let present = old(self)@.contains_key(key);
                let (after, evicted) = E::step(old(self).strategy()@, key, present);
                &&& final(self).strategy()@ == after
                &&& final(self)@ == cells_used(old(self)@, key, fresh, evicted)
                &&& r == if present {
                    old(self)@[key]
                } else {
                    fresh
                }
            }),
    {
        proof {
            E::step_keeps(self.strategy()@, key);
        }
        let present = self.cache.contains_key(&key);
        let evicted = self.eviction_strategy.insert(key, present);
        if let Some(evict) = evicted {
            self.cache.remove(&evict);
        }
        let r = match self.cache.get(&key) {
            Some(cell) => cell.clone(),
            None => {
                self.cache.insert(key, fresh.clone());
                fresh
            },
        };
        proof {
            assert(self@.dom() =~= E::keys(self.strategy()@));
            assert(self@ =~= cells_used(old(self)@, key, fresh, evicted));
        }
        r
    }

    /// The cell for `key`: the one that is there, or else one that
    /// [`OnceCell::new`] has made, for which another cell may have to leave.
    pub fn get(&mut self, key: K) -> (r: Arc<OnceCell<V>>)
        requires
            obeys_key_model::<K>(),
            obeys_concrete_eq::<K>(),
            old(self).wf(),
        ensures
            final(self).wf(),
            ({
                let present = old(self)@.contains_key(key);
                let (after, evicted) = E::step(old(self).strategy()@, key, present);
                &&& final(self).strategy()@ == after
                &&& final(self)@ == cells_used(old(self)@, key, r, evicted)
                &&& if present {
                    r == old(self)@[key]
                } else {
                    call_ensures(OnceCell::<V>::new, (), *r)
                }
            }),
    {
        self.get_or_insert(key, Arc::new(OnceCell::new()))
    }
}

/// Turns the outcome of an initialisation that may find nothing into one that
/// leaves the cell empty then.
pub fn found_or_error<V, F>(found: Result<Option<V>, F>) -> (r: Result<V, Option<F>>)
    ensures
        r == match found {
            Ok(Some(v)) => Ok(v),
            Ok(None) => Err(None),
            Err(e) => Err(Some(e)),
        },
{
    match found {
        Ok(Some(v)) => Ok(v),
        Ok(None) => Err(None),
        Err(e) => Err(Some(e)),
    }
}

/// Turns such an outcome back.
pub fn error_or_found<V, F>(outcome: Result<V, Option<F>>) -> (r: Result<Option<V>, F>)
    ensures
        r == match outcome {
            Ok(v) => Ok(Some(v)),
            Err(None) => Ok(None),
            Err(Some(e)) => Err(e),
        },
{
    match outcome {
        Ok(v) => Ok(Some(v)),
        Err(None) => Ok(None),
        Err(Some(e)) => Err(e),
    }
}

/// Keys that are used again stay longer: the key that leaves is the one whose
/// last use lies back furthest, and the key in use never leaves.
pub proof fn law_least_recently_used_leaves<K>(keys: Seq<K>, capacity: nat, key: K)
    requires
        0 < capacity,
        keys.no_duplicates(),
        keys.len() == capacity,
        !keys.contains(key),
    ensures
        lru_insert(keys, capacity, key, false).1 == Some(keys.last()),
        lru_insert(keys, capacity, key, false).0 == seq![key] + keys.drop_last(),
        keys.last() != key,
{
    let all = seq![key] + keys;
    assert(all.drop_last() =~= seq![key] + keys.drop_last());
    assert(keys.contains(keys.last()));
}

/// The keys after several uses, one after the other.
pub open spec fn used_in_turn<K>(keys: Seq<K>, capacity: nat, uses: Seq<K>) -> Seq<K>
    decreases uses.len(),
{
    if uses.len() == 0 {
        keys
    } else {
        let before = used_in_turn(keys, capacity, uses.drop_last());
        lru_insert(before, capacity, uses.last(), before.contains(uses.last())).0
    }
}

/// However keys are used, there are never more of them than the capacity
/// allows, and none occurs twice.
pub proof fn law_keys_within_capacity<K>(keys: Seq<K>, capacity: nat, uses: Seq<K>)
    requires
        0 < capacity,
        keys.no_duplicates(),
        keys.len() <= capacity,
    ensures
        used_in_turn(keys, capacity, uses).len() <= capacity,
        used_in_turn(keys, capacity, uses).no_duplicates(),
    decreases uses.len(),
{
    if uses.len() > 0 {
        law_keys_within_capacity(keys, capacity, uses.drop_last());
        let before = used_in_turn(keys, capacity, uses.drop_last());
        lemma_lru_insert(before, capacity, uses.last(), before.contains(uses.last()));
    }
}

/// Where a key stands that was in front before the uses.
proof fn lemma_moves_back<K>(keys: Seq<K>, capacity: nat, uses: Seq<K>) -> (k: int)
    requires
        keys.no_duplicates(),
        0 < keys.len() <= capacity,
        uses.len() < capacity,
    ensures
        0 <= k <= uses.len(),
        k < used_in_turn(keys, capacity, uses).len(),
        used_in_turn(keys, capacity, uses)[k] == keys[0],
    decreases uses.len(),
{
    if uses.len() == 0 {
        0
    } else {
        let before = used_in_turn(keys, capacity, uses.drop_last());
        let key = uses.last();
        let j = lemma_moves_back(keys, capacity, uses.drop_last());
        law_keys_within_capacity(keys, capacity, uses.drop_last());
        lemma_lru_insert(before, capacity, key, before.contains(key));
        let after = used_in_turn(keys, capacity, uses);
        if key == keys[0] {
            0
        } else if before.contains(key) {
            before.index_of_first_ensures(key);
            let i = before.index_of_first(key)->0;
            let k = if i < j {
                j
            } else {
                j + 1
            };
            assert(after[k] == before.remove(i)[k - 1]);
            k
        } else {
            assert(after[j + 1] == before[j]);
            j + 1
        }
    }
}

/// A key that was just used stays as long as there are fewer further uses than
/// there is room for keys.
pub proof fn law_used_key_survives<K>(keys: Seq<K>, capacity: nat, used: K, uses: Seq<K>)
    requires
        keys.no_duplicates(),
        keys.len() <= capacity,
        uses.len() < capacity,
    ensures
        ({
            let first = lru_insert(keys, capacity, used, keys.contains(used)).0;
            used_in_turn(first, capacity, uses).contains(used)
        }),
{
    lemma_lru_insert(keys, capacity, used, keys.contains(used));
    let first = lru_insert(keys, capacity, used, keys.contains(used)).0;
    let k = lemma_moves_back(first, capacity, uses);
    assert(used_in_turn(first, capacity, uses)[k] == used);
}

/// The state of a strategy and the cells after several uses, one after the
/// other, each with the cell that its key gets if it is absent.
pub open spec fn cells_in_turn<K: Eq, C, E: EvictionStrategy<K>>(
    state: E::V,
    cells: Map<K, C>,
    uses: Seq<(K, C)>,
) -> (E::V, Map<K, C>)
    decreases uses.len(),
{
    if uses.len() == 0 {
        (state, cells)
    } else {
        let (before, held) = cells_in_turn::<K, C, E>(state, cells, uses.drop_last());
        let (key, fresh) = uses.last();
        let (after, evicted) = E::step(before, key, held.contains_key(key));
        (after, cells_used(held, key, fresh, evicted))
    }
}

/// A key keeps its cell until it leaves: all uses of the key up to then give
/// the same cell, whichever cells they bring along.
pub proof fn law_key_keeps_its_cell<K: Eq, C, E: EvictionStrategy<K>>(
    state: E::V,
    cells: Map<K, C>,
    uses: Seq<(K, C)>,
    key: K,
)
    requires
        forall|i: int|
            0 <= i <= uses.len() ==> (#[trigger] cells_in_turn::<K, C, E>(
                state,
                cells,
                uses.take(i),
            )).1.contains_key(key),
    ensures
        cells_in_turn::<K, C, E>(state, cells, uses).1.contains_key(key),
        cells_in_turn::<K, C, E>(state, cells, uses).1[key] == cells[key],
    decreases uses.len(),
{
    assert(uses.take(uses.len() as int) =~= uses);
    if uses.len() > 0 {
        let less = uses.drop_last();
        assert forall|i: int| 0 <= i <= less.len() implies (#[trigger] cells_in_turn::<K, C, E>(
            state,
            cells,
            less.take(i),
        )).1.contains_key(key) by {
            assert(less.take(i) =~= uses.take(i));
        }
        law_key_keeps_its_cell::<K, C, E>(state, cells, less, key);
    }
}

/// A key that left, or was never there, gets the fresh cell, never one that
/// another key had.
pub proof fn law_absent_key_gets_fresh_cell<K: Eq, C, E: EvictionStrategy<K>>(
    state: E::V,
    cells: Map<K, C>,
    key: K,
    fresh: C,
)
    requires
        E::valid(state),
        E::keys(state) == cells.dom(),
        !cells.contains_key(key),
    ensures
        ({
            let after = cells_in_turn::<K, C, E>(state, cells, seq![(key, fresh)]).1;
            after.contains_key(key) && after[key] == fresh
        }),
{
    E::step_keeps(state, key);
    assert(seq![(key, fresh)].drop_last() =~= Seq::<(K, C)>::empty());
    assert(cells_in_turn::<K, C, E>(state, cells, Seq::<(K, C)>::empty()) == (state, cells));
}

/// A cache never holds more cells than the capacity of its strategy allows.
pub proof fn law_cache_within_capacity<K: Eq + Hash + Copy, V>(cache: CacheInner<K, V, Lru<K>>)
    requires
        cache.wf(),
    ensures
        cache@.dom().finite(),
        cache@.dom().len() <= cache.strategy()@.capacity,
{
    let keys = cache.strategy()@.keys;
    keys.unique_seq_to_set();
}

/// A key that is used comes to the front, and the others keep their order. Only
/// where a new key finds no room, one leaves: the last in the order, whose use
/// lies back furthest.
pub proof fn law_used_key_comes_first<K: Eq>(
    l: &mut Lru<K>,
    key: K,
    is_present: bool,
    evicted: Option<K>,
    i: int,
)
    requires
        obeys_concrete_eq::<K>(),
        0 < l@.capacity,
        l@.keys.no_duplicates(),
        l@.keys.len() <= l@.capacity,
        is_present == l@.keys.contains(key),
        is_present ==> 0 <= i < l@.keys.len() && l@.keys[i] == key,
        call_ensures(Lru::<K>::insert, (l, key, is_present), evicted),
    ensures
        final(l)@.capacity == old(l)@.capacity,
        is_present ==> evicted is None && final(l)@.keys == seq![key] + old(l)@.keys.take(i)
            + old(l)@.keys.skip(i + 1),
        !is_present && old(l)@.keys.len() < old(l)@.capacity ==> evicted is None && final(l)@.keys
            == seq![key] + old(l)@.keys,
        !is_present && old(l)@.keys.len() == old(l)@.capacity ==> evicted == Some(
            old(l)@.keys.last(),
        ) && final(l)@.keys == seq![key] + old(l)@.keys.drop_last(),
{
    let keys = old(l)@.keys;
    assert((final(l)@, evicted) == <Lru<K> as EvictionStrategy<K>>::step(old(l)@, key, is_present));
    if is_present {
        keys.index_of_first_ensures(key);
        assert(keys.index_of_first(key)->0 == i);
        assert(seq![key] + keys.remove(i) =~= seq![key] + keys.take(i) + keys.skip(i + 1));
    } else if keys.len() == old(l)@.capacity {
        let all = seq![key] + keys;
        assert(all.drop_last() =~= seq![key] + keys.drop_last());
    }
}

/// A strategy starts without keys, with the room that it is given.
pub proof fn law_strategy_starts_empty<K: Eq>(capacity: usize, l: Lru<K>, n: usize)
    requires
        0 < capacity < usize::MAX,
        call_ensures(Lru::<K>::new, (capacity,), l),
        call_ensures(Lru::<K>::initial_capacity, (&l,), n),
    ensures
        l@.keys.len() == 0,
        l@.capacity == capacity,
        n == capacity,
{
}

/// A key that is in the cache gives its cell, any other the fresh one, which is
/// its cell from then on. The cells of other keys stay, except that of the key
/// that leaves for a new one when the cache is full.
pub proof fn law_cells_stay_with_their_keys<K: Eq + Hash + Copy, V>(
    c: &mut CacheInner<K, V, Lru<K>>,
    key: K,
    fresh: Arc<OnceCell<V>>,
    r: Arc<OnceCell<V>>,
    other: K,
)
    requires
        obeys_key_model::<K>(),
        obeys_concrete_eq::<K>(),
        c.wf(),
        call_ensures(CacheInner::<K, V, Lru<K>>::get_or_insert, (c, key, fresh), r),
    ensures
        final(c).wf(),
        r == (if old(c)@.contains_key(key) {
            old(c)@[key]
        } else {
            fresh
        }),
        final(c)@.contains_key(key),
        final(c)@[key] == r,
        other != key && final(c)@.contains_key(other) ==> old(c)@.contains_key(other)
            && final(c)@[other] == old(c)@[other],
        other != key && old(c)@.contains_key(other) && !final(c)@.contains_key(other) ==> {
            &&& !old(c)@.contains_key(key)
            &&& old(c).strategy()@.keys.len() == old(c).strategy()@.capacity
            &&& other == old(c).strategy()@.keys.last()
        },
        final(c).strategy()@.keys[0] == key,
{
    let state = old(c).strategy()@;
    let present = old(c)@.contains_key(key);
    assert(state.keys.to_set().contains(key) == state.keys.contains(key));
    assert(old(c)@.dom().contains(key) == present);
    lemma_lru_insert(state.keys, state.capacity, key, present);
    let (after, evicted) = <Lru<K> as EvictionStrategy<K>>::step(state, key, present);
    assert(final(c).strategy()@ == after);
    if !present && state.keys.len() == state.capacity {
        let all = seq![key] + state.keys;
        assert(all.last() == state.keys.last());
    }
}

/// Asking for a cell gives the one that is there, and it stays. Asking again
/// gives the same one.
pub proof fn law_asking_again_gives_the_same_cell<K: Eq + Hash + Copy, V>(
    c: &mut CacheInner<K, V, Lru<K>>,
    key: K,
    r: Arc<OnceCell<V>>,
    d: &mut CacheInner<K, V, Lru<K>>,
    again: Arc<OnceCell<V>>,
)
    requires
        obeys_key_model::<K>(),
        obeys_concrete_eq::<K>(),
        c.wf(),
        call_ensures(CacheInner::<K, V, Lru<K>>::get, (c, key), r),
        *d == *final(c),
        call_ensures(CacheInner::<K, V, Lru<K>>::get, (d, key), again),
    ensures
        again == r,
        old(c)@.contains_key(key) ==> r == old(c)@[key],
        final(d)@ == final(c)@,
{
    let state = old(c).strategy()@;
    let present = old(c)@.contains_key(key);
    assert(old(c)@.dom().contains(key) == present);
    lemma_lru_insert(state.keys, state.capacity, key, present);
    let (after, evicted) = <Lru<K> as EvictionStrategy<K>>::step(state, key, present);
    assert(final(c)@ == cells_used(old(c)@, key, r, evicted));
    assert(final(c)@.contains_key(key));
    let (last, none) = <Lru<K> as EvictionStrategy<K>>::step(after, key, true);
    assert(none is None);
    assert(final(d)@ == cells_used(final(c)@, key, again, none));
}

/// A cache starts without cells.
pub proof fn law_cache_starts_empty<K: Eq + Hash + Copy, V>(
    strategy: Lru<K>,
    c: CacheInner<K, V, Lru<K>>,
)
    requires
        obeys_key_model::<K>(),
        0 < strategy@.capacity,
        strategy@.keys.len() == 0,
        call_ensures(CacheInner::<K, V, Lru<K>>::new, (strategy,), c),
    ensures
        c.wf(),
        c@.dom() == Set::<K>::empty(),
        c.strategy() == strategy,
{
}

/// Turning the outcome of an initialisation into one that leaves the cell empty
/// where nothing was found can be undone.
pub proof fn law_outcomes_turn_back<V, F>(
    found: Result<Option<V>, F>,
    outcome: Result<V, Option<F>>,
    back: Result<Option<V>, F>,
)
    requires
        call_ensures(found_or_error::<V, F>, (found,), outcome),
        call_ensures(error_or_found::<V, F>, (outcome,), back),
    ensures
        back == found,
        outcome is Ok <==> found is Ok && found->Ok_0 is Some,
        outcome is Ok ==> found == Ok::<Option<V>, F>(Some(outcome->Ok_0)),
{
}

} // verus!
