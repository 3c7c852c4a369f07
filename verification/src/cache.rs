use vstd::prelude::*;

verus! {

/// The cache `LruCache` of the crate `lru`. Nothing is known of what
/// is inside it but what the functions below say.
#[verifier::external_type_specification]
#[verifier::external_body]
#[verifier::reject_recursive_types(K)]
#[verifier::reject_recursive_types(V)]
#[verifier::reject_recursive_types(S)]
pub struct ExLruCache<K, V, S>(lru::LruCache<K, V, S>);

/// The hasher that an `LruCache` uses where none is given.
#[verifier::external_type_specification]
#[verifier::external_body]
pub struct ExDefaultHasher(lru::DefaultHasher);

/// A cache of the outside crate that holds a number for each key.
pub type Index = lru::LruCache<Vec<String>, usize>;

/// The entries of an index: the number that it holds for each key.
pub uninterp spec fn index_entries(index: lru::LruCache<Vec<String>, usize>) -> Map<
    Seq<Seq<char>>,
    usize,
>;

/// The keys of an index, from the one that was used last to the one
/// that was not used for the longest time.
pub uninterp spec fn index_order(index: lru::LruCache<Vec<String>, usize>) -> Seq<Seq<Seq<char>>>;

/// The number of entries that an index was made for.
pub uninterp spec fn index_limit(index: lru::LruCache<Vec<String>, usize>) -> nat;

/// `order` without the key `key`.
pub open spec fn without(order: Seq<Seq<Seq<char>>>, key: Seq<Seq<char>>) -> Seq<Seq<Seq<char>>>
    decreases order.len(),
{
    if order.len() == 0 {
        order
    } else if order.last() == key {
        without(order.drop_last(), key)
    } else {
        without(order.drop_last(), key).push(order.last())
    }
}

/// Taking a key out of keys that all differ leaves keys that all
/// differ: the key is gone, the others are there as before and no
/// further from the front, and one key fewer is left if the key was
/// there.
pub proof fn lemma_without(order: Seq<Seq<Seq<char>>>, key: Seq<Seq<char>>)
    requires
        order.no_duplicates(),
    ensures
        without(order, key).no_duplicates(),
        !without(order, key).contains(key),
        forall|j: Seq<Seq<char>>|
            j != key ==> (#[trigger] without(order, key).contains(j) <==> order.contains(j)),
        forall|i: int|
            0 <= i < order.len() && order[i] != key ==> exists|h: int|
                0 <= h <= i && h < without(order, key).len() && #[trigger] without(order, key)[h]
                    == order[i],
        order.contains(key) ==> without(order, key).len() + 1 == order.len(),
        !order.contains(key) ==> without(order, key) == order,
    decreases order.len(),
{
    if order.len() > 0 {
        let front = order.drop_last();
        let last = order.last();
        let rest = without(front, key);
        let all = without(order, key);
        assert(front.no_duplicates());
        lemma_without(front, key);
        assert forall|j: Seq<Seq<char>>| order.contains(j) <==> front.contains(j) || j == last by {
            if order.contains(j) {
                let i = choose|i: int| 0 <= i < order.len() && order[i] == j;
                if i < front.len() {
                    assert(front[i] == j);
                }
            }
            if front.contains(j) {
                let i = choose|i: int| 0 <= i < front.len() && front[i] == j;
                assert(order[i] == j);
            }
            if j == last {
                assert(order[order.len() - 1] == j);
            }
        }
        assert(!front.contains(last)) by {
            if front.contains(last) {
                let i = choose|i: int| 0 <= i < front.len() && front[i] == last;
                assert(order[i] == order[order.len() - 1]);
            }
        }
        if last == key {
            assert(all == rest);
            assert forall|i: int| 0 <= i < order.len() && order[i] != key implies exists|h: int|
                0 <= h <= i && h < all.len() && #[trigger] all[h] == order[i] by {
                assert(front[i] == order[i]);
                let h = choose|h: int| 0 <= h <= i && h < rest.len() && #[trigger] rest[h] == front[i];
                assert(all[h] == order[i]);
            }
        } else {
            assert(all == rest.push(last));
            assert forall|j: Seq<Seq<char>>| all.contains(j) <==> rest.contains(j) || j == last by {
                if all.contains(j) {
                    let i = choose|i: int| 0 <= i < all.len() && all[i] == j;
                    if i < rest.len() {
                        assert(rest[i] == j);
                    }
                }
                if rest.contains(j) {
                    let i = choose|i: int| 0 <= i < rest.len() && rest[i] == j;
                    assert(all[i] == j);
                }
                if j == last {
                    assert(all[all.len() - 1] == j);
                }
            }
            assert(!rest.contains(last));
            assert(all.no_duplicates()) by {
                assert forall|a: int, b: int| 0 <= a < all.len() && 0 <= b < all.len() && a
                    != b implies all[a] != all[b] by {
                    if a < rest.len() && b < rest.len() {
                        assert(rest[a] != rest[b]);
                    } else if a < rest.len() {
                        assert(rest.contains(rest[a]));
                    } else if b < rest.len() {
                        assert(rest.contains(rest[b]));
                    }
                }
            }
            assert forall|i: int| 0 <= i < order.len() && order[i] != key implies exists|h: int|
                0 <= h <= i && h < all.len() && #[trigger] all[h] == order[i] by {
                if i < front.len() {
                    assert(front[i] == order[i]);
                    let h = choose|h: int|
                        0 <= h <= i && h < rest.len() && #[trigger] rest[h] == front[i];
                    assert(all[h] == order[i]);
                } else {
                    assert(rest.len() <= front.len()) by {
                        lemma_without_len(front, key);
                    }
                    assert(all[rest.len() as int] == order[i]);
                }
            }
            if !order.contains(key) {
                assert(all =~= order);
            }
        }
    }
}

/// Taking a key out leaves no more keys than there were.
pub proof fn lemma_without_len(order: Seq<Seq<Seq<char>>>, key: Seq<Seq<char>>)
    ensures
        without(order, key).len() <= order.len(),
    decreases order.len(),
{
    if order.len() > 0 {
        lemma_without_len(order.drop_last(), key);
    }
}

/// Calls `LruCache::new`, which makes an empty cache for at most
/// `limit` entries. The limit must not be 0.
#[verifier::external_body]
fn index_new(limit: usize) -> (r: Index)
    requires
        limit > 0,
    ensures
        (index_entries(r) == Map::<Seq<Seq<char>>, usize>::empty()),
        index_order(r) == Seq::<Seq<Seq<char>>>::empty(),
        index_limit(r) == limit,
{
    lru::LruCache::new(std::num::NonZeroUsize::new(limit).unwrap())
}

/// Calls `LruCache::len`, which gives the number of entries.
#[verifier::external_body]
fn index_len(index: &Index) -> (r: usize)
    ensures
        r == index_entries(*index).len(),
{
    index.len()
}

/// Calls `LruCache::get`, which gives the number held for `key`, if
/// there is one, and then counts `key` as the key that was used last.
/// The entries stay as they are.
#[verifier::external_body]
fn index_get(index: &mut Index, key: &Vec<String>) -> (r: Option<usize>)
    ensures
        index_entries(*final(index)) == index_entries(*old(index)),
        index_limit(*final(index)) == index_limit(*old(index)),
        match r {
            Some(slot) => {
                &&& index_entries(*old(index)).contains_key(key.deep_view())
                &&& slot == index_entries(*old(index))[key.deep_view()]
                &&& index_order(*final(index)) == seq![key.deep_view()] + without(
                    index_order(*old(index)),
                    key.deep_view(),
                )
            },
            None => {
                &&& !index_entries(*old(index)).contains_key(key.deep_view())
                &&& index_order(*final(index)) == index_order(*old(index))
            },
        },
{
    index.get(key).copied()
}

/// Calls `LruCache::pop_lru`, which removes the entry of the key that
/// was not used for the longest time and gives it back, or gives
/// nothing where the cache is empty.
#[verifier::external_body]
fn index_pop_lru(index: &mut Index) -> (r: Option<(Vec<String>, usize)>)
    ensures
        index_limit(*final(index)) == index_limit(*old(index)),
        match r {
            Some((key, slot)) => {
                &&& index_order(*old(index)).len() > 0
                &&& key.deep_view() == index_order(*old(index)).last()
                &&& index_entries(*old(index)).contains_key(key.deep_view())
                &&& slot == index_entries(*old(index))[key.deep_view()]
                &&& index_entries(*final(index)) == index_entries(*old(index)).remove(
                    key.deep_view(),
                )
                &&& index_order(*final(index)) == index_order(*old(index)).drop_last()
            },
            None => {
                &&& index_entries(*old(index)).len() == 0
                &&& index_entries(*final(index)) == index_entries(*old(index))
                &&& index_order(*final(index)) == index_order(*old(index))
            },
        },
{
    index.pop_lru()
}

/// Calls `LruCache::put` for a key that the cache does not hold, while
/// the cache is not full: the entry is added, and its key counts as
/// the one that was used last.
#[verifier::external_body]
fn index_put(index: &mut Index, key: Vec<String>, slot: usize)
    requires
        !index_entries(*old(index)).contains_key(key.deep_view()),
        index_entries(*old(index)).len() < index_limit(*old(index)),
    ensures
        index_limit(*final(index)) == index_limit(*old(index)),
        index_entries(*final(index)) == index_entries(*old(index)).insert(key.deep_view(), slot),
        index_order(*final(index)) == seq![key.deep_view()] + index_order(*old(index)),
{
    index.put(key, slot);
}

/// A copy of a key.
fn clone_key(key: &Vec<String>) -> (r: Vec<String>)
    ensures
        r.deep_view() == key.deep_view(),
{
    let mut out: Vec<String> = Vec::new();
    let mut i: usize = 0;
    while i < key.len()
        invariant
            i <= key.len(),
            out@.len() == i,
            forall|j: int| 0 <= j < i ==> out@[j]@ == key@[j]@,
        decreases key.len() - i,
    {
        out.push(key[i].clone());
        i += 1;
    }
    assert(out.deep_view() =~= key.deep_view());
    out
}

/// A cache of bounded size that forgets the value that was not used
/// for the longest time. A key is a list of texts.
pub struct LruCacher<V> {
    index: Index,
    slots: Vec<V>,
    limit: usize,
}

impl<V> LruCacher<V> {
    /// Whether the cache is in order: it holds no more values than it
    /// was made for, each key has a slot of its own, and the keys in
    /// the order of their use are the keys that have a value, each
    /// once.
    pub closed spec fn wf(self) -> bool {
        let entries = index_entries(self.index);
        let order = index_order(self.index);
        &&& entries.dom().finite()
        &&& entries.len() == self.slots@.len()
        &&& entries.len() <= index_limit(self.index)
        &&& index_limit(self.index) == self.limit
        &&& self.limit > 0
        &&& order.no_duplicates()
        &&& order.len() == entries.len()
        &&& forall|k: Seq<Seq<char>>| #[trigger] entries.contains_key(k) <==> order.contains(k)
        &&& forall|k: Seq<Seq<char>>| #[trigger]
            entries.contains_key(k) ==> entries[k] < self.slots@.len()
        &&& forall|j: Seq<Seq<char>>, k: Seq<Seq<char>>|
            #![trigger entries[j], entries[k]]
            entries.contains_key(j) && entries.contains_key(k) && j != k ==> entries[j]
                != entries[k]
    }

    /// The values that the cache holds, by their keys.
    pub closed spec fn contents(self) -> Map<Seq<Seq<char>>, V> {
        Map::new(
            |k: Seq<Seq<char>>| index_entries(self.index).contains_key(k),
            |k: Seq<Seq<char>>| self.slots@[index_entries(self.index)[k] as int],
        )
    }

    /// The keys, from the one that was used last to the one that was
    /// not used for the longest time.
    pub closed spec fn recency(self) -> Seq<Seq<Seq<char>>> {
        index_order(self.index)
    }

    /// The number of values that the cache can hold.
    pub closed spec fn capacity(self) -> nat {
        index_limit(self.index)
    }

    /// The number of values that the cache holds.
    pub closed spec fn size(self) -> nat {
        index_entries(self.index).len()
    }

    /// How many keys were used after `key` was used last.
    pub open spec fn place(self, key: Seq<Seq<char>>) -> int {
        self.recency().index_of(key)
    }

    /// Whether `after` is this cache after the key `key` was used. The
    /// key then has a value and counts as the key that was used last.
    /// Where it had a value before, the values are as they were. Where
    /// it had none, its value is added; if the cache was full, the
    /// value of the key that was not used for the longest time is
    /// dropped for it.
    pub open spec fn used(self, after: Self, key: Seq<Seq<char>>) -> bool {
        &&& after.capacity() == self.capacity()
        &&& after.contents().contains_key(key)
        &&& if self.contents().contains_key(key) {
            &&& after.contents() == self.contents()
            &&& after.recency() == seq![key] + without(self.recency(), key)
            &&& after.size() == self.size()
        } else if self.size() < self.capacity() {
            &&& after.contents() == self.contents().insert(key, after.contents()[key])
            &&& after.recency() == seq![key] + self.recency()
            &&& after.size() == self.size() + 1
        } else {
            &&& self.recency().len() > 0
            &&& after.contents() == self.contents().remove(self.recency().last()).insert(
                key,
                after.contents()[key],
            )
            &&& after.recency() == seq![key] + self.recency().drop_last()
            &&& after.size() == self.size()
        }
    }

    /// What holds of every cache that is in order.
    pub proof fn lemma_in_order(self)
        requires
            self.wf(),
        ensures
            0 < self.capacity(),
            self.size() <= self.capacity(),
            self.recency().len() == self.size(),
            self.recency().no_duplicates(),
            forall|k: Seq<Seq<char>>| #[trigger]
                self.contents().contains_key(k) <==> self.recency().contains(k),
    {
    }

    /// A value that is kept stays kept, and stays the same value, when
    /// a key is used, unless the cache is full and nothing was left
    /// unused for longer than the value; and its key is then at most
    /// one place further from the key that was used last.
    pub proof fn lemma_use_keeps(self, after: Self, key: Seq<Seq<char>>, kept: Seq<Seq<char>>)
        requires
            self.wf(),
            self.used(after, key),
            self.contents().contains_key(kept),
            self.place(kept) + 1 < self.capacity(),
        ensures
            after.contents().contains_key(kept),
            after.contents()[kept] == self.contents()[kept],
            after.recency().no_duplicates(),
            0 <= self.place(kept) < self.recency().len(),
            0 <= after.place(kept) <= self.place(kept) + 1,
            after.place(kept) < after.recency().len(),
            kept == key ==> after.place(kept) == 0,
    {
        let order = self.recency();
        assert(order.contains(kept));
        let p = self.place(kept);
        assert(0 <= p < order.len() && order[p] == kept);
        if self.contents().contains_key(key) {
            lemma_without(order, key);
            let rest = without(order, key);
            lemma_front(key, rest);
            let all = after.recency();
            assert(all == seq![key] + rest);
            if kept == key {
                assert(all[0] == kept);
                lemma_place(all, kept, 0);
            } else {
                let h = choose|h: int| 0 <= h <= p && h < rest.len() && #[trigger] rest[h] == order[p];
                assert(all[h + 1] == rest[h]);
                lemma_place(all, kept, h + 1);
            }
        } else if self.size() < self.capacity() {
            lemma_front(key, order);
            let all = after.recency();
            assert(all[p + 1] == order[p]);
            lemma_place(all, kept, p + 1);
        } else {
            lemma_rest(order);
            let front = order.drop_last();
            assert(front[p] == order[p]);
            assert(front.contains(kept));
            lemma_front(key, front);
            let all = after.recency();
            assert(all[p + 1] == front[p]);
            lemma_place(all, kept, p + 1);
        }
    }

    /// The key that was used is the key that was used last.
    pub proof fn lemma_used_last(self, after: Self, key: Seq<Seq<char>>)
        requires
            self.wf(),
            self.used(after, key),
        ensures
            after.recency().len() > 0,
            after.recency()[0] == key,
            after.place(key) == 0,
    {
        let order = self.recency();
        if self.contents().contains_key(key) {
            lemma_without(order, key);
            lemma_front(key, without(order, key));
        } else if self.size() < self.capacity() {
            lemma_front(key, order);
        } else {
            lemma_rest(order);
            assert(!order.drop_last().contains(key)) by {
                if order.drop_last().contains(key) {
                    assert(order.contains(key));
                }
            }
            lemma_front(key, order.drop_last());
        }
        lemma_place(after.recency(), key, 0);
    }

    /// A key that is used again after fewer uses of other keys than
    /// the cache has room for still has the value that it had after
    /// its first use. `states` holds the cache before and after each
    /// use, and `keys` the key of each use; the first and the last use
    /// are of the same key.
    pub proof fn lemma_used_again(states: Seq<Self>, keys: Seq<Seq<Seq<char>>>)
        requires
            states.len() == keys.len() + 1,
            keys.len() >= 2,
            keys[0] == keys.last(),
            forall|i: int| 0 <= i < states.len() ==> (#[trigger] states[i]).wf(),
            forall|i: int| 0 <= i < keys.len() ==> (#[trigger] states[i]).used(states[i + 1], keys[i]),
            keys.len() - 2 < states[0].capacity(),
        ensures
            states[keys.len() - 1].contents().contains_key(keys[0]),
            states.last().contents().contains_key(keys[0]),
            states.last().contents()[keys[0]] == states[1].contents()[keys[0]],
    {
        let key = keys[0];
        let between = (keys.len() - 2) as nat;
        let later = states.subrange(1, keys.len() as int);
        let uses = keys.subrange(1, keys.len() - 1);
        assert(states[0].used(states[0int + 1], keys[0]));
        states[0].lemma_used_last(states[1], key);
        assert forall|i: int| 0 <= i < uses.len() implies (#[trigger] later[i]).used(
            later[i + 1],
            uses[i],
        ) by {
            assert(states[i + 1].used(states[i + 1 + 1], keys[i + 1]));
        }
        Self::lemma_kept_through(later, uses, key, between);
        let before = states[keys.len() - 1];
        assert(later[between as int] == before);
        assert(before.used(states[keys.len() - 1 + 1], keys[keys.len() - 1]));
    }

    /// A value that was used stays kept, and stays the same value,
    /// while fewer keys are used after it than the cache has room for.
    /// `states` holds the cache before and after each use, and `keys`
    /// the key of each use.
    pub proof fn lemma_kept_through(
        states: Seq<Self>,
        keys: Seq<Seq<Seq<char>>>,
        kept: Seq<Seq<char>>,
        upto: nat,
    )
        requires
            states.len() == keys.len() + 1,
            upto <= keys.len(),
            forall|i: int| 0 <= i < states.len() ==> (#[trigger] states[i]).wf(),
            forall|i: int| 0 <= i < keys.len() ==> (#[trigger] states[i]).used(states[i + 1], keys[i]),
            states[0].contents().contains_key(kept),
            states[0].place(kept) + upto < states[0].capacity(),
        ensures
            states[upto as int].contents().contains_key(kept),
            states[upto as int].contents()[kept] == states[0].contents()[kept],
            states[upto as int].place(kept) <= states[0].place(kept) + upto,
            states[upto as int].capacity() == states[0].capacity(),
        decreases upto,
    {
        if upto > 0 {
            Self::lemma_kept_through(states, keys, kept, (upto - 1) as nat);
            let before = states[upto - 1];
            assert(before.used(states[upto - 1 + 1], keys[upto - 1]));
            before.lemma_use_keeps(states[upto as int], keys[upto - 1], kept);
        }
    }

    /// An empty cache for at most `cache_size` values.
    pub fn new(cache_size: usize) -> (r: Self)
        requires
            cache_size > 0,
        ensures
            r.wf(),
            r.capacity() == cache_size,
            r.size() == 0,
            r.contents() == Map::<Seq<Seq<char>>, V>::empty(),
            r.recency() == Seq::<Seq<Seq<char>>>::empty(),
    {
        let r = LruCacher { index: index_new(cache_size), slots: Vec::new(), limit: cache_size };
        assert(r.contents() =~= Map::<Seq<Seq<char>>, V>::empty());
        r
    }
}

impl<V: Clone> LruCacher<V> {
    /// The value of `key`. Where the cache holds one, a copy of it is
    /// returned and `func` is not called: it need not even be fit to
    /// be called. Where it holds none, `func` is called, and a copy of
    /// what it returns is kept under `key`; if the cache was full, the
    /// value that was not used for the longest time makes room for it.
    /// Either way `key` then counts as the key that was used last.
    pub fn get<F: Fn() -> V>(&mut self, key: &Vec<String>, func: F) -> (r: V)
        requires
            old(self).wf(),
            !old(self).contents().contains_key(key.deep_view()) ==> func.requires(()),
        ensures
            final(self).wf(),
            old(self).used(*final(self), key.deep_view()),
            final(self).size() <= final(self).capacity(),
            old(self).contents().contains_key(key.deep_view()) ==> cloned(
                old(self).contents()[key.deep_view()],
                r,
            ),
            !old(self).contents().contains_key(key.deep_view()) ==> func.ensures((), r) && cloned(
                r,
                final(self).contents()[key.deep_view()],
            ),
    {
        let ghost before = *self;
        let ghost k = key.deep_view();
        match index_get(&mut self.index, key) {
            Some(slot) => {
                proof {
                    lemma_without(before.recency(), k);
                    let rest = without(before.recency(), k);
                    let order = self.recency();
                    assert(order == seq![k] + rest);
                    lemma_front(k, rest);
                    assert(self.contents() =~= before.contents());
                }
                self.slots[slot].clone()
            },
            None => {
                let computed = func();
                let stored = computed.clone();
                if index_len(&self.index) >= self.limit {
                    match index_pop_lru(&mut self.index) {
                        Some((evicted, slot)) => {
                            let ghost rest = index_order(self.index);
                            proof {
                                lemma_rest(before.recency());
                            }
                            self.slots.set(slot, stored);
                            index_put(&mut self.index, clone_key(key), slot);
                            proof {
                                lemma_front(k, rest);
                                assert(self.contents() =~= before.contents().remove(
                                    before.recency().last(),
                                ).insert(k, stored));
                            }
                        },
                        None => {
                            // A cache that is full is not empty.
                            assert(false);
                        },
                    }
                } else {
                    let slot = self.slots.len();
                    self.slots.push(stored);
                    index_put(&mut self.index, clone_key(key), slot);
                    proof {
                        lemma_front(k, before.recency());
                        assert(self.contents() =~= before.contents().insert(k, stored));
                    }
                }
                computed
            },
        }
    }
}

/// Keys that all differ, with one more key before them that is none of
/// them, all differ, and are the keys that were there and the one more.
pub proof fn lemma_front(key: Seq<Seq<char>>, rest: Seq<Seq<Seq<char>>>)
    requires
        rest.no_duplicates(),
        !rest.contains(key),
    ensures
        (seq![key] + rest).no_duplicates(),
        (seq![key] + rest).len() == rest.len() + 1,
        (seq![key] + rest)[0] == key,
        forall|j: Seq<Seq<char>>|
            #[trigger] (seq![key] + rest).contains(j) <==> rest.contains(j) || j == key,
        forall|i: int| 0 <= i < rest.len() ==> (seq![key] + rest)[i + 1] == #[trigger] rest[i],
{
    let all = seq![key] + rest;
    assert forall|j: Seq<Seq<char>>| all.contains(j) <==> rest.contains(j) || j == key by {
        if all.contains(j) {
            let i = choose|i: int| 0 <= i < all.len() && all[i] == j;
            if i > 0 {
                assert(rest[i - 1] == j);
            }
        }
        if rest.contains(j) {
            let i = choose|i: int| 0 <= i < rest.len() && rest[i] == j;
            assert(all[i + 1] == j);
        }
        if j == key {
            assert(all[0] == j);
        }
    }
    assert forall|a: int, b: int| 0 <= a < all.len() && 0 <= b < all.len() && a != b implies all[a]
        != all[b] by {
        if a > 0 && b > 0 {
            assert(rest[a - 1] != rest[b - 1]);
        } else if a > 0 {
            assert(rest.contains(rest[a - 1]));
        } else if b > 0 {
            assert(rest.contains(rest[b - 1]));
        }
    }
}

/// Among keys that all differ a key stands at one place only.
pub proof fn lemma_place(order: Seq<Seq<Seq<char>>>, key: Seq<Seq<char>>, i: int)
    requires
        order.no_duplicates(),
        0 <= i < order.len(),
        order[i] == key,
    ensures
        order.index_of(key) == i,
{
    let j = order.index_of(key);
    assert(0 <= j < order.len() && order[j] == key);
}

/// Keys that all differ, without the last of them, all differ; the
/// last is none of them, and the others are there as before.
pub proof fn lemma_rest(order: Seq<Seq<Seq<char>>>)
    requires
        order.no_duplicates(),
        order.len() > 0,
    ensures
        order.drop_last().no_duplicates(),
        !order.drop_last().contains(order.last()),
        forall|j: Seq<Seq<char>>|
            j != order.last() ==> (#[trigger] order.drop_last().contains(j) <==> order.contains(j)),
{
    let front = order.drop_last();
    assert forall|j: Seq<Seq<char>>| j != order.last() implies (#[trigger] front.contains(j)
        <==> order.contains(j)) by {
        if order.contains(j) {
            let i = choose|i: int| 0 <= i < order.len() && order[i] == j;
            assert(front[i] == j);
        }
        if front.contains(j) {
            let i = choose|i: int| 0 <= i < front.len() && front[i] == j;
            assert(order[i] == j);
        }
    }
    if front.contains(order.last()) {
        let i = choose|i: int| 0 <= i < front.len() && front[i] == order.last();
        assert(order[i] == order[order.len() - 1]);
    }
}

} // verus!
