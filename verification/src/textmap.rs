use vstd::prelude::*;
use vstd::string::*;

verus! {

/// Whether `a` comes before `b` in the order of texts, looking only at
/// the characters from index `from` on: at the first place where the
/// texts differ, `a` has ended or has the smaller character.
pub open spec fn precedes_from(a: Seq<char>, b: Seq<char>, from: int) -> bool
    decreases b.len() - from,
{
    if from < 0 || from >= b.len() {
        false
    } else if from >= a.len() {
        true
    } else if a[from] != b[from] {
        (a[from] as int) < (b[from] as int)
    } else {
        precedes_from(a, b, from + 1)
    }
}

/// Whether `a` comes before `b` in the order of texts.
pub open spec fn precedes(a: Seq<char>, b: Seq<char>) -> bool {
    precedes_from(a, b, 0)
}

/// Of two texts that agree before `from`, either one comes before the
/// other from there on, or they are the same text; never two of these.
pub proof fn lemma_precedes_trichotomy(a: Seq<char>, b: Seq<char>, from: int)
    requires
        0 <= from <= a.len(),
        from <= b.len(),
        a.subrange(0, from) =~= b.subrange(0, from),
    ensures
        precedes_from(a, b, from) || precedes_from(b, a, from) || a == b,
        !(precedes_from(a, b, from) && precedes_from(b, a, from)),
        a == b ==> !precedes_from(a, b, from),
    decreases a.len() - from,
{
    if from < a.len() && from < b.len() {
        if a[from] == b[from] {
            assert(a.subrange(0, from + 1) =~= a.subrange(0, from).push(a[from]));
            assert(b.subrange(0, from + 1) =~= b.subrange(0, from).push(b[from]));
            lemma_precedes_trichotomy(a, b, from + 1);
        } else {
            assert(a[from] as int != b[from] as int);
        }
    } else if from == a.len() && from == b.len() {
        assert(a =~= a.subrange(0, from));
        assert(b =~= b.subrange(0, from));
    }
}

/// The order of texts is transitive.
pub proof fn lemma_precedes_transitive(a: Seq<char>, b: Seq<char>, c: Seq<char>, from: int)
    requires
        0 <= from,
        precedes_from(a, b, from),
        precedes_from(b, c, from),
    ensures
        precedes_from(a, c, from),
    decreases c.len() - from,
{
    if from < a.len() && from < b.len() && from < c.len() {
        if a[from] == b[from] && b[from] == c[from] {
            lemma_precedes_transitive(a, b, c, from + 1);
        }
    }
}

/// Whether `a` comes before `b` in the order of texts.
pub fn text_precedes(a: &str, b: &str) -> (r: bool)
    ensures
        r == precedes(a@, b@),
{
    let n = a.unicode_len();
    let m = b.unicode_len();
    let mut i: usize = 0;
    while i < m
        invariant
            n == a@.len(),
            m == b@.len(),
            i <= m,
            precedes(a@, b@) == precedes_from(a@, b@, i as int),
        decreases m - i,
    {
        if i >= n {
            return true;
        }
        let x = a.get_char(i);
        let y = b.get_char(i);
        if x != y {
            return (x as u32) < (y as u32);
        }
        i += 1;
    }
    false
}

/// A key with its value.
#[derive(PartialEq, Debug)]
pub struct Entry<V> {
    pub key: String,
    pub value: V,
}

/// A mapping from texts to values, held in the rising order of the
/// texts.
#[derive(PartialEq, Debug)]
pub struct TextMap<V> {
    pub entries: Vec<Entry<V>>,
}

impl<V> TextMap<V> {
    /// The keys in the order in which they are held.
    pub open spec fn keys(self) -> Seq<Seq<char>> {
        Seq::new(self.entries@.len(), |i: int| self.entries@[i].key@)
    }

    /// Whether the keys rise strictly, so that none occurs twice.
    pub open spec fn wf(self) -> bool {
        forall|i: int, j: int|
            0 <= i < j < self.entries@.len() ==> precedes(
                #[trigger] self.entries@[i].key@,
                #[trigger] self.entries@[j].key@,
            )
    }

    /// Whether `key` has a value.
    pub open spec fn contains_key(self, key: Seq<char>) -> bool {
        exists|i: int| 0 <= i < self.entries@.len() && (#[trigger] self.entries@[i]).key@ == key
    }

    /// The place at which `key` is held.
    pub open spec fn index_of(self, key: Seq<char>) -> int {
        choose|i: int| 0 <= i < self.entries@.len() && (#[trigger] self.entries@[i]).key@ == key
    }

    /// The value of `key`.
    pub open spec fn value_of(self, key: Seq<char>) -> V
        recommends
            self.contains_key(key),
    {
        self.entries@[self.index_of(key)].value
    }

    /// The number of keys.
    pub fn len(&self) -> (r: usize)
        ensures
            r == self.entries@.len(),
    {
        self.entries.len()
    }

    /// A mapping without keys.
    pub fn new() -> (r: Self)
        ensures
            r.wf(),
            r.entries@.len() == 0,
    {
        TextMap { entries: Vec::new() }
    }

    /// A key is held at one place only.
    pub proof fn lemma_place(self, i: int)
        requires
            self.wf(),
            0 <= i < self.entries@.len(),
        ensures
            self.contains_key(self.entries@[i].key@),
            self.index_of(self.entries@[i].key@) == i,
            self.value_of(self.entries@[i].key@) == self.entries@[i].value,
    {
        let key = self.entries@[i].key@;
        let j = self.index_of(key);
        lemma_precedes_trichotomy(key, key, 0);
        if j < i {
            assert(precedes(self.entries@[j].key@, self.entries@[i].key@));
        }
        if i < j {
            assert(precedes(self.entries@[i].key@, self.entries@[j].key@));
        }
    }

    /// The first place whose key does not come before `key`.
    fn position(&self, key: &str) -> (r: usize)
        requires
            self.wf(),
        ensures
            r <= self.entries@.len(),
            forall|j: int| 0 <= j < r ==> precedes(#[trigger] self.entries@[j].key@, key@),
            r < self.entries@.len() ==> !precedes(self.entries@[r as int].key@, key@),
    {
        let mut i: usize = 0;
        while i < self.entries.len()
            invariant
                i <= self.entries@.len(),
                forall|j: int| 0 <= j < i ==> precedes(#[trigger] self.entries@[j].key@, key@),
            decreases self.entries@.len() - i,
        {
            if !text_precedes(self.entries[i].key.as_str(), key) {
                return i;
            }
            i += 1;
        }
        i
    }

    /// The value of `key`, if it has one.
    pub fn get(&self, key: &str) -> (r: Option<&V>)
        requires
            self.wf(),
        ensures
            match r {
                Some(value) => self.contains_key(key@) && *value == self.value_of(key@),
                None => !self.contains_key(key@),
            },
    {
        let i = self.position(key);
        if i < self.entries.len() && !text_precedes(key, self.entries[i].key.as_str()) {
            proof {
                lemma_precedes_trichotomy(key@, self.entries@[i as int].key@, 0);
                self.lemma_place(i as int);
            }
            Some(&self.entries[i].value)
        } else {
            proof {
                if self.contains_key(key@) {
                    let j = self.index_of(key@);
                    lemma_precedes_trichotomy(key@, key@, 0);
                    if j < i {
                        assert(precedes(self.entries@[j].key@, key@));
                    } else if j > i {
                        assert(precedes(self.entries@[i as int].key@, self.entries@[j].key@));
                    }
                }
            }
            None
        }
    }

    /// Gives `key` the value `value`, in place of the one that it had
    /// if it had one.
    pub fn insert(&mut self, key: String, value: V)
        requires
            old(self).wf(),
        ensures
            final(self).wf(),
            forall|k: Seq<char>|
                final(self).contains_key(k) <==> old(self).contains_key(k) || k == key@,
            final(self).value_of(key@) == value,
            forall|k: Seq<char>|
                k != key@ && old(self).contains_key(k) ==> final(self).value_of(k) == old(
                    self,
                ).value_of(k),
            old(self).contains_key(key@) ==> final(self).entries@.len() == old(self).entries@.len(),
            !old(self).contains_key(key@) ==> final(self).entries@.len() == old(self).entries@.len()
                + 1,
    {
        let i = self.position(key.as_str());
        let ghost before = *self;
        let replace = i < self.entries.len() && !text_precedes(
            key.as_str(),
            self.entries[i].key.as_str(),
        );
        proof {
            lemma_precedes_trichotomy(key@, key@, 0);
            if i < before.entries@.len() {
                lemma_precedes_trichotomy(key@, before.entries@[i as int].key@, 0);
            }
            assert forall|j: int| i < j < before.entries@.len() && !replace implies precedes(
                key@,
                #[trigger] before.entries@[j].key@,
            ) by {
                assert(precedes(before.entries@[i as int].key@, before.entries@[j].key@));
                lemma_precedes_transitive(
                    key@,
                    before.entries@[i as int].key@,
                    before.entries@[j].key@,
                    0,
                );
            }
        }
        if replace {
            self.entries.remove(i);
        }
        self.entries.insert(i, Entry { key, value });
        proof {
            let after = *self;
            assert(after.entries@[i as int].key@ == key@);
            assert forall|x: int, y: int| 0 <= x < y < after.entries@.len() implies precedes(
                #[trigger] after.entries@[x].key@,
                #[trigger] after.entries@[y].key@,
            ) by {
                let ox = if x < i {
                    x
                } else if replace {
                    x
                } else {
                    x - 1
                };
                let oy = if y < i {
                    y
                } else if replace {
                    y
                } else {
                    y - 1
                };
                if x == i {
                    if replace {
                        assert(precedes(before.entries@[i as int].key@, before.entries@[oy].key@));
                    } else {
                        assert(precedes(key@, before.entries@[oy].key@));
                    }
                } else if y == i {
                    assert(precedes(before.entries@[ox].key@, key@));
                } else {
                    assert(precedes(before.entries@[ox].key@, before.entries@[oy].key@));
                }
            }
            assert forall|k: Seq<char>| after.contains_key(k) <==> before.contains_key(k) || k
                == key@ by {
                if after.contains_key(k) {
                    let x = after.index_of(k);
                    if x != i {
                        let ox = if x < i || replace {
                            x
                        } else {
                            x - 1
                        };
                        assert(before.entries@[ox].key@ == k);
                    }
                }
                if before.contains_key(k) && k != key@ {
                    let ox = before.index_of(k);
                    let x = if ox < i || replace {
                        ox
                    } else {
                        ox + 1
                    };
                    assert(after.entries@[x].key@ == k);
                }
            }
            after.lemma_place(i as int);
            assert forall|k: Seq<char>| k != key@ && before.contains_key(k) implies after.value_of(k)
                == before.value_of(k) by {
                let ox = before.index_of(k);
                let x = if ox < i || replace {
                    ox
                } else {
                    ox + 1
                };
                assert(after.entries@[x].key@ == k);
                after.lemma_place(x);
            }
            if replace {
                assert(before.entries@[i as int].key@ == key@);
            } else if before.contains_key(key@) {
                let j = before.index_of(key@);
                if j < i {
                    assert(precedes(before.entries@[j].key@, key@));
                } else if j > i {
                    assert(precedes(key@, before.entries@[j].key@));
                }
            }
        }
    }
}

} // verus!
