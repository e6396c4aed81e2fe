//! Key-value tables: what the bridge keeps between calls.

use vstd::prelude::*;
use vstd::string::*;
use crate::text::{lemma_text_lt_order, lemma_text_lt_total, str_eq, str_lt, text_lt};

verus! {

/// A key of a `Table`: it names an identity, and two keys can be compared
/// by it.
pub trait Key: Sized {
    /// What a key stands for.
    type Id;

    /// The identity that the key names.
    spec fn id(&self) -> Self::Id;

    /// Whether two keys name the same identity.
    fn same(&self, other: &Self) -> (r: bool)
        ensures
            r == (self.id() == other.id()),
    ;
}

impl Key for String {
    type Id = Seq<char>;

    open spec fn id(&self) -> Seq<char> {
        self@
    }

    fn same(&self, other: &String) -> (r: bool) {
        str_eq(self.as_str(), other.as_str())
    }
}

/// A channel and a denomination: the key of a balance.
pub struct ChannelDenom {
    pub channel: String,
    pub denom: String,
}

impl Key for ChannelDenom {
    type Id = (Seq<char>, Seq<char>);

    open spec fn id(&self) -> (Seq<char>, Seq<char>) {
        (self.channel@, self.denom@)
    }

    fn same(&self, other: &ChannelDenom) -> (r: bool) {
        str_eq(self.channel.as_str(), other.channel.as_str()) && str_eq(
            self.denom.as_str(),
            other.denom.as_str(),
        )
    }
}

impl ChannelDenom {
    /// The key of the balance of `denom` on `channel`.
    pub fn new(channel: &str, denom: &str) -> (r: ChannelDenom)
        ensures
            r.id() == (channel@, denom@),
    {
        ChannelDenom { channel: channel.to_string(), denom: denom.to_string() }
    }
}

/// A channel and an owner on it: the key of a lockup account.
pub struct LockupKey {
    pub channel: String,
    pub owner: String,
}

impl Key for LockupKey {
    type Id = (Seq<char>, Seq<char>);

    open spec fn id(&self) -> (Seq<char>, Seq<char>) {
        (self.channel@, self.owner@)
    }

    fn same(&self, other: &LockupKey) -> (r: bool) {
        str_eq(self.channel.as_str(), other.channel.as_str()) && str_eq(
            self.owner.as_str(),
            other.owner.as_str(),
        )
    }
}

impl LockupKey {
    /// The key of the lockup account of `owner` on `channel`.
    pub fn new(channel: &str, owner: &str) -> (r: LockupKey)
        ensures
            r.id() == (channel@, owner@),
    {
        LockupKey { channel: channel.to_string(), owner: owner.to_string() }
    }
}

/// A channel and the sequence number of a packet sent on it.
#[derive(Debug, PartialEq)]
pub struct PacketId {
    pub channel: String,
    pub sequence: u64,
}

impl Key for PacketId {
    type Id = (Seq<char>, u64);

    open spec fn id(&self) -> (Seq<char>, u64) {
        (self.channel@, self.sequence)
    }

    fn same(&self, other: &PacketId) -> (r: bool) {
        self.sequence == other.sequence && str_eq(self.channel.as_str(), other.channel.as_str())
    }
}

impl PacketId {
    /// The packet with number `sequence` on `channel`.
    pub fn new(channel: &str, sequence: u64) -> (r: PacketId)
        ensures
            r.id() == (channel@, sequence),
    {
        PacketId { channel: channel.to_string(), sequence }
    }
}

/// One row of a `Table`.
pub struct Entry<K, V> {
    key: K,
    value: V,
}

/// A table from keys to values, with one row for each identity.
pub struct Table<K, V> {
    entries: Vec<Entry<K, V>>,
}

impl<K: Key, V> Table<K, V> {
    /// No two rows share an identity.
    pub closed spec fn wf(self) -> bool {
        forall|i: int, j: int|
            0 <= i < self.entries@.len() && 0 <= j < self.entries@.len()
                && self.entries@[i].key.id() == self.entries@[j].key.id() ==> i == j
    }

    spec fn has_at(self, id: K::Id, i: int) -> bool {
        0 <= i < self.entries@.len() && self.entries@[i].key.id() == id
    }

    /// The table as a map from identities to values.
    pub closed spec fn view(&self) -> Map<K::Id, V> {
        Map::new(
            |id: K::Id| exists|i: int| self.has_at(id, i),
            |id: K::Id| self.entries@[choose|i: int| self.has_at(id, i)].value,
        )
    }

    /// The table without rows.
    pub fn new() -> (r: Table<K, V>)
        ensures
            r.wf(),
            r@ == Map::<K::Id, V>::empty(),
    {
        let r = Table { entries: Vec::new() };
        assert(r@ =~= Map::<K::Id, V>::empty());
        r
    }

    fn position(&self, key: &K) -> (r: Option<usize>)
        ensures
            match r {
                Some(i) => self.has_at(key.id(), i as int),
                None => forall|i: int| !self.has_at(key.id(), i),
            },
    {
        let mut i: usize = 0;
        while i < self.entries.len()
            invariant
                i <= self.entries.len(),
                forall|j: int| 0 <= j < i ==> self.entries@[j].key.id() != key.id(),
            decreases self.entries.len() - i,
        {
            if self.entries[i].key.same(key) {
                return Some(i);
            }
            i += 1;
        }
        None
    }

    /// The value under `key`, if the table has one.
    pub fn get(&self, key: &K) -> (r: Option<&V>)
        requires
            self.wf(),
        ensures
            match r {
                Some(v) => self@.contains_key(key.id()) && *v == self@[key.id()],
                None => !self@.contains_key(key.id()),
            },
    {
        match self.position(key) {
            Some(i) => {
                assert(self.has_at(key.id(), i as int));
                Some(&self.entries[i].value)
            },
            None => None,
        }
    }

    /// Whether the table has a value under `key`.
    pub fn contains(&self, key: &K) -> (r: bool)
        requires
            self.wf(),
        ensures
            r == self@.contains_key(key.id()),
    {
        self.get(key).is_some()
    }

    /// The rows of the table, in the order in which it keeps them.
    pub closed spec fn rows(&self) -> Seq<(K, V)> {
        Seq::new(self.entries@.len(), |i: int| (self.entries@[i].key, self.entries@[i].value))
    }

    /// The number of rows.
    pub fn len(&self) -> (n: usize)
        ensures
            n == self.rows().len(),
    {
        self.entries.len()
    }

    /// The key of the row at `i`.
    pub fn key_at(&self, i: usize) -> (k: &K)
        requires
            i < self.rows().len(),
        ensures
            *k == self.rows()[i as int].0,
    {
        &self.entries[i].key
    }

    /// The value of the row at `i`.
    pub fn value_at(&self, i: usize) -> (v: &V)
        requires
            i < self.rows().len(),
        ensures
            *v == self.rows()[i as int].1,
    {
        &self.entries[i].value
    }

    /// The rows list the table: each row is in the map, each key of the map
    /// has a row, and no two rows share an identity.
    pub proof fn lemma_rows(&self)
        requires
            self.wf(),
        ensures
            lists(self.rows(), self@),
    {
        let rows = self.rows();
        assert forall|i: int| 0 <= i < rows.len() implies #[trigger] self@.contains_key(
            rows[i].0.id(),
        ) && self@[rows[i].0.id()] == rows[i].1 by {
            assert(self.has_at(rows[i].0.id(), i));
            self.lemma_lookup(rows[i].0.id(), i);
        }
        assert forall|id: K::Id| self@.contains_key(id) implies row_of(rows, id) is Some by {
            let c = choose|c: int| self.has_at(id, c);
            assert(self.has_at(id, c));
            assert(rows[c].0.id() == id);
        }
    }

    proof fn lemma_lookup(self, id: K::Id, i: int)
        requires
            self.wf(),
            self.has_at(id, i),
        ensures
            self@.contains_key(id),
            self@[id] == self.entries@[i].value,
    {
        let c = choose|c: int| self.has_at(id, c);
        assert(self.has_at(id, c));
        assert(c == i);
    }

    /// Puts `value` under `key`, in place of what was there.
    pub fn insert(&mut self, key: K, value: V)
        requires
            old(self).wf(),
        ensures
            final(self).wf(),
            final(self)@ == old(self)@.insert(key.id(), value),
    {
        let ghost before = *self;
        let ghost id = key.id();
        let found = self.position(&key);
        match found {
            Some(i) => {
                self.entries.set(i, Entry { key, value });
            },
            None => {
                self.entries.push(Entry { key, value });
            },
        }
        proof {
            let after = *self;
            let at: int = match found {
                Some(i) => i as int,
                None => before.entries@.len() as int,
            };
            assert(after.entries@[at].key.id() == id);
            assert(after.entries@[at].value == value);
            assert forall|j: int| 0 <= j < after.entries@.len() && j != at implies 0 <= j
                < before.entries@.len() && after.entries@[j] == before.entries@[j]
                && before.entries@[j].key.id() != id by {
                if found is Some {
                    assert(before.has_at(id, at));
                    if before.entries@[j].key.id() == id {
                        assert(before.has_at(id, j));
                    }
                } else {
                    assert(!before.has_at(id, j));
                }
            }
            assert(after.wf()) by {
                assert forall|i: int, j: int|
                    0 <= i < after.entries@.len() && 0 <= j < after.entries@.len()
                        && after.entries@[i].key.id() == after.entries@[j].key.id() implies i
                    == j by {
                    if i != at && j != at {
                        assert(before.entries@[i].key.id() == before.entries@[j].key.id());
                    }
                }
            }
            assert forall|k: K::Id| #[trigger]
                after@.contains_key(k) == before@.insert(id, value).contains_key(k) by {
                if after@.contains_key(k) {
                    let c = choose|c: int| after.has_at(k, c);
                    assert(after.has_at(k, c));
                    if c != at {
                        assert(before.has_at(k, c));
                    }
                }
                if before@.contains_key(k) {
                    let c = choose|c: int| before.has_at(k, c);
                    assert(before.has_at(k, c));
                    if c != at {
                        assert(after.has_at(k, c));
                    } else {
                        assert(after.has_at(k, at));
                    }
                }
                if k == id {
                    assert(after.has_at(k, at));
                }
            }
            assert forall|k: K::Id| #[trigger]
                after@.contains_key(k) implies after@[k] == before@.insert(id, value)[k] by {
                let c = choose|c: int| after.has_at(k, c);
                assert(after.has_at(k, c));
                after.lemma_lookup(k, c);
                if c != at {
                    assert(before.has_at(k, c));
                    before.lemma_lookup(k, c);
                }
            }
            assert(after@ =~= before@.insert(id, value));
        }
    }
}

/// Whether `rows` has a row for the identity `id`, and where.
pub open spec fn row_of<K: Key, V>(rows: Seq<(K, V)>, id: K::Id) -> Option<int> {
    if exists|i: int| 0 <= i < rows.len() && (#[trigger] rows[i]).0.id() == id {
        Some(choose|i: int| 0 <= i < rows.len() && (#[trigger] rows[i]).0.id() == id)
    } else {
        None
    }
}

/// The rows list the map: each row is in the map, each key of the map has
/// a row, and no two rows share an identity.
pub open spec fn lists<K: Key, V>(rows: Seq<(K, V)>, m: Map<K::Id, V>) -> bool {
    &&& forall|i: int, j: int|
        0 <= i < j < rows.len() ==> (#[trigger] rows[i]).0.id() != (#[trigger] rows[j]).0.id()
    &&& forall|i: int|
        0 <= i < rows.len() ==> #[trigger] m.contains_key(rows[i].0.id()) && m[rows[i].0.id()]
            == rows[i].1
    &&& forall|id: K::Id| m.contains_key(id) ==> row_of(rows, id) is Some
}

/// The map that a list of pairs builds: a later pair of an identity
/// replaces an earlier one.
pub open spec fn map_of<I, W>(pairs: Seq<(I, W)>) -> Map<I, W>
    decreases pairs.len(),
{
    if pairs.len() == 0 {
        Map::empty()
    } else {
        map_of(pairs.drop_last()).insert(pairs.last().0, pairs.last().1)
    }
}

/// A list of pairs without a repeated identity builds the map that it
/// lists.
pub proof fn lemma_map_of<I, W>(pairs: Seq<(I, W)>, m: Map<I, W>)
    requires
        forall|i: int, j: int|
            0 <= i < j < pairs.len() ==> (#[trigger] pairs[i]).0 != (#[trigger] pairs[j]).0,
        forall|i: int|
            0 <= i < pairs.len() ==> m.contains_key((#[trigger] pairs[i]).0) && m[pairs[i].0]
                == pairs[i].1,
        forall|id: I|
            m.contains_key(id) ==> exists|i: int|
                0 <= i < pairs.len() && (#[trigger] pairs[i]).0 == id,
    ensures
        map_of(pairs) == m,
    decreases pairs.len(),
{
    if pairs.len() == 0 {
        assert(m =~= Map::<I, W>::empty());
    } else {
        let init = pairs.drop_last();
        let last = pairs.last();
        let less = m.remove(last.0);
        assert forall|i: int| 0 <= i < init.len() implies less.contains_key(
            (#[trigger] init[i]).0,
        ) && less[init[i].0] == init[i].1 by {
            assert(init[i] == pairs[i]);
            assert(pairs[i].0 != pairs[pairs.len() - 1].0);
        }
        assert forall|id: I| less.contains_key(id) implies exists|i: int|
            0 <= i < init.len() && (#[trigger] init[i]).0 == id by {
            let i = choose|i: int| 0 <= i < pairs.len() && (#[trigger] pairs[i]).0 == id;
            assert(init[i] == pairs[i]);
        }
        assert forall|i: int, j: int| 0 <= i < j < init.len() implies (#[trigger] init[i]).0 != (
        #[trigger] init[j]).0 by {
            assert(init[i] == pairs[i] && init[j] == pairs[j]);
        }
        lemma_map_of(init, less);
        assert(m.contains_key(pairs[pairs.len() - 1].0));
        assert(less.insert(last.0, last.1) =~= m);
    }
}

/// Whether the key `k` lies behind the place where a listing starts.
pub open spec fn above(start_after: Option<Seq<char>>, k: Seq<char>) -> bool {
    match start_after {
        Some(s) => text_lt(s, k),
        None => true,
    }
}

/// What an optional string slice stands for.
pub open spec fn cursor_view(c: Option<&str>) -> Option<Seq<char>> {
    match c {
        Some(s) => Some(s@),
        None => None,
    }
}

/// Whether `keys` is the page of `m` behind `start_after`: the first keys
/// behind it in ascending order, `limit` of them or all there are.
pub open spec fn is_page<V>(
    m: Map<Seq<char>, V>,
    start_after: Option<Seq<char>>,
    limit: nat,
    keys: Seq<Seq<char>>,
) -> bool {
    &&& keys.len() <= limit
    &&& forall|i: int, j: int| 0 <= i < j < keys.len() ==> text_lt(keys[i], keys[j])
    &&& forall|i: int|
        0 <= i < keys.len() ==> m.contains_key(#[trigger] keys[i]) && above(start_after, keys[i])
    &&& forall|k: Seq<char>|
        #![trigger m.contains_key(k)]
        m.contains_key(k) && above(start_after, k) ==> keys.contains(k) || (keys.len() == limit
            && forall|i: int| 0 <= i < keys.len() ==> text_lt(#[trigger] keys[i], k))
}

/// Two pages of the same map behind the same start and with the same
/// limit agree up to the length of the shorter one.
proof fn lemma_page_prefix<V>(
    m: Map<Seq<char>, V>,
    start_after: Option<Seq<char>>,
    limit: nat,
    a: Seq<Seq<char>>,
    b: Seq<Seq<char>>,
    i: int,
)
    requires
        is_page(m, start_after, limit, a),
        is_page(m, start_after, limit, b),
        0 <= i < a.len(),
        i < b.len(),
    ensures
        a[i] == b[i],
    decreases i,
{
    if i > 0 {
        lemma_page_prefix(m, start_after, limit, a, b, i - 1);
    }
    assert forall|j: int| 0 <= j < i implies a[j] == b[j] by {
        lemma_page_prefix(m, start_after, limit, a, b, j);
    }
    if a[i] != b[i] {
        lemma_text_lt_total(a[i], b[i]);
        if text_lt(a[i], b[i]) {
            lemma_page_misses(m, start_after, limit, a, b, i);
        } else {
            lemma_page_misses(m, start_after, limit, b, a, i);
        }
    }
}

/// Where two pages agree before `i`, the key of neither at `i` comes
/// before that of the other.
proof fn lemma_page_misses<V>(
    m: Map<Seq<char>, V>,
    start_after: Option<Seq<char>>,
    limit: nat,
    a: Seq<Seq<char>>,
    b: Seq<Seq<char>>,
    i: int,
)
    requires
        is_page(m, start_after, limit, a),
        is_page(m, start_after, limit, b),
        0 <= i < a.len(),
        i < b.len(),
        forall|j: int| 0 <= j < i ==> a[j] == b[j],
    ensures
        !text_lt(a[i], b[i]),
{
    let k = a[i];
    assert(m.contains_key(k) && above(start_after, k));
    if !text_lt(a[i], b[i]) {
    } else if b.contains(k) {
        let x = choose|x: int| 0 <= x < b.len() && b[x] == k;
        if x < i {
            assert(text_lt(a[x], a[i]));
            lemma_text_lt_order(k, k, k);
        } else if x > i {
            assert(text_lt(b[i], b[x]));
            lemma_text_lt_order(k, b[i], k);
        } else {
            lemma_text_lt_order(k, k, k);
        }
    } else {
        assert(text_lt(b[i], k));
        lemma_text_lt_order(k, b[i], k);
    }
}

/// A map has one page behind a start and within a limit: two lists of keys
/// that are such a page are the same list.
pub proof fn lemma_page_unique<V>(
    m: Map<Seq<char>, V>,
    start_after: Option<Seq<char>>,
    limit: nat,
    a: Seq<Seq<char>>,
    b: Seq<Seq<char>>,
)
    requires
        is_page(m, start_after, limit, a),
        is_page(m, start_after, limit, b),
    ensures
        a == b,
{
    lemma_page_longer(m, start_after, limit, a, b);
    lemma_page_longer(m, start_after, limit, b, a);
    assert forall|i: int| 0 <= i < a.len() implies a[i] == b[i] by {
        lemma_page_prefix(m, start_after, limit, a, b, i);
    }
    assert(a =~= b);
}

/// Of two pages the second is not longer than the first.
proof fn lemma_page_longer<V>(
    m: Map<Seq<char>, V>,
    start_after: Option<Seq<char>>,
    limit: nat,
    a: Seq<Seq<char>>,
    b: Seq<Seq<char>>,
)
    requires
        is_page(m, start_after, limit, a),
        is_page(m, start_after, limit, b),
    ensures
        b.len() <= a.len(),
{
    if a.len() < b.len() {
        let n = a.len() as int;
        let k = b[n];
        assert(m.contains_key(k) && above(start_after, k));
        assert(a.contains(k));
        let x = choose|x: int| 0 <= x < a.len() && a[x] == k;
        lemma_page_prefix(m, start_after, limit, a, b, x);
        assert(text_lt(b[x], b[n]));
        lemma_text_lt_order(k, k, k);
    }
}

impl<V> Table<String, V> {
    /// The keys of the rows at the places `at`.
    pub open spec fn keys_at(&self, at: Seq<usize>) -> Seq<Seq<char>> {
        Seq::new(at.len(), |i: int| self.rows()[at[i] as int].0@)
    }

    fn is_above(cursor: Option<&str>, key: &str) -> (r: bool)
        ensures
            r == above(cursor_view(cursor), key@),
    {
        match cursor {
            Some(c) => str_lt(c, key),
            None => true,
        }
    }

    /// The row with the least key behind `cursor`, if there is a key
    /// behind it.
    fn next_above(&self, cursor: Option<&str>) -> (r: Option<usize>)
        ensures
            match r {
                Some(n) => n < self.rows().len() && above(
                    cursor_view(cursor),
                    self.rows()[n as int].0@,
                ) && forall|j: int|
                    0 <= j < self.rows().len() && above(
                        cursor_view(cursor),
                        (#[trigger] self.rows()[j]).0@,
                    ) ==> !text_lt(self.rows()[j].0@, self.rows()[n as int].0@),
                None => forall|j: int|
                    0 <= j < self.rows().len() ==> !above(
                        cursor_view(cursor),
                        (#[trigger] self.rows()[j]).0@,
                    ),
            },
    {
        let ghost rows = self.rows();
        let ghost c = cursor_view(cursor);
        let mut best: Option<usize> = None;
        let mut i: usize = 0;
        while i < self.entries.len()
            invariant
                i <= self.entries.len(),
                rows == self.rows(),
                c == cursor_view(cursor),
                match best {
                    Some(b) => b < i && above(c, rows[b as int].0@) && forall|j: int|
                        0 <= j < i && above(c, (#[trigger] rows[j]).0@) ==> !text_lt(
                            rows[j].0@,
                            rows[b as int].0@,
                        ),
                    None => forall|j: int| 0 <= j < i ==> !above(c, (#[trigger] rows[j]).0@),
                },
            decreases self.entries.len() - i,
        {
            let key = self.entries[i].key.as_str();
            proof {
                assert(rows[i as int].0@ == key@);
            }
            if Self::is_above(cursor, key) {
                let better = match best {
                    Some(b) => str_lt(key, self.entries[b].key.as_str()),
                    None => true,
                };
                if better {
                    proof {
                        assert forall|j: int|
                            0 <= j < i + 1 && above(c, (#[trigger] rows[j]).0@) implies !text_lt(
                            rows[j].0@,
                            key@,
                        ) by {
                            if j < i {
                                lemma_text_lt_order(rows[j].0@, key@, rows[best->0 as int].0@);
                            } else {
                                lemma_text_lt_order(key@, key@, key@);
                            }
                        }
                    }
                    best = Some(i);
                }
            }
            i += 1;
        }
        best
    }

    /// Whether the row at `t` is among the places `at`.
    pub open spec fn holds(at: Seq<usize>, t: int) -> bool {
        exists|i: int| 0 <= i < at.len() && (#[trigger] at[i]) as int == t
    }

    /// The places of the rows of one page: the rows with the first keys
    /// behind `start_after`, in ascending order of the keys, `limit` of
    /// them or all there are.
    pub fn page(&self, start_after: Option<&str>, limit: usize) -> (r: Vec<usize>)
        requires
            self.wf(),
        ensures
            forall|i: int| 0 <= i < r@.len() ==> (#[trigger] r@[i]) < self.rows().len(),
            is_page(self@, cursor_view(start_after), limit as nat, self.keys_at(r@)),
    {
        let ghost rows = self.rows();
        let ghost start = cursor_view(start_after);
        let mut out: Vec<usize> = Vec::new();
        let mut done = false;
        proof {
            self.lemma_rows();
        }
        while !done && out.len() < limit
            invariant
                self.wf(),
                rows == self.rows(),
                start == cursor_view(start_after),
                lists(rows, self@),
                out@.len() <= limit,
                forall|i: int|
                    0 <= i < out@.len() ==> (#[trigger] out@[i]) < rows.len() && above(
                        start,
                        rows[out@[i] as int].0@,
                    ),
                forall|i: int, j: int|
                    0 <= i < j < out@.len() ==> text_lt(
                        rows[(#[trigger] out@[i]) as int].0@,
                        rows[(#[trigger] out@[j]) as int].0@,
                    ),
                forall|t: int|
                    0 <= t < rows.len() && above(start, (#[trigger] rows[t]).0@) ==> Self::holds(
                        out@,
                        t,
                    ) || (!done && forall|i: int|
                        0 <= i < out@.len() ==> text_lt(
                            rows[(#[trigger] out@[i]) as int].0@,
                            rows[t].0@,
                        )),
            decreases limit - out.len() + if done { 0int } else { 1int },
        {
            let ghost before = out@;
            let cursor = if out.len() == 0 {
                start_after
            } else {
                Some(self.entries[out[out.len() - 1]].key.as_str())
            };
            proof {
                if out@.len() > 0 {
                    assert(cursor_view(cursor) == Some(rows[out@[out@.len() - 1] as int].0@));
                }
            }
            match self.next_above(cursor) {
                None => {
                    done = true;
                    proof {
                        assert forall|t: int|
                            0 <= t < rows.len() && above(
                                start,
                                (#[trigger] rows[t]).0@,
                            ) implies Self::holds(out@, t) by {
                            assert(!above(cursor_view(cursor), rows[t].0@));
                            if !Self::holds(out@, t) && out@.len() > 0 {
                                assert(text_lt(
                                    rows[out@[out@.len() - 1] as int].0@,
                                    rows[t].0@,
                                ));
                            }
                        }
                    }
                },
                Some(n) => {
                    out.push(n);
                    proof {
                        let kn = rows[n as int].0@;
                        assert forall|i: int| 0 <= i < before.len() implies text_lt(
                            rows[(#[trigger] before[i]) as int].0@,
                            kn,
                        ) by {
                            let last = rows[before[before.len() - 1] as int].0@;
                            if i < before.len() - 1 {
                                lemma_text_lt_order(rows[before[i] as int].0@, last, kn);
                            }
                        }
                        assert(above(start, kn)) by {
                            if before.len() > 0 && start is Some {
                                let last = rows[before[before.len() - 1] as int].0@;
                                lemma_text_lt_order(start->0, last, kn);
                            }
                        }
                        assert forall|t: int|
                            0 <= t < rows.len() && above(
                                start,
                                (#[trigger] rows[t]).0@,
                            ) implies Self::holds(out@, t) || forall|i: int|
                            0 <= i < out@.len() ==> text_lt(
                                rows[(#[trigger] out@[i]) as int].0@,
                                rows[t].0@,
                            ) by {
                            if Self::holds(before, t) {
                                let i = choose|i: int|
                                    0 <= i < before.len() && (#[trigger] before[i]) as int == t;
                                assert(out@[i] as int == t);
                            } else if t == n {
                                assert(out@[before.len() as int] as int == t);
                            } else {
                                let kt = rows[t].0@;
                                assert(above(cursor_view(cursor), kt)) by {
                                    if before.len() > 0 {
                                        assert(text_lt(
                                            rows[before[before.len() - 1] as int].0@,
                                            kt,
                                        ));
                                    }
                                }
                                assert(!text_lt(kt, kn));
                                lemma_text_lt_total(kt, kn);
                                assert(kt != kn) by {
                                    if t < n {
                                        assert(rows[t].0.id() != rows[n as int].0.id());
                                    } else {
                                        assert(rows[n as int].0.id() != rows[t].0.id());
                                    }
                                }
                                assert forall|i: int| 0 <= i < out@.len() implies text_lt(
                                    rows[(#[trigger] out@[i]) as int].0@,
                                    kt,
                                ) by {
                                    if i < before.len() {
                                        assert(out@[i] == before[i]);
                                    }
                                }
                            }
                        }
                    }
                },
            }
        }
        proof {
            let keys = self.keys_at(out@);
            assert forall|i: int| 0 <= i < keys.len() implies self@.contains_key(
                #[trigger] keys[i],
            ) && above(start, keys[i]) by {
                let row = rows[out@[i] as int];
                assert(self@.contains_key(row.0.id()));
            }
            assert forall|i: int, j: int| 0 <= i < j < keys.len() implies text_lt(
                keys[i],
                keys[j],
            ) by {
                assert(text_lt(rows[out@[i] as int].0@, rows[out@[j] as int].0@));
            }
            assert forall|k: Seq<char>|
                #![trigger self@.contains_key(k)]
                self@.contains_key(k) && above(start, k) implies keys.contains(k) || (keys.len()
                == limit && forall|i: int|
                0 <= i < keys.len() ==> text_lt(#[trigger] keys[i], k)) by {
                let t = row_of(rows, k)->0;
                assert(rows[t].0@ == k);
                if Self::holds(out@, t) {
                    let i = choose|i: int| 0 <= i < out@.len() && (#[trigger] out@[i]) as int == t;
                    assert(keys[i] == k);
                } else {
                    assert forall|i: int| 0 <= i < keys.len() implies text_lt(
                        #[trigger] keys[i],
                        k,
                    ) by {
                        assert(text_lt(rows[out@[i] as int].0@, rows[t].0@));
                    }
                }
            }
        }
        out
    }
}

} // verus!
