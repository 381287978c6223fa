//! A map from names to values that keeps its entries in the order of the names.
use vstd::prelude::*;
use vstd::string::StringSliceAdditionalSpecFns;
use vstd::utf8::{encode_utf8, encode_utf8_decode_utf8};

verus! {

/// Whether one sequence of bytes comes before another: at the first place where
/// the two differ the first has the smaller byte, or the first is a proper
/// prefix of the second.
pub open spec fn bytes_before(a: Seq<u8>, b: Seq<u8>) -> bool
    decreases a.len(),
{
    if b.len() == 0 {
        false
    } else if a.len() == 0 {
        true
    } else if a[0] != b[0] {
        a[0] < b[0]
    } else {
        bytes_before(a.drop_first(), b.drop_first())
    }
}

/// Whether one name comes before another: the order of their UTF-8 bytes, which
/// is the order of strings.
pub open spec fn name_before(a: Seq<char>, b: Seq<char>) -> bool {
    bytes_before(encode_utf8(a), encode_utf8(b))
}

/// No sequence of bytes comes before itself.
pub proof fn lemma_before_irreflexive(a: Seq<u8>)
    ensures
        !bytes_before(a, a),
    decreases a.len(),
{
    if a.len() > 0 {
        lemma_before_irreflexive(a.drop_first());
    }
}

/// Of two different sequences of bytes exactly one comes before the other.
pub proof fn lemma_before_total(a: Seq<u8>, b: Seq<u8>)
    ensures
        a == b || bytes_before(a, b) || bytes_before(b, a),
        !(bytes_before(a, b) && bytes_before(b, a)),
    decreases a.len(),
{
    if a.len() == 0 || b.len() == 0 {
        if a.len() == 0 && b.len() == 0 {
            assert(a =~= b);
        }
    } else if a[0] == b[0] {
        lemma_before_total(a.drop_first(), b.drop_first());
        if a.drop_first() == b.drop_first() {
            assert(a =~= seq![a[0]] + a.drop_first());
            assert(b =~= seq![b[0]] + b.drop_first());
        }
    }
}

/// The order of byte sequences is transitive.
pub proof fn lemma_before_transitive(a: Seq<u8>, b: Seq<u8>, c: Seq<u8>)
    requires
        bytes_before(a, b),
        bytes_before(b, c),
    ensures
        bytes_before(a, c),
    decreases a.len(),
{
    if a.len() > 0 && b.len() > 0 && c.len() > 0 {
        if a[0] == b[0] && b[0] == c[0] {
            lemma_before_transitive(a.drop_first(), b.drop_first(), c.drop_first());
        }
    }
}

/// Two names with the same bytes are the same name.
pub proof fn lemma_name_bytes(a: Seq<char>, b: Seq<char>)
    ensures
        encode_utf8(a) == encode_utf8(b) <==> a == b,
{
    encode_utf8_decode_utf8(a);
    encode_utf8_decode_utf8(b);
}

/// How two names stand to each other.
#[derive(Clone, Copy, Debug, PartialEq, Eq, Structural)]
pub enum Order {
    Before,
    Same,
    After,
}

/// How name `a` stands to name `b`.
pub open spec fn name_order(a: Seq<char>, b: Seq<char>) -> Order {
    if a == b {
        Order::Same
    } else if name_before(a, b) {
        Order::Before
    } else {
        Order::After
    }
}

/// Compares two names byte by byte.
pub fn order_names(a: &str, b: &str) -> (order: Order)
    ensures
        order == name_order(a@, b@),
{
    let x = a.as_bytes();
    let y = b.as_bytes();
    proof {
        lemma_name_bytes(a@, b@);
        assert(x@.skip(0) =~= x@);
        assert(y@.skip(0) =~= y@);
        assert(x@.take(0) =~= y@.take(0));
    }
    let mut i: usize = 0;
    while i < x.len() && i < y.len()
        invariant
            i <= x.len(),
            i <= y.len(),
            x@ == a.spec_bytes(),
            y@ == b.spec_bytes(),
            x@.take(i as int) == y@.take(i as int),
            bytes_before(x@, y@) == bytes_before(x@.skip(i as int), y@.skip(i as int)),
            bytes_before(y@, x@) == bytes_before(y@.skip(i as int), x@.skip(i as int)),
        decreases x.len() - i,
    {
        proof {
            assert(x@.skip(i as int).drop_first() =~= x@.skip(i + 1));
            assert(y@.skip(i as int).drop_first() =~= y@.skip(i + 1));
            assert(x@.skip(i as int)[0] == x@[i as int]);
            assert(y@.skip(i as int)[0] == y@[i as int]);
        }
        if x[i] < y[i] {
            assert(x@ != y@);
            return Order::Before;
        } else if x[i] > y[i] {
            assert(x@ != y@);
            proof {
                lemma_before_total(x@, y@);
            }
            return Order::After;
        }
        assert(x@.take(i + 1) =~= x@.take(i as int).push(x@[i as int]));
        assert(y@.take(i + 1) =~= y@.take(i as int).push(y@[i as int]));
        i += 1;
    }
    proof {
        lemma_before_total(x@, y@);
    }
    if x.len() < y.len() {
        Order::Before
    } else if x.len() > y.len() {
        Order::After
    } else {
        assert(x@ =~= x@.take(i as int));
        assert(y@ =~= y@.take(i as int));
        Order::Same
    }
}

/// A map from names to values. The entries stand in the order of their names
/// and no name occurs twice.
#[derive(Debug, PartialEq)]
pub struct NameMap<V> {
    pub entries: Vec<(String, V)>,
}

/// The names of the entries are strictly increasing.
pub open spec fn names_ascend<V>(entries: Seq<(String, V)>) -> bool {
    forall|i: int, j: int|
        0 <= i < j < entries.len() ==> name_before(
            (#[trigger] entries[i]).0@,
            (#[trigger] entries[j]).0@,
        )
}

/// The first entry with the given name, if there is one.
pub open spec fn position_of<V>(entries: Seq<(String, V)>, name: Seq<char>) -> Option<int> {
    if exists|i: int| 0 <= i < entries.len() && (#[trigger] entries[i]).0@ == name {
        Some(choose|i: int| 0 <= i < entries.len() && (#[trigger] entries[i]).0@ == name)
    } else {
        None
    }
}

/// Entries in ascending order hold every name at most once.
pub proof fn lemma_names_distinct<V>(entries: Seq<(String, V)>, i: int, j: int)
    requires
        names_ascend(entries),
        0 <= i < entries.len(),
        0 <= j < entries.len(),
        entries[i].0@ == entries[j].0@,
    ensures
        i == j,
{
    lemma_before_irreflexive(encode_utf8(entries[i].0@));
}

impl<V> NameMap<V> {
    /// The invariant of the map: its names ascend.
    pub open spec fn well_formed(&self) -> bool {
        names_ascend(self.entries@)
    }

    /// Whether the map holds a value under the name.
    pub open spec fn has(&self, name: Seq<char>) -> bool {
        exists|i: int| 0 <= i < self.entries.len() && (#[trigger] self.entries[i]).0@ == name
    }

    /// The value that the map holds under the name.
    pub open spec fn value(&self, name: Seq<char>) -> V {
        self.entries[position_of(self.entries@, name)->0].1
    }

    /// The empty map.
    pub fn new() -> (map: Self)
        ensures
            map.well_formed(),
            map.entries@.len() == 0,
    {
        NameMap { entries: Vec::new() }
    }

    /// The number of entries.
    pub fn len(&self) -> (n: usize)
        ensures
            n == self.entries@.len(),
    {
        self.entries.len()
    }

    /// The place of a name among the entries: where it stands, or where it
    /// would have to stand.
    fn find(&self, name: &str) -> (res: (usize, bool))
        requires
            self.well_formed(),
        ensures
            res.0 <= self.entries.len(),
            res.1 ==> res.0 < self.entries.len() && self.entries[res.0 as int].0@ == name@,
            !res.1 ==> !self.has(name@),
            forall|i: int| 0 <= i < res.0 ==> name_before((#[trigger] self.entries[i]).0@, name@),
            !res.1 ==> forall|i: int|
                res.0 <= i < self.entries.len() ==> name_before(
                    name@,
                    (#[trigger] self.entries[i]).0@,
                ),
    {
        let mut i: usize = 0;
        while i < self.entries.len()
            invariant
                i <= self.entries.len(),
                self.well_formed(),
                forall|k: int| 0 <= k < i ==> name_before((#[trigger] self.entries[k]).0@, name@),
            decreases self.entries.len() - i,
        {
            match order_names(self.entries[i].0.as_str(), name) {
                Order::Before => {},
                Order::Same => {
                    return (i, true);
                },
                Order::After => {
                    proof {
                        let found = self.entries[i as int].0@;
                        lemma_before_total(encode_utf8(found), encode_utf8(name@));
                        lemma_name_bytes(found, name@);
                        assert forall|k: int| i <= k < self.entries.len() implies name_before(
                            name@,
                            (#[trigger] self.entries[k]).0@,
                        ) by {
                            if k > i {
                                lemma_before_transitive(
                                    encode_utf8(name@),
                                    encode_utf8(found),
                                    encode_utf8(self.entries[k].0@),
                                );
                            }
                        }
                        assert forall|k: int| 0 <= k < self.entries.len() implies (
                        #[trigger] self.entries[k]).0@ != name@ by {
                            lemma_before_irreflexive(encode_utf8(name@));
                        }
                    }
                    return (i, false);
                },
            }
            i += 1;
        }
        proof {
            assert forall|k: int| 0 <= k < self.entries.len() implies (
            #[trigger] self.entries[k]).0@ != name@ by {
                lemma_before_irreflexive(encode_utf8(name@));
            }
        }
        (i, false)
    }

    /// Finds a value by name, returning a reference if it exists.
    pub fn get(&self, name: &str) -> (res: Option<&V>)
        requires
            self.well_formed(),
        ensures
            res is Some <==> self.has(name@),
            res is Some ==> *res->0 == self.value(name@),
    {
        let (at, found) = self.find(name);
        if found {
            proof {
                let chosen = position_of(self.entries@, name@)->0;
                lemma_names_distinct(self.entries@, at as int, chosen);
            }
            Some(&self.entries[at].1)
        } else {
            None
        }
    }

    /// Puts a value under a name; a value that stood under the name before is
    /// replaced.
    pub fn insert(&mut self, name: String, value: V)
        requires
            old(self).well_formed(),
        ensures
            final(self).well_formed(),
            final(self).has(name@),
            final(self).value(name@) == value,
            forall|other: Seq<char>|
                other != name@ ==> (final(self).has(other) == old(self).has(other)) && (old(
                    self,
                ).has(other) ==> final(self).value(other) == old(self).value(other)),
            final(self).entries.len() == old(self).entries.len() + (if old(self).has(name@) {
                0int
            } else {
                1int
            }),
    {
        let (at, found) = self.find(name.as_str());
        if found {
            self.entries.remove(at);
        }
        self.entries.insert(at, (name, value));
        proof {
            let before = old(self).entries@;
            let after = self.entries@;
            let shift: int = if found { 0 } else { 1 };
            assert(after.len() == before.len() + shift);
            assert(after[at as int].0@ == name@);
            assert forall|i: int, j: int| 0 <= i < j < after.len() implies name_before(
                (#[trigger] after[i]).0@,
                (#[trigger] after[j]).0@,
            ) by {
                let bi = if i < at { i } else { i - shift };
                let bj = if j < at { j } else { j - shift };
                if i != at && j != at {
                    assert(after[i] == before[bi]);
                    assert(after[j] == before[bj]);
                } else if i == at {
                    assert(after[j] == before[bj]);
                    if found {
                        assert(before[at as int].0@ == name@);
                    }
                } else {
                    assert(after[i] == before[bi]);
                }
            }
            assert(final(self).has(name@));
            lemma_names_distinct(after, at as int, position_of(after, name@)->0);
            assert forall|other: Seq<char>| other != name@ implies (final(self).has(other) == old(
                self,
            ).has(other)) && (old(self).has(other) ==> final(self).value(other) == old(
                self,
            ).value(other)) by {
                if old(self).has(other) {
                    let k = position_of(before, other)->0;
                    let nk = if k < at { k } else { k + shift };
                    assert(after[nk] == before[k]);
                    assert(final(self).has(other));
                    lemma_names_distinct(after, nk, position_of(after, other)->0);
                }
                if final(self).has(other) {
                    let k = position_of(after, other)->0;
                    let bk = if k < at { k } else { k - shift };
                    assert(after[k] == before[bk]);
                    assert(old(self).has(other));
                }
            }
        }
    }

    /// The values in the order of their names.
    pub fn values(&self) -> (res: Vec<&V>)
        ensures
            res@.len() == self.entries@.len(),
            forall|i: int| 0 <= i < res@.len() ==> *(#[trigger] res@[i]) == self.entries@[i].1,
    {
        let mut res: Vec<&V> = Vec::new();
        let mut i: usize = 0;
        while i < self.entries.len()
            invariant
                i <= self.entries.len(),
                res@.len() == i,
                forall|k: int| 0 <= k < i ==> *(#[trigger] res@[k]) == self.entries@[k].1,
            decreases self.entries.len() - i,
        {
            res.push(&self.entries[i].1);
            i += 1;
        }
        res
    }
}

/// Whether one of the first `count` entries has the name.
pub open spec fn among<V>(entries: Seq<(String, V)>, name: Seq<char>, count: int) -> bool {
    exists|i: int| 0 <= i < count && i < entries.len() && (#[trigger] entries[i]).0@ == name
}

/// One entry more: the name is among them if it was before or if it is the name
/// of the new entry.
pub proof fn lemma_among_next<V>(entries: Seq<(String, V)>, name: Seq<char>, count: int)
    requires
        0 <= count < entries.len(),
    ensures
        among(entries, name, count + 1) <==> (among(entries, name, count) || entries[count].0@
            == name),
{
    if among(entries, name, count) {
        let i = choose|i: int|
            0 <= i < count && i < entries.len() && (#[trigger] entries[i]).0@ == name;
        assert(0 <= i < count + 1 && entries[i].0@ == name);
    }
    if entries[count].0@ == name {
        assert(0 <= count < count + 1 && entries[count].0@ == name);
    }
    if among(entries, name, count + 1) {
        let i = choose|i: int|
            0 <= i < count + 1 && i < entries.len() && (#[trigger] entries[i]).0@ == name;
        if i < count {
            assert(0 <= i < count && entries[i].0@ == name);
        }
    }
}

impl<V> NameMap<V> {
    /// Takes over every entry of another map; where both maps hold a name, the
    /// value of the other map stays.
    pub fn merge(&mut self, other: NameMap<V>)
        requires
            old(self).well_formed(),
            other.well_formed(),
        ensures
            final(self).well_formed(),
            forall|name: Seq<char>|
                #[trigger] final(self).has(name) <==> (old(self).has(name) || other.has(name)),
            forall|name: Seq<char>|
                other.has(name) ==> #[trigger] final(self).value(name) == other.value(name),
            forall|name: Seq<char>|
                old(self).has(name) && !other.has(name) ==> #[trigger] final(self).value(name)
                    == old(self).value(name),
    {
        let ghost all = other.entries@;
        let ghost start = *self;
        for entry in iter: other.entries
            invariant
                iter.seq() == all,
                all == other.entries@,
                other.well_formed(),
                self.well_formed(),
                forall|name: Seq<char>|
                    #[trigger] self.has(name) <==> (start.has(name) || among(
                        all,
                        name,
                        iter.index() as int,
                    )),
                forall|name: Seq<char>|
                    among(all, name, iter.index() as int) ==> #[trigger] self.value(name)
                        == other.value(name),
                forall|name: Seq<char>|
                    start.has(name) && !among(all, name, iter.index() as int)
                        ==> #[trigger] self.value(name) == start.value(name),
        {
            let ghost before = *self;
            let ghost at = iter.index() as int;
            let (name, value) = entry;
            assert(all[at] == entry);
            self.insert(name, value);
            proof {
                assert(other.has(name@));
                lemma_names_distinct(all, at, position_of(all, name@)->0);
                assert forall|text: Seq<char>| #[trigger]
                    self.has(text) <==> (start.has(text) || among(all, text, at + 1)) by {
                    lemma_among_next(all, text, at);
                    assert(before.has(text) <==> (start.has(text) || among(all, text, at)));
                }
                assert forall|text: Seq<char>| among(all, text, at + 1) implies #[trigger]
                    self.value(text) == other.value(text) by {
                    lemma_among_next(all, text, at);
                    if text != name@ {
                        assert(before.has(text) <==> (start.has(text) || among(all, text, at)));
                        assert(before.value(text) == other.value(text));
                    }
                }
                assert forall|text: Seq<char>|
                    start.has(text) && !among(all, text, at + 1) implies #[trigger] self.value(
                    text,
                ) == start.value(text) by {
                    lemma_among_next(all, text, at);
                    assert(before.has(text) <==> (start.has(text) || among(all, text, at)));
                    assert(before.value(text) == start.value(text));
                }
            }
        }
        proof {
            assert forall|name: Seq<char>| among(all, name, all.len() as int) <==> other.has(
                name,
            ) by {
                if among(all, name, all.len() as int) {
                    let i = choose|i: int|
                        0 <= i < all.len() && i < all.len() && (#[trigger] all[i]).0@ == name;
                    assert(other.entries[i].0@ == name);
                }
                if other.has(name) {
                    let i = choose|i: int|
                        0 <= i < other.entries.len() && (#[trigger] other.entries[i]).0@ == name;
                    assert(0 <= i < all.len() && all[i].0@ == name);
                }
            }
        }
    }
}

impl<V: Copy> NameMap<V> {
    /// A copy of the map.
    pub fn copy(&self) -> (res: Self)
        ensures
            res.entries@.len() == self.entries@.len(),
            forall|i: int|
                0 <= i < self.entries@.len() ==> (#[trigger] res.entries@[i]).0@
                    == self.entries@[i].0@ && res.entries@[i].1 == self.entries@[i].1,
            self.well_formed() ==> res.well_formed(),
            forall|name: Seq<char>| res.has(name) <==> self.has(name),
            self.well_formed() ==> forall|name: Seq<char>|
                self.has(name) ==> #[trigger] res.value(name) == self.value(name),
    {
        let mut entries: Vec<(String, V)> = Vec::new();
        let mut i: usize = 0;
        while i < self.entries.len()
            invariant
                i <= self.entries.len(),
                entries.len() == i,
                forall|k: int|
                    0 <= k < i ==> (#[trigger] entries@[k]).0@ == self.entries@[k].0@
                        && entries@[k].1 == self.entries@[k].1,
            decreases self.entries.len() - i,
        {
            entries.push((self.entries[i].0.clone(), self.entries[i].1));
            i += 1;
        }
        let res = NameMap { entries };
        proof {
            assert forall|name: Seq<char>| res.has(name) <==> self.has(name) by {
                if res.has(name) {
                    let k = choose|k: int|
                        0 <= k < res.entries.len() && (#[trigger] res.entries[k]).0@ == name;
                    assert(self.entries[k].0@ == name);
                }
                if self.has(name) {
                    let k = choose|k: int|
                        0 <= k < self.entries.len() && (#[trigger] self.entries[k]).0@ == name;
                    assert(res.entries[k].0@ == name);
                }
            }
            if self.well_formed() {
                assert forall|name: Seq<char>| self.has(name) implies #[trigger] res.value(name)
                    == self.value(name) by {
                    let a = position_of(self.entries@, name)->0;
                    let b = position_of(res.entries@, name)->0;
                    assert(self.entries[b].0@ == name);
                    assert(res.entries[a].0@ == name);
                    lemma_names_distinct(self.entries@, a, b);
                }
            }
        }
        res
    }
}

/// Names of which each comes before the next ascend.
pub proof fn lemma_neighbours_ascend<V>(entries: Seq<(String, V)>)
    requires
        forall|i: int|
            0 <= i < entries.len() - 1 ==> name_before(
                (#[trigger] entries[i]).0@,
                entries[i + 1].0@,
            ),
    ensures
        names_ascend(entries),
{
    assert forall|i: int, j: int| 0 <= i < j < entries.len() implies name_before(
        (#[trigger] entries[i]).0@,
        (#[trigger] entries[j]).0@,
    ) by {
        lemma_ascend_between(entries, i, j);
    }
}

proof fn lemma_ascend_between<V>(entries: Seq<(String, V)>, i: int, j: int)
    requires
        forall|i: int|
            0 <= i < entries.len() - 1 ==> name_before(
                (#[trigger] entries[i]).0@,
                entries[i + 1].0@,
            ),
        0 <= i < j < entries.len(),
    ensures
        name_before(entries[i].0@, entries[j].0@),
    decreases j - i,
{
    assert(name_before(entries[j - 1].0@, entries[j].0@));
    if i < j - 1 {
        lemma_ascend_between(entries, i, j - 1);
        lemma_before_transitive(
            encode_utf8(entries[i].0@),
            encode_utf8(entries[j - 1].0@),
            encode_utf8(entries[j].0@),
        );
    }
}

impl<V> NameMap<V> {
    /// Tests the invariant of the map.
    pub fn is_well_formed(&self) -> (b: bool)
        ensures
            b == self.well_formed(),
    {
        let mut i: usize = 1;
        while i < self.entries.len()
            invariant
                1 <= i,
                forall|k: int|
                    0 <= k < i - 1 && k < self.entries.len() - 1 ==> name_before(
                        (#[trigger] self.entries[k]).0@,
                        self.entries[k + 1].0@,
                    ),
            decreases self.entries.len() - i,
        {
            match order_names(self.entries[i - 1].0.as_str(), self.entries[i].0.as_str()) {
                Order::Before => {},
                _ => {
                    assert(!name_before(self.entries[i - 1].0@, self.entries[i as int].0@)) by {
                        lemma_before_total(
                            encode_utf8(self.entries[i - 1].0@),
                            encode_utf8(self.entries[i as int].0@),
                        );
                        lemma_before_irreflexive(encode_utf8(self.entries[i - 1].0@));
                        lemma_name_bytes(self.entries[i - 1].0@, self.entries[i as int].0@);
                    }
                    return false;
                },
            }
            i += 1;
        }
        proof {
            lemma_neighbours_ascend(self.entries@);
        }
        true
    }
}

} // verus!
