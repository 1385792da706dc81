//! Maps and sets keyed by name, kept in the order of the names.
//!
//! Names are ordered as `String` orders them: by the bytes of their UTF-8 encoding.
use vstd::prelude::*;
use vstd::utf8::encode_utf8;

use crate::text::views;

verus! {

/// Whether `a` and `b` agree before byte `i`, and `a` ends there or is smaller there.
pub open spec fn precedes_at(a: Seq<u8>, b: Seq<u8>, i: int) -> bool {
    &&& 0 <= i <= a.len()
    &&& i < b.len()
    &&& forall|j: int| 0 <= j < i ==> a[j] == b[j]
    &&& i < a.len() ==> a[i] < b[i]
}

/// Whether name `a` comes before name `b`.
pub open spec fn before(a: Seq<char>, b: Seq<char>) -> bool {
    exists|i: int| precedes_at(encode_utf8(a), encode_utf8(b), i)
}

/// Whether the names in `s` come in ascending order, none of them twice.
pub open spec fn ascending(s: Seq<Seq<char>>) -> bool {
    forall|i: int, j: int| 0 <= i < j < s.len() ==> before(#[trigger] s[i], #[trigger] s[j])
}

/// No name comes before itself.
pub proof fn before_is_irreflexive(a: Seq<char>)
    ensures
        !before(a, a),
{
}

/// Of three names, the first comes before the third if it comes before the second and
/// the second before the third.
pub proof fn before_is_transitive(a: Seq<char>, b: Seq<char>, c: Seq<char>)
    requires
        before(a, b),
        before(b, c),
    ensures
        before(a, c),
{
    let (x, y, z) = (encode_utf8(a), encode_utf8(b), encode_utf8(c));
    let i = choose|i: int| precedes_at(x, y, i);
    let j = choose|j: int| precedes_at(y, z, j);
    if i <= j {
        assert(precedes_at(x, z, i));
    } else {
        assert(precedes_at(x, z, j));
    }
}

/// Names in ascending order are pairwise different.
pub proof fn ascending_has_no_duplicates(s: Seq<Seq<char>>)
    requires
        ascending(s),
    ensures
        s.no_duplicates(),
{
    assert forall|i: int, j: int| 0 <= i < s.len() && 0 <= j < s.len() && i != j implies s[i]
        != s[j] by {
        if i < j {
            assert(before(s[i], s[j]));
            before_is_irreflexive(s[i]);
        } else {
            assert(before(s[j], s[i]));
            before_is_irreflexive(s[i]);
        }
    }
}

/// How a name stands to another in the order of names.
#[derive(Clone, Copy, PartialEq, Eq, Structural, Debug)]
pub enum NameOrder {
    Before,
    Same,
    After,
}

/// How `a` stands to `b`.
pub fn name_order(a: &str, b: &str) -> (r: NameOrder)
    ensures
        r is Before <==> before(a@, b@),
        r is Same <==> a@ == b@,
        r is After <==> before(b@, a@),
{
    let x: &[u8] = a.as_bytes();
    let y: &[u8] = b.as_bytes();
    proof {
        vstd::utf8::encode_utf8_decode_utf8(a@);
        vstd::utf8::encode_utf8_decode_utf8(b@);
        if before(a@, b@) {
            before_is_irreflexive(a@);
            if before(b@, a@) {
                before_is_transitive(a@, b@, a@);
            }
        }
        before_is_irreflexive(b@);
    }
    let mut i: usize = 0;
    while i < x.len() && i < y.len()
        invariant
            x@ == encode_utf8(a@),
            y@ == encode_utf8(b@),
            i <= x@.len(),
            i <= y@.len(),
            forall|j: int| 0 <= j < i ==> x@[j] == y@[j],
            !(before(a@, b@) && before(b@, a@)),
            !(before(a@, b@) && a@ == b@),
            !(before(b@, a@) && a@ == b@),
        decreases x@.len() - i,
    {
        if x[i] < y[i] {
            assert(precedes_at(x@, y@, i as int));
            return NameOrder::Before;
        }
        if y[i] < x[i] {
            assert(precedes_at(y@, x@, i as int));
            return NameOrder::After;
        }
        i += 1;
    }
    if i < y.len() {
        assert(precedes_at(x@, y@, i as int));
        NameOrder::Before
    } else if i < x.len() {
        assert(precedes_at(y@, x@, i as int));
        NameOrder::After
    } else {
        assert(x@ =~= y@);
        NameOrder::Same
    }
}

/// The names of `entries`, in their order.
pub open spec fn names_of<T>(entries: Seq<(String, T)>) -> Seq<Seq<char>> {
    entries.map_values(|e: (String, T)| e.0@)
}

/// The map that `entries` lists.
pub open spec fn map_of<T>(entries: Seq<(String, T)>) -> Map<Seq<char>, T> {
    Map::new(
        |k: Seq<char>| names_of(entries).contains(k),
        |k: Seq<char>| entries[names_of(entries).index_of(k)].1,
    )
}

/// Among ascending names, the place of a name is the one place where it stands.
proof fn place_is_unique<T>(entries: Seq<(String, T)>, i: int)
    requires
        ascending(names_of(entries)),
        0 <= i < entries.len(),
    ensures
        names_of(entries).index_of(entries[i].0@) == i,
        map_of(entries).dom().contains(entries[i].0@),
        map_of(entries)[entries[i].0@] == entries[i].1,
{
    let names = names_of(entries);
    ascending_has_no_duplicates(names);
    assert(names[i] == entries[i].0@);
    let k = names.index_of(entries[i].0@);
    assert(names.contains(names[i]));
    assert(0 <= k < names.len() && names[k] == names[i]);
}

/// Putting an entry where its name belongs keeps the order and adds the entry to the map.
proof fn insert_keeps_order<T>(entries: Seq<(String, T)>, i: int, name: String, value: T)
    requires
        ascending(names_of(entries)),
        0 <= i <= entries.len(),
        forall|j: int| 0 <= j < i ==> before(#[trigger] names_of(entries)[j], name@),
        forall|j: int|
            i <= j < entries.len() ==> before(name@, #[trigger] names_of(entries)[j]),
    ensures
        ascending(names_of(entries.insert(i, (name, value)))),
        map_of(entries.insert(i, (name, value))) == map_of(entries).insert(name@, value),
        !map_of(entries).dom().contains(name@),
{
    let after = entries.insert(i, (name, value));
    let (old_names, new_names) = (names_of(entries), names_of(after));
    assert(new_names =~= old_names.insert(i, name@));
    assert forall|a: int, b: int| 0 <= a < b < new_names.len() implies before(
        #[trigger] new_names[a],
        #[trigger] new_names[b],
    ) by {
        let oa = if a < i { a } else { a - 1 };
        let ob = if b < i { b } else { b - 1 };
        if a != i {
            assert(new_names[a] == old_names[oa]);
        }
        if b != i {
            assert(new_names[b] == old_names[ob]);
        }
    }
    let (m, n) = (map_of(entries), map_of(after));
    assert forall|k: Seq<char>| n.dom().contains(k) == (m.dom().contains(k) || k == name@) by {
        if old_names.contains(k) {
            let a = old_names.index_of(k);
            let na = if a < i { a } else { a + 1 };
            assert(new_names[na] == k);
        }
        if k == name@ {
            assert(new_names[i] == k);
        }
        if new_names.contains(k) && k != name@ {
            let a = new_names.index_of(k);
            let oa = if a < i { a } else { a - 1 };
            assert(old_names[oa] == k);
        }
    }
    assert forall|k: Seq<char>| n.dom().contains(k) implies n[k] == m.insert(name@, value)[k] by {
        let a = new_names.index_of(k);
        place_is_unique(after, a);
        if k == name@ {
            assert(after[i].0@ == name@);
            place_is_unique(after, i);
        } else {
            let oa = if a < i { a } else { a - 1 };
            assert(entries[oa] == after[a]);
            place_is_unique(entries, oa);
        }
    }
    assert(n =~= m.insert(name@, value));
    if old_names.contains(name@) {
        let a = old_names.index_of(name@);
        before_is_irreflexive(name@);
        assert(old_names[a] == name@);
    }
}

/// Taking an entry out keeps the order and takes its name out of the map.
proof fn remove_keeps_order<T>(entries: Seq<(String, T)>, i: int)
    requires
        ascending(names_of(entries)),
        0 <= i < entries.len(),
    ensures
        ascending(names_of(entries.remove(i))),
        map_of(entries.remove(i)) == map_of(entries).remove(entries[i].0@),
{
    let after = entries.remove(i);
    let key = entries[i].0@;
    let (old_names, new_names) = (names_of(entries), names_of(after));
    ascending_has_no_duplicates(old_names);
    assert(new_names =~= old_names.remove(i));
    assert forall|a: int, b: int| 0 <= a < b < new_names.len() implies before(
        #[trigger] new_names[a],
        #[trigger] new_names[b],
    ) by {
        let oa = if a < i { a } else { a + 1 };
        let ob = if b < i { b } else { b + 1 };
        assert(new_names[a] == old_names[oa]);
        assert(new_names[b] == old_names[ob]);
    }
    let (m, n) = (map_of(entries), map_of(after));
    assert(old_names[i] == key);
    assert forall|k: Seq<char>| n.dom().contains(k) == (m.dom().contains(k) && k != key) by {
        if old_names.contains(k) && k != key {
            let a = old_names.index_of(k);
            let na = if a < i { a } else { a - 1 };
            assert(new_names[na] == k);
        }
        if new_names.contains(k) {
            let a = new_names.index_of(k);
            let oa = if a < i { a } else { a + 1 };
            assert(old_names[oa] == k);
        }
    }
    assert forall|k: Seq<char>| n.dom().contains(k) implies n[k] == m[k] by {
        let a = new_names.index_of(k);
        let oa = if a < i { a } else { a + 1 };
        assert(entries[oa] == after[a]);
        place_is_unique(entries, oa);
    }
    assert(n =~= m.remove(key));
}

/// A map from names to values, in ascending order of the names.
pub struct NameMap<T> {
    entries: Vec<(String, T)>,
}

impl<T> View for NameMap<T> {
    type V = Map<Seq<char>, T>;

    closed spec fn view(&self) -> Map<Seq<char>, T> {
        map_of(self.entries@)
    }
}

impl<T> NameMap<T> {
    #[verifier::type_invariant]
    closed spec fn in_order(self) -> bool {
        ascending(names_of(self.entries@))
    }

    /// An empty map.
    pub fn new() -> (r: NameMap<T>)
        ensures
            r@ == Map::<Seq<char>, T>::empty(),
    {
        let r: NameMap<T> = NameMap { entries: Vec::new() };
        assert(r@ =~= Map::<Seq<char>, T>::empty());
        r
    }

    /// Where `name` stands, or would stand, among the entries.
    fn locate(&self, name: &str) -> (r: (usize, bool))
        ensures
            r.0 <= self.entries@.len(),
            forall|j: int| 0 <= j < r.0 ==> before(#[trigger] names_of(self.entries@)[j], name@),
            r.1 ==> r.0 < self.entries@.len() && self.entries@[r.0 as int].0@ == name@,
            !r.1 ==> forall|j: int|
                r.0 <= j < self.entries@.len() ==> before(
                    name@,
                    #[trigger] names_of(self.entries@)[j],
                ),
            r.1 == self@.dom().contains(name@),
            r.1 ==> self@[name@] == self.entries@[r.0 as int].1,
    {
        proof {
            use_type_invariant(self);
        }
        let ghost names = names_of(self.entries@);
        let mut i: usize = 0;
        while i < self.entries.len()
            invariant
                i <= self.entries@.len(),
                names == names_of(self.entries@),
                forall|j: int| 0 <= j < i ==> before(#[trigger] names[j], name@),
                ascending(names),
            decreases self.entries@.len() - i,
        {
            let order: NameOrder = name_order(self.entries[i].0.as_str(), name);
            assert(names[i as int] == self.entries@[i as int].0@);
            match order {
                NameOrder::Before => {
                    i += 1;
                },
                NameOrder::Same => {
                    proof {
                        place_is_unique(self.entries@, i as int);
                    }
                    return (i, true);
                },
                NameOrder::After => {
                    proof {
                        assert forall|j: int| i <= j < self.entries@.len() implies before(
                            name@,
                            #[trigger] names[j],
                        ) by {
                            if j > i {
                                before_is_transitive(name@, names[i as int], names[j]);
                            }
                        }
                        assert forall|j: int| 0 <= j < names.len() implies names[j] != name@ by {
                            before_is_irreflexive(name@);
                        }
                    }
                    return (i, false);
                },
            }
        }
        proof {
            assert forall|j: int| 0 <= j < names.len() implies names[j] != name@ by {
                before_is_irreflexive(name@);
            }
        }
        (i, false)
    }

    /// The value at `name`, if the map has one.
    pub fn get(&self, name: &str) -> (r: Option<&T>)
        ensures
            r is Some <==> self@.dom().contains(name@),
            r matches Some(v) ==> *v == self@[name@],
    {
        let (i, found): (usize, bool) = self.locate(name);
        if found {
            Some(&self.entries[i].1)
        } else {
            None
        }
    }

    /// Whether the map has a value at `name`.
    pub fn contains_key(&self, name: &str) -> (r: bool)
        ensures
            r == self@.dom().contains(name@),
    {
        self.locate(name).1
    }

    /// Puts `value` at `name`, and gives back the value that was there before.
    pub fn insert(&mut self, name: String, value: T) -> (r: Option<T>)
        ensures
            final(self)@ == old(self)@.insert(name@, value),
            r is Some <==> old(self)@.dom().contains(name@),
            r matches Some(v) ==> v == old(self)@[name@],
    {
        let (i, found): (usize, bool) = self.locate(name.as_str());
        let mut entries: Vec<(String, T)> = Vec::new();
        proof {
            use_type_invariant(&*self);
        }
        core::mem::swap(&mut self.entries, &mut entries);
        let ghost before_call = entries@;
        let replaced: Option<T> = if found {
            proof {
                remove_keeps_order(entries@, i as int);
                let names = names_of(entries@);
                assert(names[i as int] == name@);
                assert(names_of(entries@.remove(i as int)) =~= names.remove(i as int));
                assert forall|j: int| i <= j < entries@.len() - 1 implies before(
                    name@,
                    #[trigger] names_of(entries@.remove(i as int))[j],
                ) by {
                    assert(names.remove(i as int)[j] == names[j + 1]);
                }
                assert forall|j: int| 0 <= j < i implies before(
                    #[trigger] names_of(entries@.remove(i as int))[j],
                    name@,
                ) by {
                    assert(names.remove(i as int)[j] == names[j]);
                }
            }
            let e: (String, T) = entries.remove(i);
            Some(e.1)
        } else {
            None
        };
        proof {
            insert_keeps_order(entries@, i as int, name, value);
            assert(map_of(before_call).remove(name@).insert(name@, value) =~= map_of(
                before_call,
            ).insert(name@, value));
        }
        entries.insert(i, (name, value));
        core::mem::swap(&mut self.entries, &mut entries);
        replaced
    }

    /// Takes `name` out of the map, and gives back the value that was there.
    pub fn remove(&mut self, name: &str) -> (r: Option<T>)
        ensures
            final(self)@ == old(self)@.remove(name@),
            r is Some <==> old(self)@.dom().contains(name@),
            r matches Some(v) ==> v == old(self)@[name@],
    {
        let (i, found): (usize, bool) = self.locate(name);
        if found {
            let mut entries: Vec<(String, T)> = Vec::new();
            proof {
                use_type_invariant(&*self);
            }
            core::mem::swap(&mut self.entries, &mut entries);
            proof {
                remove_keeps_order(entries@, i as int);
            }
            let e: (String, T) = entries.remove(i);
            core::mem::swap(&mut self.entries, &mut entries);
            Some(e.1)
        } else {
            assert(self@.remove(name@) =~= self@);
            None
        }
    }

    /// How many names the map has.
    pub fn len(&self) -> (r: usize)
        ensures
            r == self@.dom().len(),
            self@.dom().finite(),
    {
        proof {
            use_type_invariant(self);
            let names = names_of(self.entries@);
            ascending_has_no_duplicates(names);
            names.unique_seq_to_set();
            assert(self@.dom() =~= names.to_set());
        }
        self.entries.len()
    }

    /// The names in the map, in ascending order.
    pub fn keys(&self) -> (r: Vec<String>)
        ensures
            ascending(views(r@)),
            views(r@).to_set() == self@.dom(),
    {
        proof {
            use_type_invariant(self);
        }
        let mut out: Vec<String> = Vec::new();
        let mut i: usize = 0;
        while i < self.entries.len()
            invariant
                i <= self.entries@.len(),
                views(out@) == names_of(self.entries@).take(i as int),
            decreases self.entries@.len() - i,
        {
            out.push(self.entries[i].0.clone());
            proof {
                let names = names_of(self.entries@);
                assert(names.take(i + 1) =~= names.take(i as int).push(names[i as int]));
                assert(views(out@) =~= names.take(i + 1));
            }
            i += 1;
        }
        proof {
            let names = names_of(self.entries@);
            assert(names.take(names.len() as int) =~= names);
            assert(names.to_set() =~= self@.dom());
        }
        out
    }

    /// The map, leaving an empty one in its place.
    pub fn take(&mut self) -> (r: NameMap<T>)
        ensures
            r@ == old(self)@,
            final(self)@ == Map::<Seq<char>, T>::empty(),
    {
        let mut r: NameMap<T> = NameMap::new();
        core::mem::swap(self, &mut r);
        r
    }

    /// The entries of the map, in ascending order of their names.
    pub fn into_entries(self) -> (r: Vec<(String, T)>)
        ensures
            ascending(names_of(r@)),
            map_of(r@) == self@,
    {
        proof {
            use_type_invariant(&self);
        }
        self.entries
    }
}

impl<T> NameMap<T> {
    /// Puts every entry of `other` into the map.
    pub fn absorb(&mut self, other: NameMap<T>)
        ensures
            final(self)@ == old(self)@.union_prefer_right(other@),
    {
        let ghost full = other@;
        let mut entries: Vec<(String, T)> = other.into_entries();
        while entries.len() > 0
            invariant
                ascending(names_of(entries@)),
                map_of(entries@).submap_of(full),
                self@ =~= old(self)@.union_prefer_right(
                    full.remove_keys(map_of(entries@).dom()),
                ),
            decreases entries@.len(),
        {
            let ghost last = entries@.len() - 1;
            proof {
                place_is_unique(entries@, last);
                remove_keeps_order(entries@, last);
                assert(entries@.remove(last) =~= entries@.drop_last());
            }
            match entries.pop() {
                Some(e) => {
                    let (name, value): (String, T) = e;
                    self.insert(name, value);
                },
                None => {},
            }
        }
        assert(map_of(entries@) =~= Map::<Seq<char>, T>::empty());
        assert(self@ =~= old(self)@.union_prefer_right(full));
    }

    /// Keeps the entries whose names are in `keep`, and gives back the others.
    pub fn split_off_except(&mut self, keep: &NameSet) -> (r: NameMap<T>)
        ensures
            final(self)@ == old(self)@.restrict(keep@),
            r@ == old(self)@.remove_keys(keep@),
    {
        let ghost full = self@;
        let mut entries: Vec<(String, T)> = self.take().into_entries();
        let mut others: NameMap<T> = NameMap::new();
        assert(self@ =~= full.remove_keys(map_of(entries@).dom()).restrict(keep@));
        assert(others@ =~= full.remove_keys(map_of(entries@).dom()).remove_keys(keep@));
        while entries.len() > 0
            invariant
                ascending(names_of(entries@)),
                map_of(entries@).submap_of(full),
                self@ =~= full.remove_keys(map_of(entries@).dom()).restrict(keep@),
                others@ =~= full.remove_keys(map_of(entries@).dom()).remove_keys(keep@),
            decreases entries@.len(),
        {
            let ghost last = entries@.len() - 1;
            proof {
                place_is_unique(entries@, last);
                remove_keeps_order(entries@, last);
                assert(entries@.remove(last) =~= entries@.drop_last());
            }
            match entries.pop() {
                Some(e) => {
                    let (name, value): (String, T) = e;
                    if keep.contains(name.as_str()) {
                        self.insert(name, value);
                    } else {
                        others.insert(name, value);
                    }
                },
                None => {},
            }
        }
        assert(map_of(entries@) =~= Map::<Seq<char>, T>::empty());
        assert(self@ =~= full.restrict(keep@));
        assert(others@ =~= full.remove_keys(keep@));
        others
    }
}

/// A set of names, in ascending order.
pub struct NameSet {
    members: NameMap<()>,
}

impl View for NameSet {
    type V = Set<Seq<char>>;

    closed spec fn view(&self) -> Set<Seq<char>> {
        self.members@.dom()
    }
}

impl NameSet {
    /// An empty set.
    pub fn new() -> (r: NameSet)
        ensures
            r@ == Set::<Seq<char>>::empty(),
    {
        let r: NameSet = NameSet { members: NameMap::new() };
        assert(r@ =~= Set::<Seq<char>>::empty());
        r
    }

    /// Whether `name` is in the set.
    pub fn contains(&self, name: &str) -> (r: bool)
        ensures
            r == self@.contains(name@),
    {
        self.members.contains_key(name)
    }

    /// Puts `name` into the set; whether it was absent before.
    pub fn insert(&mut self, name: String) -> (r: bool)
        ensures
            final(self)@ == old(self)@.insert(name@),
            r == !old(self)@.contains(name@),
    {
        let ghost key = name@;
        let replaced: Option<()> = self.members.insert(name, ());
        assert(self@ =~= old(self)@.insert(key));
        replaced.is_none()
    }

    /// Takes `name` out of the set; whether it was present before.
    pub fn remove(&mut self, name: &str) -> (r: bool)
        ensures
            final(self)@ == old(self)@.remove(name@),
            r == old(self)@.contains(name@),
    {
        let removed: Option<()> = self.members.remove(name);
        assert(self@ =~= old(self)@.remove(name@));
        removed.is_some()
    }

    /// How many names the set has.
    pub fn len(&self) -> (r: usize)
        ensures
            r == self@.len(),
            self@.finite(),
    {
        self.members.len()
    }

    /// The names in the set, in ascending order.
    pub fn names(&self) -> (r: Vec<String>)
        ensures
            ascending(views(r@)),
            views(r@).to_set() == self@,
    {
        self.members.keys()
    }
}

/// Of two names one comes before the other, unless they are the same: a name comes before every
/// longer one whose bytes start with its own, and where two names first differ the smaller byte
/// comes before the larger.
pub proof fn names_are_ordered_by_their_bytes(a: Seq<char>, b: Seq<char>, i: int)
    ensures
        before(a, b) || a == b || before(b, a),
        !(before(a, b) && before(b, a)),
        ({
            let (x, y) = (encode_utf8(a), encode_utf8(b));
            &&& x.len() < y.len() && y.take(x.len() as int) == x ==> before(a, b)
            &&& 0 <= i < x.len() && i < y.len() && x.take(i) == y.take(i) && x[i] < y[i] ==> before(
                a,
                b,
            )
        }),
{
    let (x, y) = (encode_utf8(a), encode_utf8(b));
    if x.len() < y.len() && y.take(x.len() as int) == x {
        assert forall|j: int| 0 <= j < x.len() implies x[j] == y[j] by {
            assert(y.take(x.len() as int)[j] == y[j]);
        }
        assert(precedes_at(x, y, x.len() as int));
    }
    if 0 <= i < x.len() && i < y.len() && x.take(i) == y.take(i) && x[i] < y[i] {
        assert forall|j: int| 0 <= j < i implies x[j] == y[j] by {
            assert(x.take(i)[j] == y.take(i)[j]);
        }
        assert(precedes_at(x, y, i));
    }
    if before(a, b) && before(b, a) {
        before_is_transitive(a, b, a);
        before_is_irreflexive(a);
    }
    some_name_is_first(a, b, 0);
}

/// Names that agree before byte `i` are the same, or one comes before the other.
proof fn some_name_is_first(a: Seq<char>, b: Seq<char>, i: int)
    requires
        0 <= i <= encode_utf8(a).len(),
        i <= encode_utf8(b).len(),
        forall|j: int| 0 <= j < i ==> encode_utf8(a)[j] == encode_utf8(b)[j],
    ensures
        before(a, b) || a == b || before(b, a),
    decreases encode_utf8(a).len() - i,
{
    let (x, y) = (encode_utf8(a), encode_utf8(b));
    if i == x.len() && i == y.len() {
        assert(x =~= y);
        vstd::utf8::encode_utf8_decode_utf8(a);
        vstd::utf8::encode_utf8_decode_utf8(b);
    } else if i == x.len() {
        assert(precedes_at(x, y, i));
    } else if i == y.len() {
        assert(precedes_at(y, x, i));
    } else if x[i] < y[i] {
        assert(precedes_at(x, y, i));
    } else if y[i] < x[i] {
        assert(precedes_at(y, x, i));
    } else {
        some_name_is_first(a, b, i + 1);
    }
}

/// A name stands before another just where its bytes end first or are smaller where the two first
/// differ, and is the same just where every character is.
pub proof fn names_are_put_in_the_order_of_their_bytes(a: &str, b: &str, r: NameOrder, i: int)
    requires
        call_ensures(name_order, (a, b), r),
    ensures
        ({
            let (x, y) = (encode_utf8(a@), encode_utf8(b@));
            let differ = 0 <= i < x.len() && i < y.len() && x.take(i) == y.take(i);
            &&& r is Same <==> a@ == b@
            &&& x.len() < y.len() && y.take(x.len() as int) == x ==> r is Before
            &&& y.len() < x.len() && x.take(y.len() as int) == y ==> r is After
            &&& differ && x[i] < y[i] ==> r is Before
            &&& differ && y[i] < x[i] ==> r is After
        }),
{
    names_are_ordered_by_their_bytes(a@, b@, i);
    names_are_ordered_by_their_bytes(b@, a@, i);
}

/// What is put into a map is read back from it, in place of what was there, which is handed out;
/// what is taken out of it is handed out and no longer there. Under every other name the map has
/// what it had.
pub proof fn maps_hold_what_is_put_into_them<T>(
    inserted: &mut NameMap<T>,
    name: String,
    value: T,
    replaced: Option<T>,
    removed: &mut NameMap<T>,
    gone: &str,
    taken: Option<T>,
    key: &str,
    before_insert: Option<&T>,
    after_insert: Option<&T>,
    before_remove: Option<&T>,
    after_remove: Option<&T>,
)
    requires
        call_ensures(NameMap::<T>::insert, (inserted, name, value), replaced),
        call_ensures(NameMap::<T>::remove, (removed, gone), taken),
        call_ensures(NameMap::<T>::get, (&*old(inserted), key), before_insert),
        call_ensures(NameMap::<T>::get, (&*final(inserted), key), after_insert),
        call_ensures(NameMap::<T>::get, (&*old(removed), key), before_remove),
        call_ensures(NameMap::<T>::get, (&*final(removed), key), after_remove),
    ensures
        key@ == name@ ==> after_insert is Some && *after_insert->0 == value && (replaced is Some
            <==> before_insert is Some) && (replaced is Some ==> replaced->0
            == *before_insert->0),
        key@ != name@ ==> (after_insert is Some <==> before_insert is Some) && (
        after_insert is Some ==> *after_insert->0 == *before_insert->0),
        key@ == gone@ ==> after_remove is None && (taken is Some <==> before_remove is Some) && (
        taken is Some ==> taken->0 == *before_remove->0),
        key@ != gone@ ==> (after_remove is Some <==> before_remove is Some) && (
        after_remove is Some ==> *after_remove->0 == *before_remove->0),
{
}

/// A map has a name just where it has a value there; a new one has none, and one that is taken
/// away leaves none behind.
pub proof fn maps_have_the_names_of_their_values<T>(
    map: &mut NameMap<T>,
    taken: NameMap<T>,
    empty: NameMap<T>,
    key: &str,
    has: bool,
    before: Option<&T>,
    after: Option<&T>,
    in_taken: Option<&T>,
    in_empty: Option<&T>,
)
    requires
        call_ensures(NameMap::<T>::new, (), empty),
        call_ensures(NameMap::<T>::take, (map,), taken),
        call_ensures(NameMap::<T>::contains_key, (&*old(map), key), has),
        call_ensures(NameMap::<T>::get, (&*old(map), key), before),
        call_ensures(NameMap::<T>::get, (&*final(map), key), after),
        call_ensures(NameMap::<T>::get, (&taken, key), in_taken),
        call_ensures(NameMap::<T>::get, (&empty, key), in_empty),
    ensures
        has <==> before is Some,
        in_empty is None,
        after is None,
        in_taken is Some <==> before is Some,
        in_taken is Some ==> *in_taken->0 == *before->0,
{
}

/// A map that takes up another has what either had, and where both had something what the other
/// had. A map that is split keeps what is under the names to keep and hands out the rest.
pub proof fn maps_are_put_together_and_split<T>(
    whole: &mut NameMap<T>,
    other: NameMap<T>,
    split: &mut NameMap<T>,
    keep: NameSet,
    rest: NameMap<T>,
    k: Seq<char>,
)
    requires
        call_ensures(NameMap::<T>::absorb, (whole, other), ()),
        call_ensures(NameMap::<T>::split_off_except, (split, &keep), rest),
    ensures
        final(whole)@.dom().contains(k) <==> old(whole)@.dom().contains(k)
            || other@.dom().contains(k),
        other@.dom().contains(k) ==> final(whole)@[k] == other@[k],
        old(whole)@.dom().contains(k) && !other@.dom().contains(k) ==> final(whole)@[k] == old(
            whole,
        )@[k],
        final(split)@.dom().contains(k) <==> old(split)@.dom().contains(k) && keep@.contains(k),
        final(split)@.dom().contains(k) ==> final(split)@[k] == old(split)@[k],
        rest@.dom().contains(k) <==> old(split)@.dom().contains(k) && !keep@.contains(k),
        rest@.dom().contains(k) ==> rest@[k] == old(split)@[k],
{
}

/// The names of a map are listed each once, in the order of their bytes, as many as there are; and
/// so are its entries.
pub proof fn names_are_listed_in_order<T>(
    map: NameMap<T>,
    names: Vec<String>,
    len: usize,
    entries: Vec<(String, T)>,
    key: &str,
    has: bool,
    i: int,
    j: int,
)
    requires
        call_ensures(NameMap::<T>::keys, (&map,), names),
        call_ensures(NameMap::<T>::len, (&map,), len),
        call_ensures(NameMap::<T>::into_entries, (map,), entries),
        call_ensures(NameMap::<T>::contains_key, (&map, key), has),
    ensures
        names@.len() == len,
        has <==> exists|k: int| 0 <= k < names@.len() && (#[trigger] names@[k])@ == key@,
        0 <= i < j < names@.len() ==> before(names@[i]@, names@[j]@),
        0 <= i < j < entries@.len() ==> before(entries@[i].0@, entries@[j].0@),
        0 <= i < entries@.len() ==> map@.dom().contains(entries@[i].0@) && map@[entries@[i].0@]
            == entries@[i].1,
        has ==> exists|k: int| 0 <= k < entries@.len() && (#[trigger] entries@[k]).0@ == key@,
{
    let all = views(names@);
    ascending_has_no_duplicates(all);
    all.unique_seq_to_set();
    assert(all.to_set().contains(key@) == all.contains(key@));
    if has {
        let k = all.index_of(key@);
        assert(names@[k]@ == key@);
        let listed = names_of(entries@);
        let m = listed.index_of(key@);
        assert(map_of(entries@).dom().contains(key@));
        assert(listed.contains(key@));
        assert(entries@[m].0@ == key@);
    }
    if exists|k: int| 0 <= k < names@.len() && (#[trigger] names@[k])@ == key@ {
        let k = choose|k: int| 0 <= k < names@.len() && (#[trigger] names@[k])@ == key@;
        assert(all[k] == key@);
    }
    if 0 <= i < j < names@.len() {
        assert(before(all[i], all[j]));
    }
    if 0 <= i < j < entries@.len() {
        assert(before(names_of(entries@)[i], names_of(entries@)[j]));
    }
    if 0 <= i < entries@.len() {
        place_is_unique(entries@, i);
    }
}

/// What is put into a set is in it, and what is taken out of it is not; whether it was there before
/// is told. Every other name is in the set just where it was.
pub proof fn sets_hold_what_is_put_into_them(
    inserted: &mut NameSet,
    name: String,
    absent: bool,
    removed: &mut NameSet,
    gone: &str,
    present: bool,
    empty: NameSet,
    key: &str,
    before_insert: bool,
    after_insert: bool,
    before_remove: bool,
    after_remove: bool,
    in_empty: bool,
)
    requires
        call_ensures(NameSet::new, (), empty),
        call_ensures(NameSet::insert, (inserted, name), absent),
        call_ensures(NameSet::remove, (removed, gone), present),
        call_ensures(NameSet::contains, (&*old(inserted), key), before_insert),
        call_ensures(NameSet::contains, (&*final(inserted), key), after_insert),
        call_ensures(NameSet::contains, (&*old(removed), key), before_remove),
        call_ensures(NameSet::contains, (&*final(removed), key), after_remove),
        call_ensures(NameSet::contains, (&empty, key), in_empty),
    ensures
        !in_empty,
        key@ == name@ ==> after_insert && absent == !before_insert,
        key@ != name@ ==> after_insert == before_insert,
        key@ == gone@ ==> !after_remove && present == before_remove,
        key@ != gone@ ==> after_remove == before_remove,
{
}

/// The names of a set are listed each once, in the order of their bytes, as many as there are.
pub proof fn members_are_listed_in_order(
    set: NameSet,
    names: Vec<String>,
    len: usize,
    key: &str,
    has: bool,
    i: int,
    j: int,
)
    requires
        call_ensures(NameSet::names, (&set,), names),
        call_ensures(NameSet::len, (&set,), len),
        call_ensures(NameSet::contains, (&set, key), has),
    ensures
        names@.len() == len,
        has <==> exists|k: int| 0 <= k < names@.len() && (#[trigger] names@[k])@ == key@,
        0 <= i < j < names@.len() ==> before(names@[i]@, names@[j]@),
{
    let all = views(names@);
    ascending_has_no_duplicates(all);
    all.unique_seq_to_set();
    assert(all.to_set().contains(key@) == all.contains(key@));
    if has {
        let k = all.index_of(key@);
        assert(names@[k]@ == key@);
    }
    if exists|k: int| 0 <= k < names@.len() && (#[trigger] names@[k])@ == key@ {
        let k = choose|k: int| 0 <= k < names@.len() && (#[trigger] names@[k])@ == key@;
        assert(all[k] == key@);
    }
    if 0 <= i < j < names@.len() {
        assert(before(all[i], all[j]));
    }
}

} // verus!
