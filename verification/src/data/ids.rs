//! Dense integer handles, and the interner that assigns them to names.

use vstd::hash_map::StringHashMap;
use vstd::prelude::*;

verus! {

/// Handle of a good: its index in the catalogue's goods.
#[derive(Debug, Copy, Clone, Eq, PartialEq, Hash, Structural)]
pub struct GoodId(pub u32);

/// Handle of a need: its index in the catalogue's needs.
#[derive(Debug, Copy, Clone, Eq, PartialEq, Hash, Structural)]
pub struct NeedId(pub u32);

/// Handle of a household archetype.
#[derive(Debug, Copy, Clone, Eq, PartialEq, Hash, Structural)]
pub struct HouseholdTypeId(pub u32);

/// Handle of a production rule.
#[derive(Debug, Copy, Clone, Eq, PartialEq, Hash, Structural)]
pub struct RuleId(pub u32);

/// Handle of a stock.
#[derive(Debug, Copy, Clone, Eq, PartialEq, Hash, Structural)]
pub struct StockId(pub u32);

/// The names that have an id after the first `n` of `names` have been
/// interned one after the other: each name once, in the order of first
/// occurrence.
pub open spec fn interned(names: Seq<Seq<char>>, n: nat) -> Seq<Seq<char>>
    decreases n,
{
    if n == 0 {
        Seq::empty()
    } else {
        let before = interned(names, (n - 1) as nat);
        if before.contains(names[n - 1]) {
            before
        } else {
            before.push(names[n - 1])
        }
    }
}

/// The position of the last of the first `n` of `names` that is `name`, or -1
/// if none of them is.
pub open spec fn last_named(names: Seq<Seq<char>>, name: Seq<char>, n: nat) -> int
    decreases n,
{
    if n == 0 {
        -1
    } else if names[n - 1] == name {
        n - 1
    } else {
        last_named(names, name, (n - 1) as nat)
    }
}

/// Whether `id` is the id under which `name` stands in `ids`.
pub open spec fn refers(ids: Seq<Seq<char>>, id: u32, name: Seq<char>) -> bool {
    id < ids.len() && ids[id as int] == name
}

/// The position of the first of the first `n` of `refs` that is not among
/// `ids`, or -1 if all of them are.
pub open spec fn first_unknown(refs: Seq<Seq<char>>, ids: Seq<Seq<char>>, n: nat) -> int
    decreases n,
{
    if n == 0 {
        -1
    } else {
        let before = first_unknown(refs, ids, (n - 1) as nat);
        if before >= 0 {
            before
        } else if ids.contains(refs[n - 1]) {
            -1
        } else {
            n - 1
        }
    }
}

/// The last position of a name lies among the positions looked at, and holds
/// that name.
pub proof fn lemma_last_named(names: Seq<Seq<char>>, name: Seq<char>, n: nat)
    requires
        n <= names.len(),
    ensures
        -1 <= last_named(names, name, n) < n,
        last_named(names, name, n) >= 0 ==> names[last_named(names, name, n)] == name,
        last_named(names, name, n) == -1 ==> forall|j: int| 0 <= j < n ==> names[j] != name,
    decreases n,
{
    if n > 0 && names[n - 1] != name {
        lemma_last_named(names, name, (n - 1) as nat);
    }
}

/// Interning never yields more ids than names, every name interned is one of
/// the names, and every one of the names has an id.
pub proof fn lemma_interned(names: Seq<Seq<char>>, n: nat)
    requires
        n <= names.len(),
    ensures
        interned(names, n).len() <= n,
        forall|k: int|
            0 <= k < interned(names, n).len() ==> last_named(
                names,
                #[trigger] interned(names, n)[k],
                n,
            ) >= 0,
        forall|j: int| 0 <= j < n ==> interned(names, n).contains(#[trigger] names[j]),
    decreases n,
{
    if n > 0 {
        let before = interned(names, (n - 1) as nat);
        let now = interned(names, n);
        lemma_interned(names, (n - 1) as nat);
        assert forall|k: int| 0 <= k < now.len() implies last_named(names, #[trigger] now[k], n)
            >= 0 by {
            if k < before.len() {
                assert(now[k] == before[k]);
            }
        }
        assert forall|j: int| 0 <= j < n implies now.contains(#[trigger] names[j]) by {
            if j < n - 1 {
                assert(before.contains(names[j]));
                let w = choose|w: int| 0 <= w < before.len() && before[w] == names[j];
                assert(now[w] == names[j]);
            } else if before.contains(names[j]) {
            } else {
                assert(now[before.len() as int] == names[j]);
            }
        }
    }
}

/// Once a reference is found unknown, it stays the first unknown one however
/// many more references are looked at.
pub proof fn lemma_first_unknown_stays(
    refs: Seq<Seq<char>>,
    ids: Seq<Seq<char>>,
    m: nat,
    n: nat,
)
    requires
        m <= n,
        first_unknown(refs, ids, m) >= 0,
    ensures
        first_unknown(refs, ids, n) == first_unknown(refs, ids, m),
    decreases n,
{
    if n > m {
        lemma_first_unknown_stays(refs, ids, m, (n - 1) as nat);
    }
}

/// Assigns the ids 0, 1, 2, ... to names in the order in which they are first
/// seen. `vec` holds the names by id and `map` finds the id of a name.
pub struct Interner {
    pub map: StringHashMap<u32>,
    pub vec: Vec<String>,
}

impl View for Interner {
    type V = Seq<Seq<char>>;

    /// The interned names, by id.
    open spec fn view(&self) -> Seq<Seq<char>> {
        Seq::new(self.vec@.len(), |i: int| self.vec@[i]@)
    }
}

impl Default for Interner {
    /// An interner that holds no name.
    fn default() -> (r: Interner)
        ensures
            r.wf(),
            r@ == Seq::<Seq<char>>::empty(),
    {
        Interner::new()
    }
}

impl Clone for Interner {
    /// An interner that holds the same names under the same ids.
    fn clone(&self) -> (r: Interner)
        ensures
            self.wf() ==> r.wf() && r@ == self@,
    {
        let mut map: StringHashMap<u32> = StringHashMap::new();
        let mut vec: Vec<String> = Vec::new();
        let mut i: usize = 0;
        while i < self.vec.len()
            invariant
                i <= self.vec@.len(),
                vec@.len() == i,
                forall|k: int| 0 <= k < i ==> #[trigger] vec@[k] == self.vec@[k],
                self.wf() ==> forall|name: Seq<char>| #[trigger]
                    map@.contains_key(name) <==> self.map@.contains_key(name) && self.map@[name]
                        < i,
                self.wf() ==> forall|name: Seq<char>| #[trigger]
                    map@.contains_key(name) ==> map@[name] == self.map@[name],
            decreases self.vec@.len() - i,
        {
            let name = &self.vec[i];
            let id = #[verifier::truncate]
            (i as u32);
            proof {
                if self.wf() {
                    assert(self.map@.contains_key(self.vec@[i as int]@));
                }
            }
            vec.push(name.clone());
            map.insert(name.clone(), id);
            i = i + 1;
        }
        let r = Interner { map, vec };
        proof {
            if self.wf() {
                assert(r@ =~= self@);
                assert forall|k: int| 0 <= k < r.vec@.len() implies r.map@.contains_key(
                    #[trigger] r.vec@[k]@,
                ) && r.map@[r.vec@[k]@] == k by {
                    assert(self.map@.contains_key(self.vec@[k]@));
                }
            }
        }
        r
    }
}

impl Interner {
    /// The map and the vector describe the same assignment, and every id fits
    /// in 32 bits.
    pub open spec fn wf(&self) -> bool {
        &&& self.vec@.len() <= u32::MAX
        &&& forall|i: int|
            0 <= i < self.vec@.len() ==> self.map@.contains_key(#[trigger] self.vec@[i]@)
                && self.map@[self.vec@[i]@] == i
        &&& forall|name: Seq<char>| #[trigger]
            self.map@.contains_key(name) ==> self.map@[name] < self.vec@.len()
                && self.vec@[self.map@[name] as int]@ == name
    }

    /// An interner that holds no name.
    pub fn new() -> (r: Interner)
        ensures
            r.wf(),
            r@ == Seq::<Seq<char>>::empty(),
    {
        let r = Interner { map: StringHashMap::new(), vec: Vec::new() };
        assert(r@ =~= Seq::<Seq<char>>::empty());
        r
    }

    /// The id of `s`, if it has been interned.
    pub fn lookup(&self, s: &str) -> (r: Option<u32>)
        requires
            self.wf(),
        ensures
            match r {
                Some(id) => id < self@.len() && self@[id as int] == s@,
                None => !self@.contains(s@),
            },
    {
        match self.map.get(s) {
            Some(id) => Some(*id),
            None => {
                assert forall|i: int| 0 <= i < self@.len() implies self@[i] != s@ by {
                    assert(self.map@.contains_key(self.vec@[i]@));
                }
                None
            },
        }
    }

    /// The id of `s`: the one it already has, or else the next free one, under
    /// which `s` is then recorded.
    pub fn intern(&mut self, s: &str) -> (id: u32)
        requires
            old(self).wf(),
            old(self)@.contains(s@) || old(self)@.len() < u32::MAX,
        ensures
            final(self).wf(),
            old(self)@.contains(s@) ==> final(self)@ == old(self)@,
            !old(self)@.contains(s@) ==> final(self)@ == old(self)@.push(s@),
            id < final(self)@.len(),
            final(self)@[id as int] == s@,
            !old(self)@.contains(s@) ==> id == old(self)@.len(),
    {
        match self.lookup(s) {
            Some(id) => id,
            None => {
                let id = self.vec.len() as u32;
                self.vec.push(s.to_owned());
                self.map.insert(s.to_owned(), id);
                proof {
                    assert(self@ =~= old(self)@.push(s@));
                    assert forall|i: int| 0 <= i < self.vec@.len() implies self.map@.contains_key(
                        #[trigger] self.vec@[i]@,
                    ) && self.map@[self.vec@[i]@] == i by {
                        if i < old(self).vec@.len() {
                            assert(old(self)@[i] == old(self).vec@[i]@);
                            assert(old(self)@.contains(old(self).vec@[i]@));
                        }
                    }
                }
                id
            },
        }
    }

    /// The name that was interned under `id`.
    pub fn resolve(&self, id: u32) -> (name: &str)
        requires
            (id as int) < self@.len(),
        ensures
            name@ == self@[id as int],
    {
        self.vec[id as usize].as_str()
    }

    /// How many names have been interned.
    pub fn len(&self) -> (n: usize)
        ensures
            n == self@.len(),
    {
        self.vec.len()
    }
}

/// No name is interned twice: two ids with the same name are the same id.
pub proof fn lemma_interned_names_are_distinct(interner: Interner, i: int, j: int)
    requires
        interner.wf(),
        0 <= i < interner@.len(),
        0 <= j < interner@.len(),
        interner@[i] == interner@[j],
    ensures
        i == j,
{
    assert(interner.map@[interner.vec@[i]@] == i);
    assert(interner.map@[interner.vec@[j]@] == j);
}

} // verus!
