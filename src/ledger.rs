//! The spool ledger: cumulative mass consumed per spool name, in the mass
//! units of `crate::mass`.
use crate::names::{
    ascending, lemma_ascending_unique, lemma_name_lt_irreflexive, lemma_name_lt_total, lemma_name_lt_transitive, name_less, name_lt,
};
use crate::mass::UNITS_PER_GRAM;
use vstd::prelude::*;

verus! {

/// The amount recorded for `name` in `m`, zero where it has no entry.
pub open spec fn usage_of(m: Map<Seq<char>, int>, name: Seq<char>) -> int {
    if m.contains_key(name) {
        m[name]
    } else {
        0
    }
}

/// `m` with `grams` more recorded for `name`; an unseen name starts from zero.
pub open spec fn add_usage_to(m: Map<Seq<char>, int>, name: Seq<char>, grams: int) -> Map<
    Seq<char>,
    int,
> {
    m.insert(name, usage_of(m, name) + grams)
}

/// The names that have an entry in `m`, in ascending order.
pub open spec fn sorted_names(m: Map<Seq<char>, int>) -> Seq<Seq<char>> {
    choose|s: Seq<Seq<char>>|
        ascending(s) && forall|x: Seq<char>| #[trigger] s.contains(x) <==> m.contains_key(x)
}

/// Mass units consumed per spool name. Entries stay in ascending name order
/// and each name appears once.
pub struct Ledger {
    pub(crate) entries: Vec<(String, u128)>,
    pub(crate) contents: Ghost<Map<Seq<char>, int>>,
}

impl View for Ledger {
    type V = Map<Seq<char>, int>;

    closed spec fn view(&self) -> Map<Seq<char>, int> {
        self.contents@
    }
}

impl Ledger {
    /// The spool names in the order the entries are kept.
    pub open(crate) spec fn names(&self) -> Seq<Seq<char>> {
        Seq::new(self.entries@.len(), |i: int| self.entries@[i].0@)
    }

    /// The recorded amounts, in the order of `names`.
    pub open(crate) spec fn amounts(&self) -> Seq<int> {
        Seq::new(self.entries@.len(), |i: int| self.entries@[i].1 as int)
    }

    /// Names strictly ascending, and the entries are exactly the view.
    pub open(crate) spec fn wf(&self) -> bool {
        &&& forall|i: int, j: int|
            0 <= i < j < self.names().len() ==> name_lt(
                #[trigger] self.names()[i],
                #[trigger] self.names()[j],
            )
        &&& forall|i: int|
            0 <= i < self.names().len() ==> self@.contains_key(#[trigger] self.names()[i])
                && self@[self.names()[i]] == self.amounts()[i]
        &&& forall|k: Seq<char>| #[trigger]
            self@.contains_key(k) ==> exists|i: int|
                0 <= i < self.names().len() && self.names()[i] == k
    }

    /// An empty ledger.
    pub fn new() -> (r: Ledger)
        ensures
            r.wf(),
            r@ == Map::<Seq<char>, int>::empty(),
    {
        Ledger { entries: Vec::new(), contents: Ghost(Map::empty()) }
    }

    /// Number of spools.
    pub fn len(&self) -> (r: usize)
        ensures
            r == self.names().len(),
    {
        self.entries.len()
    }

    /// Name of the `i`-th spool in ascending order.
    pub fn name_at(&self, i: usize) -> (r: &String)
        requires
            i < self.names().len(),
        ensures
            r@ == self.names()[i as int],
    {
        &self.entries[i].0
    }

    /// Amount recorded for the `i`-th spool in ascending order.
    pub fn amount_at(&self, i: usize) -> (r: u128)
        requires
            i < self.names().len(),
        ensures
            r == self.amounts()[i as int],
    {
        self.entries[i].1
    }

    /// Position of `name`, or where it would be inserted to keep the order.
    fn locate(&self, name: &str) -> (r: (usize, bool))
        requires
            self.wf(),
        ensures
            r.0 <= self.names().len(),
            r.1 ==> r.0 < self.names().len() && self.names()[r.0 as int] == name@,
            !r.1 ==> !self@.contains_key(name@),
            !r.1 ==> forall|i: int| 0 <= i < r.0 ==> name_lt(#[trigger] self.names()[i], name@),
            !r.1 ==> forall|j: int|
                r.0 <= j < self.names().len() ==> name_lt(name@, #[trigger] self.names()[j]),
    {
        let mut i: usize = 0;
        while i < self.entries.len() && name_less(self.entries[i].0.as_str(), name)
            invariant
                self.wf(),
                i <= self.names().len(),
                forall|k: int| 0 <= k < i ==> name_lt(#[trigger] self.names()[k], name@),
            decreases self.names().len() - i,
        {
            i = i + 1;
        }
        if i < self.entries.len() && !name_less(name, self.entries[i].0.as_str()) {
            proof {
                let k = self.names()[i as int];
                if k != name@ {
                    lemma_name_lt_total(k, name@);
                }
            }
            (i, true)
        } else {
            proof {
                assert forall|j: int| i <= j < self.names().len() implies name_lt(
                    name@,
                    #[trigger] self.names()[j],
                ) by {
                    if j > i {
                        assert(name_lt(self.names()[i as int], self.names()[j]));
                        lemma_name_lt_transitive(name@, self.names()[i as int], self.names()[j]);
                    }
                }
                if self@.contains_key(name@) {
                    let m = choose|m: int| 0 <= m < self.names().len() && self.names()[m] == name@;
                    lemma_name_lt_irreflexive(name@);
                    assert(m < i ==> name_lt(self.names()[m], name@));
                }
            }
            (i, false)
        }
    }

    /// Amount recorded for `name`, if it has an entry.
    pub fn get(&self, name: &str) -> (r: Option<u128>)
        requires
            self.wf(),
        ensures
            r is Some <==> self@.contains_key(name@),
            r is Some ==> r->0 == self@[name@],
    {
        let (pos, found) = self.locate(name);
        if found {
            Some(self.entries[pos].1)
        } else {
            None
        }
    }

    /// Records `grams` more for `name`, adding the name if it is new.
    /// Fails, changing nothing, where the total would not fit in a `u128`.
    pub fn add_usage(&mut self, name: &String, grams: u128) -> (ok: bool)
        requires
            old(self).wf(),
        ensures
            final(self).wf(),
            ok == (usage_of(old(self)@, name@) + grams <= u128::MAX),
            ok ==> final(self)@ == add_usage_to(old(self)@, name@, grams as int),
            !ok ==> final(self)@ == old(self)@,
    {
        let (pos, found) = self.locate(name.as_str());
        if found {
            let cur = self.entries[pos].1;
            if cur > u128::MAX - grams {
                return false;
            }
            self.replace_at(pos, name, cur + grams);
            true
        } else {
            self.insert_at(pos, name, grams);
            true
        }
    }

    /// Sets the amount recorded for `name`, adding the name if it is new.
    pub fn set(&mut self, name: &String, grams: u128)
        requires
            old(self).wf(),
        ensures
            final(self).wf(),
            final(self)@ == old(self)@.insert(name@, grams as int),
    {
        let (pos, found) = self.locate(name.as_str());
        if found {
            self.replace_at(pos, name, grams);
        } else {
            self.insert_at(pos, name, grams);
        }
    }

    fn replace_at(&mut self, pos: usize, name: &String, grams: u128)
        requires
            old(self).wf(),
            pos < old(self).names().len(),
            old(self).names()[pos as int] == name@,
        ensures
            final(self).wf(),
            final(self)@ == old(self)@.insert(name@, grams as int),
    {
        let ghost before = *self;
        self.entries.set(pos, (name.clone(), grams));
        self.contents = Ghost(self.contents@.insert(name@, grams as int));
        proof {
            assert(self.names() =~= before.names());
            assert forall|i: int| 0 <= i < self.names().len() implies self@.contains_key(
                #[trigger] self.names()[i],
            ) && self@[self.names()[i]] == self.amounts()[i] by {
                if i != pos {
                    if i < pos {
                        assert(name_lt(before.names()[i], before.names()[pos as int]));
                    } else {
                        assert(name_lt(before.names()[pos as int], before.names()[i]));
                    }
                    lemma_name_lt_irreflexive(name@);
                }
            }
            assert forall|k: Seq<char>| #[trigger] self@.contains_key(k) implies exists|i: int|
                0 <= i < self.names().len() && self.names()[i] == k by {
                if k == name@ {
                    assert(self.names()[pos as int] == k);
                } else {
                    assert(before@.contains_key(k));
                }
            }
        }
    }

    fn insert_at(&mut self, pos: usize, name: &String, grams: u128)
        requires
            old(self).wf(),
            pos <= old(self).names().len(),
            !old(self)@.contains_key(name@),
            forall|i: int| 0 <= i < pos ==> name_lt(#[trigger] old(self).names()[i], name@),
            forall|j: int|
                pos <= j < old(self).names().len() ==> name_lt(name@, #[trigger] old(self).names()[j]),
        ensures
            final(self).wf(),
            final(self)@ == old(self)@.insert(name@, grams as int),
    {
        let ghost before = *self;
        self.entries.insert(pos, (name.clone(), grams));
        self.contents = Ghost(self.contents@.insert(name@, grams as int));
        proof {
            let p = pos as int;
            assert(self.names() =~= before.names().insert(p, name@));
            assert(self.amounts() =~= before.amounts().insert(p, grams as int));
            assert forall|i: int, j: int| 0 <= i < j < self.names().len() implies name_lt(
                #[trigger] self.names()[i],
                #[trigger] self.names()[j],
            ) by {
                if i < p && j == p {
                } else if i == p {
                    assert(name_lt(name@, before.names()[j - 1]));
                } else if j < p {
                    assert(name_lt(before.names()[i], before.names()[j]));
                } else if i < p {
                    assert(name_lt(before.names()[i], before.names()[j - 1]));
                } else {
                    assert(name_lt(before.names()[i - 1], before.names()[j - 1]));
                }
            }
            assert forall|i: int| 0 <= i < self.names().len() implies self@.contains_key(
                #[trigger] self.names()[i],
            ) && self@[self.names()[i]] == self.amounts()[i] by {
                if i < p {
                    assert(before@.contains_key(before.names()[i]));
                } else if i > p {
                    assert(before@.contains_key(before.names()[i - 1]));
                }
            }
            assert forall|k: Seq<char>| #[trigger] self@.contains_key(k) implies exists|i: int|
                0 <= i < self.names().len() && self.names()[i] == k by {
                if k == name@ {
                    assert(self.names()[p] == k);
                } else {
                    assert(before@.contains_key(k));
                    let m = choose|m: int|
                        0 <= m < before.names().len() && before.names()[m] == k;
                    if m < p {
                        assert(self.names()[m] == k);
                    } else {
                        assert(self.names()[m + 1] == k);
                    }
                }
            }
        }
    }
}

/// The known spools and the mass each had consumed before the history
/// is read.
pub fn seed_roster() -> (r: Ledger)
    ensures
        r.wf(),
        r@ == Map::<Seq<char>, int>::empty().insert(
            "White Spool"@,
            823 * UNITS_PER_GRAM,
        ).insert(
            "New Black Spool"@,
            893 * UNITS_PER_GRAM,
        ).insert(
            "Kevin's Spool"@,
            958 * UNITS_PER_GRAM,
        ).insert(
            "Grey Spool"@,
            710 * UNITS_PER_GRAM,
        ).insert(
            "Blue Spool"@,
            870 * UNITS_PER_GRAM,
        ).insert(
            "Black Spool"@,
            977 * UNITS_PER_GRAM,
        ).insert(
            "Orange Spool"@,
            63 * UNITS_PER_GRAM,
        ),
{
    let mut l = Ledger::new();
    l.set(&String::from_str("White Spool"), 823 * UNITS_PER_GRAM);
    l.set(&String::from_str("New Black Spool"), 893 * UNITS_PER_GRAM);
    l.set(&String::from_str("Kevin's Spool"), 958 * UNITS_PER_GRAM);
    l.set(&String::from_str("Grey Spool"), 710 * UNITS_PER_GRAM);
    l.set(&String::from_str("Blue Spool"), 870 * UNITS_PER_GRAM);
    l.set(&String::from_str("Black Spool"), 977 * UNITS_PER_GRAM);
    l.set(&String::from_str("Orange Spool"), 63 * UNITS_PER_GRAM);
    l
}

/// Facts that every well-formed ledger offers its readers: names strictly
/// ascending (so each appears once), each listed with its amount, and no
/// other names in the view; so the names are the view's sorted keys.
pub proof fn lemma_ledger_listing(l: &Ledger)
    requires
        l.wf(),
    ensures
        l.names().len() == l.amounts().len(),
        forall|i: int, j: int|
            0 <= i < j < l.names().len() ==> name_lt(#[trigger] l.names()[i], #[trigger] l.names()[j]),
        forall|i: int|
            0 <= i < l.names().len() ==> l@.contains_key(#[trigger] l.names()[i]) && l@[l.names()[i]]
                == l.amounts()[i],
        forall|k: Seq<char>| #[trigger]
            l@.contains_key(k) ==> exists|i: int| 0 <= i < l.names().len() && l.names()[i] == k,
        l.names() == sorted_names(l@),
{
    let n = l.names();
    assert forall|x: Seq<char>| #[trigger] n.contains(x) <==> l@.contains_key(x) by {
        if l@.contains_key(x) {
            let i = choose|i: int| 0 <= i < n.len() && n[i] == x;
            assert(n.contains(x));
        }
    }
    assert(ascending(n));
    assert(exists|t: Seq<Seq<char>>|
        ascending(t) && forall|x: Seq<char>| #[trigger] t.contains(x) <==> l@.contains_key(x));
    let s = sorted_names(l@);
    assert(ascending(s) && forall|x: Seq<char>| #[trigger] s.contains(x) <==> l@.contains_key(x));
    lemma_ascending_unique(n, s);
}

} // verus!
