//! A table of values by name, kept in the order of the names.

use crate::expr::eval::{rank_str, rank_text, Rank};
use vstd::prelude::*;

verus! {

/// Values by name.
#[derive(Debug)]
pub struct Table<V> {
    rows: Vec<(String, V)>,
}

proof fn lemma_rank_equal(a: Seq<char>, b: Seq<char>)
    ensures
        rank_text(a, b) == Rank::Equal <==> a == b,
    decreases a.len(),
{
    if a.len() > 0 && b.len() > 0 && a[0] == b[0] {
        lemma_rank_equal(a.skip(1), b.skip(1));
        if a.skip(1) == b.skip(1) {
            assert(a =~= seq![a[0]] + a.skip(1));
            assert(b =~= seq![b[0]] + b.skip(1));
        }
    } else if a.len() == 0 && b.len() == 0 {
        assert(a =~= b);
    }
}

proof fn lemma_rank_flips(a: Seq<char>, b: Seq<char>)
    ensures
        rank_text(a, b) == Rank::Less <==> rank_text(b, a) == Rank::Greater,
    decreases a.len(),
{
    if a.len() > 0 && b.len() > 0 && a[0] == b[0] {
        lemma_rank_flips(a.skip(1), b.skip(1));
    }
}

proof fn lemma_rank_passes(a: Seq<char>, b: Seq<char>, c: Seq<char>)
    requires
        rank_text(a, b) == Rank::Less,
        rank_text(b, c) == Rank::Less,
    ensures
        rank_text(a, c) == Rank::Less,
    decreases a.len(),
{
    if a.len() > 0 && b.len() > 0 && c.len() > 0 && a[0] == b[0] && b[0] == c[0] {
        lemma_rank_passes(a.skip(1), b.skip(1), c.skip(1));
    }
}

/// The names of rows.
pub open spec fn names_of<V>(rows: Seq<(String, V)>) -> Seq<Seq<char>> {
    rows.map_values(|r: (String, V)| r.0@)
}

/// The names rise strictly.
pub open spec fn rising(names: Seq<Seq<char>>) -> bool {
    forall|i: int, j: int|
        0 <= i < j < names.len() ==> rank_text(#[trigger] names[i], #[trigger] names[j])
            == Rank::Less
}

/// The row of that name.
pub open spec fn row_of(names: Seq<Seq<char>>, k: Seq<char>) -> int {
    choose|i: int| 0 <= i < names.len() && #[trigger] names[i] == k
}

/// Rows as a map from their names.
pub open spec fn mapped<V>(rows: Seq<(String, V)>) -> Map<Seq<char>, V> {
    Map::new(
        |k: Seq<char>| names_of(rows).contains(k),
        |k: Seq<char>| rows[row_of(names_of(rows), k)].1,
    )
}

proof fn lemma_distinct(names: Seq<Seq<char>>, i: int, j: int)
    requires
        rising(names),
        0 <= i < names.len(),
        0 <= j < names.len(),
        names[i] == names[j],
    ensures
        i == j,
{
    lemma_rank_equal(names[i], names[j]);
    lemma_rank_equal(names[j], names[i]);
    if i < j {
        assert(rank_text(names[i], names[j]) == Rank::Less);
    } else if j < i {
        assert(rank_text(names[j], names[i]) == Rank::Less);
    }
}

proof fn lemma_row<V>(rows: Seq<(String, V)>, i: int)
    requires
        rising(names_of(rows)),
        0 <= i < rows.len(),
    ensures
        mapped(rows).dom().contains(rows[i].0@),
        mapped(rows)[rows[i].0@] == rows[i].1,
{
    let names = names_of(rows);
    let k = rows[i].0@;
    assert(names[i] == k);
    assert(names.contains(k));
    let j = row_of(names, k);
    assert(0 <= j < names.len() && names[j] == k);
    lemma_distinct(names, i, j);
}

impl<V> View for Table<V> {
    type V = Map<Seq<char>, V>;

    closed spec fn view(&self) -> Map<Seq<char>, V> {
        mapped(self.rows@)
    }
}

impl<V> Table<V> {
    /// The names rise strictly.
    pub closed spec fn wf(&self) -> bool {
        rising(names_of(self.rows@))
    }

    /// The names in their order.
    pub closed spec fn names(&self) -> Seq<Seq<char>> {
        names_of(self.rows@)
    }

    /// An empty table.
    pub fn new() -> (r: Self)
        ensures
            r.wf(),
            r@ == Map::<Seq<char>, V>::empty(),
            r.names() == Seq::<Seq<char>>::empty(),
    {
        let r = Table { rows: Vec::new() };
        assert(names_of(r.rows@) =~= Seq::<Seq<char>>::empty());
        assert(r@ =~= Map::<Seq<char>, V>::empty());
        r
    }

    /// The first row whose name is not below `k`, and whether it is `k`.
    fn place(&self, k: &str) -> (r: (usize, bool))
        requires
            self.wf(),
        ensures
            r.0 <= self.rows@.len(),
            r.1 ==> r.0 < self.rows@.len() && self.rows@[r.0 as int].0@ == k@,
            r.1 == self@.dom().contains(k@),
            forall|j: int| 0 <= j < r.0 ==> rank_text(#[trigger] self.names()[j], k@)
                == Rank::Less,
            !r.1 ==> forall|j: int|
                r.0 <= j < self.rows@.len() ==> rank_text(k@, #[trigger] self.names()[j])
                    == Rank::Less,
    {
        let ghost names = self.names();
        let mut i: usize = 0;
        while i < self.rows.len()
            invariant
                i <= self.rows@.len(),
                self.wf(),
                names == self.names(),
                names == names_of(self.rows@),
                forall|j: int| 0 <= j < i ==> rank_text(#[trigger] names[j], k@) == Rank::Less,
            decreases self.rows@.len() - i,
        {
            assert(names[i as int] == self.rows@[i as int].0@);
            let o: Rank = rank_str(self.rows[i].0.as_str(), k);
            match o {
                Rank::Less => {},
                Rank::Equal => {
                    proof {
                        lemma_rank_equal(names[i as int], k@);
                        lemma_row(self.rows@, i as int);
                    }
                    return (i, true);
                },
                Rank::Greater => {
                    proof {
                        lemma_rank_flips(k@, names[i as int]);
                        assert forall|j: int| i <= j < names.len() implies rank_text(
                            k@,
                            #[trigger] names[j],
                        ) == Rank::Less by {
                            if i < j {
                                lemma_rank_passes(k@, names[i as int], names[j]);
                            }
                        }
                        assert(!names.contains(k@)) by {
                            if names.contains(k@) {
                                let j = choose|j: int| 0 <= j < names.len() && names[j] == k@;
                                lemma_rank_equal(names[j], k@);
                                lemma_rank_equal(k@, names[j]);
                            }
                        }
                    }
                    return (i, false);
                },
            }
            i = i + 1;
        }
        proof {
            assert(!names.contains(k@)) by {
                if names.contains(k@) {
                    let j = choose|j: int| 0 <= j < names.len() && names[j] == k@;
                    lemma_rank_equal(names[j], k@);
                }
            }
        }
        (i, false)
    }

    /// The value of that name.
    pub fn get(&self, k: &str) -> (r: Option<&V>)
        requires
            self.wf(),
        ensures
            match r {
                Some(v) => self@.dom().contains(k@) && self@[k@] == *v,
                None => !self@.dom().contains(k@),
            },
    {
        let (i, found): (usize, bool) = self.place(k);
        if found {
            proof {
                lemma_row(self.rows@, i as int);
            }
            Some(&self.rows[i].1)
        } else {
            None
        }
    }

    /// Sets the value of a name.
    pub fn put(&mut self, k: String, v: V)
        requires
            old(self).wf(),
        ensures
            final(self).wf(),
            final(self)@ == old(self)@.insert(k@, v),
    {
        let (i, found): (usize, bool) = self.place(k.as_str());
        let ghost before = self.rows@;
        let ghost name = k@;
        let ghost names = names_of(before);
        if found {
            self.rows.set(i, (k, v));
            proof {
                let after = self.rows@;
                let anames = names_of(after);
                assert(anames =~= names);
                self.lemma_put(before, after, i as int, name, v, true);
            }
        } else {
            self.rows.insert(i, (k, v));
            proof {
                let after = self.rows@;
                let anames = names_of(after);
                assert(anames =~= names.insert(i as int, name));
                assert(rising(anames)) by {
                    assert forall|a: int, b: int| 0 <= a < b < anames.len() implies rank_text(
                        #[trigger] anames[a],
                        #[trigger] anames[b],
                    ) == Rank::Less by {
                        if a < i && b < i {
                            assert(anames[a] == names[a] && anames[b] == names[b]);
                        } else if a < i && b == i {
                            assert(anames[a] == names[a]);
                        } else if a < i {
                            assert(anames[a] == names[a] && anames[b] == names[b - 1]);
                        } else if a == i {
                            assert(anames[b] == names[b - 1]);
                        } else {
                            assert(anames[a] == names[a - 1] && anames[b] == names[b - 1]);
                        }
                    }
                }
                self.lemma_put(before, after, i as int, name, v, false);
            }
        }
    }

    proof fn lemma_put(
        &self,
        before: Seq<(String, V)>,
        after: Seq<(String, V)>,
        i: int,
        name: Seq<char>,
        v: V,
        found: bool,
    )
        requires
            rising(names_of(before)),
            rising(names_of(after)),
            0 <= i < after.len(),
            after[i].0@ == name,
            after[i].1 == v,
            found ==> after.len() == before.len() && before[i].0@ == name && forall|j: int|
                0 <= j < before.len() && j != i ==> after[j] == before[j],
            !found ==> after.len() == before.len() + 1 && (forall|j: int|
                0 <= j < i ==> after[j] == before[j]) && (forall|j: int|
                i <= j < before.len() ==> after[j + 1] == #[trigger] before[j]),
        ensures
            mapped(after) == mapped(before).insert(name, v),
    {
        let ma = mapped(after);
        let mb = mapped(before).insert(name, v);
        lemma_row(after, i);
        assert forall|k: Seq<char>| ma.dom().contains(k) == mb.dom().contains(k) by {
            if names_of(after).contains(k) && k != name {
                let j = row_of(names_of(after), k);
                assert(names_of(after)[j] == k);
                assert(after[j].0@ == k);
                if found || j < i {
                    assert(names_of(before)[j] == k);
                } else {
                    assert(j != i);
                    assert(after[j - 1 + 1] == before[j - 1]);
                    assert(names_of(before)[j - 1] == k);
                }
            }
            if names_of(before).contains(k) && k != name {
                let j = row_of(names_of(before), k);
                assert(names_of(before)[j] == k);
                if found || j < i {
                    assert(after[j] == before[j]);
                    assert(names_of(after)[j] == k);
                } else {
                    assert(after[j + 1] == before[j]);
                    assert(names_of(after)[j + 1] == k);
                }
            }
        }
        assert forall|k: Seq<char>| ma.dom().contains(k) implies ma[k] == mb[k] by {
            if k != name {
                assert(names_of(before).contains(k));
                let j = row_of(names_of(before), k);
                assert(names_of(before)[j] == k);
                assert(before[j].0@ == k);
                lemma_row(before, j);
                if found || j < i {
                    assert(after[j] == before[j]);
                    lemma_row(after, j);
                } else {
                    assert(after[j + 1] == before[j]);
                    lemma_row(after, j + 1);
                }
            }
        }
        assert(ma =~= mb);
    }

    /// Takes the value of a name out of the table.
    pub fn take(&mut self, k: &str) -> (r: Option<V>)
        requires
            old(self).wf(),
        ensures
            final(self).wf(),
            final(self)@ == old(self)@.remove(k@),
            match r {
                Some(v) => old(self)@.dom().contains(k@) && old(self)@[k@] == v,
                None => !old(self)@.dom().contains(k@),
            },
    {
        let (i, found): (usize, bool) = self.place(k);
        if !found {
            assert(self@ =~= self@.remove(k@));
            return None;
        }
        let ghost before = self.rows@;
        proof {
            lemma_row(before, i as int);
        }
        let (_, v): (String, V) = self.rows.remove(i);
        proof {
            let after = self.rows@;
            let names = names_of(before);
            let anames = names_of(after);
            assert(anames =~= names.remove(i as int));
            assert(rising(anames)) by {
                assert forall|a: int, b: int| 0 <= a < b < anames.len() implies rank_text(
                    #[trigger] anames[a],
                    #[trigger] anames[b],
                ) == Rank::Less by {
                    let x = if a < i {
                        a
                    } else {
                        a + 1
                    };
                    let y = if b < i {
                        b
                    } else {
                        b + 1
                    };
                    assert(anames[a] == names[x] && anames[b] == names[y]);
                }
            }
            let ma = mapped(after);
            let mb = mapped(before).remove(k@);
            assert forall|q: Seq<char>| ma.dom().contains(q) == mb.dom().contains(q) by {
                if anames.contains(q) {
                    let j = row_of(anames, q);
                    assert(anames[j] == q);
                    let x = if j < i {
                        j
                    } else {
                        j + 1
                    };
                    assert(names[x] == q);
                    if q == k@ {
                        lemma_distinct(names, x, i as int);
                    }
                }
                if names.contains(q) && q != k@ {
                    let j = row_of(names, q);
                    assert(names[j] == q);
                    let x = if j < i {
                        j
                    } else {
                        j - 1
                    };
                    assert(anames[x] == q);
                }
            }
            assert forall|q: Seq<char>| ma.dom().contains(q) implies ma[q] == mb[q] by {
                let j = row_of(names, q);
                assert(names.contains(q));
                assert(names[j] == q);
                lemma_row(before, j);
                let x = if j < i {
                    j
                } else {
                    j - 1
                };
                assert(after[x] == before[j]);
                lemma_row(after, x);
            }
            assert(ma =~= mb);
        }
        Some(v)
    }

    /// How many names there are.
    pub fn len(&self) -> (r: usize)
        ensures
            r == self.names().len(),
    {
        self.rows.len()
    }

    /// The row at a position of the order.
    pub fn row(&self, i: usize) -> (r: (&String, &V))
        requires
            self.wf(),
            i < self.names().len(),
        ensures
            r.0@ == self.names()[i as int],
            self@.dom().contains(r.0@),
            self@[r.0@] == *r.1,
    {
        proof {
            lemma_row(self.rows@, i as int);
        }
        (&self.rows[i].0, &self.rows[i].1)
    }

    /// The names are exactly those of the map, and rise strictly.
    pub proof fn lemma_names(&self)
        requires
            self.wf(),
        ensures
            rising(self.names()),
            forall|k: Seq<char>| self.names().contains(k) <==> self@.dom().contains(k),
            self.names().no_duplicates(),
    {
        let names = self.names();
        assert forall|i: int, j: int| 0 <= i < names.len() && 0 <= j < names.len() && i
            != j implies names[i] != names[j] by {
            if names[i] == names[j] {
                lemma_distinct(names, i, j);
            }
        }
    }
}

} // verus!
