//! Geohash cells: the children of a cell, and the search for the cells of
//! a given level that cover a geometry.

use vstd::prelude::*;

use crate::config::utils::string_views;
use crate::text;
use vstd::string::StrSliceExecFns;

verus! {

/// The geohash alphabet, in the order of the cells it names.
pub const BASE_32: [char; 32] = [
    '0', '1', '2', '3', '4', '5', '6', '7', '8', '9', 'b', 'c', 'd', 'e', 'f', 'g', 'h', 'j', 'k',
    'm', 'n', 'p', 'q', 'r', 's', 't', 'u', 'v', 'w', 'x', 'y', 'z',
];

/// The geohash alphabet.
pub open spec fn base32() -> Seq<char> {
    seq![
        '0', '1', '2', '3', '4', '5', '6', '7', '8', '9', 'b', 'c', 'd', 'e', 'f', 'g', 'h', 'j',
        'k', 'm', 'n', 'p', 'q', 'r', 's', 't', 'u', 'v', 'w', 'x', 'y', 'z',
    ]
}

/// The 32 cells into which the geohash cell `gh` divides: `gh` followed by
/// each character of the alphabet, in order.
pub fn children(gh: &String) -> (r: Vec<String>)
    ensures
        r.len() == 32,
        forall|i: int| 0 <= i < 32 ==> #[trigger] r[i]@ == gh@.push(base32()[i]),
{
    assert(BASE_32@ == base32());
    let mut r: Vec<String> = Vec::new();
    for i in 0..32
        invariant
            BASE_32@ == base32(),
            r.len() == i,
            forall|k: int| 0 <= k < i ==> #[trigger] r[k]@ == gh@.push(base32()[k]),
    {
        let mut child = gh.clone();
        text::push_char(&mut child, BASE_32[i]);
        r.push(child);
    }
    r
}

/// Whether `s` names a geohash cell: it holds only characters of the
/// geohash alphabet.
pub open spec fn is_cell(s: Seq<char>) -> bool {
    forall|i: int| 0 <= i < s.len() ==> base32().contains(#[trigger] s[i])
}

/// The children of a cell are cells, each one character longer than it.
pub proof fn lemma_children_are_cells(gh: Seq<char>)
    requires
        is_cell(gh),
    ensures
        forall|i: int|
            0 <= i < 32 ==> #[trigger] is_cell(gh.push(base32()[i])) && gh.push(base32()[i]).len()
                == gh.len() + 1,
{
    assert forall|i: int| 0 <= i < 32 implies #[trigger] is_cell(gh.push(base32()[i])) by {
        let c = gh.push(base32()[i]);
        assert forall|k: int| 0 <= k < c.len() implies base32().contains(#[trigger] c[k]) by {
            if k < gh.len() {
                assert(c[k] == gh[k]);
            } else {
                assert(c[k] == base32()[i]);
            }
        }
    }
}

/// The children of a cell are all different.
pub proof fn lemma_children_distinct(gh: Seq<char>)
    ensures
        forall|i: int, j: int|
            0 <= i < j < 32 ==> gh.push(base32()[i]) != gh.push(base32()[j]),
{
    assert forall|i: int, j: int| 0 <= i < j < 32 implies gh.push(base32()[i]) != gh.push(
        base32()[j],
    ) by {
        assert(gh.push(base32()[i]).last() == base32()[i]);
        assert(gh.push(base32()[j]).last() == base32()[j]);
    }
}

/// Whether the cell `x` was reported to meet the geometry.
pub open spec fn reported_hit(reports: Map<Seq<char>, bool>, x: Seq<char>) -> bool {
    reports.contains_key(x) && reports[x]
}

/// Whether every ancestor of the cell `x` (each shorter prefix of it) was
/// reported to meet the geometry.
pub open spec fn ancestors_hit(reports: Map<Seq<char>, bool>, x: Seq<char>) -> bool {
    forall|k: int| 0 <= k < x.len() ==> #[trigger] reported_hit(reports, x.take(k))
}

/// The search for the cells of level `level` that cover a geometry: cells
/// are taken from a stack, starting from the empty cell (the whole world);
/// each is tested against the geometry by the caller; a cell that meets the
/// geometry is replaced by its children while it is shorter than `level`,
/// and is kept once it is that long.
pub struct CoveringSearch {
    level: usize,
    queue: Vec<String>,
    found: Vec<String>,
    /// The cell handed out and not reported yet.
    current: Ghost<Option<Seq<char>>>,
    /// What was reported of each cell tested.
    reports: Ghost<Map<Seq<char>, bool>>,
}

impl CoveringSearch {
    /// The search's invariant: the cells waiting, and the one handed out,
    /// are cells no longer than the level, untested, all different, whose
    /// ancestors were all reported to meet the geometry; the cells kept are
    /// the cells of the level reported to meet it, each once; every
    /// ancestor of a tested cell met the geometry; the children of a cell
    /// shorter than the level that met it are tested or still to be; and
    /// so is the empty cell.
    pub closed spec fn wf(&self) -> bool {
        let w = self.waiting();
        let f = self.found_cells();
        let rep = self.reports@;
        &&& forall|i: int| 0 <= i < w.len() ==> #[trigger] is_cell(w[i]) && w[i].len() <= self.level
        &&& forall|i: int| 0 <= i < f.len() ==> #[trigger] is_cell(f[i]) && f[i].len() == self.level
        &&& w.no_duplicates()
        &&& f.no_duplicates()
        &&& forall|i: int|
            0 <= i < w.len() ==> !rep.contains_key(#[trigger] w[i]) && ancestors_hit(rep, w[i])
        &&& (self.current@ matches Some(c) ==> {
            &&& is_cell(c)
            &&& c.len() <= self.level
            &&& !rep.contains_key(c)
            &&& !w.contains(c)
            &&& ancestors_hit(rep, c)
        })
        &&& forall|i: int| 0 <= i < f.len() ==> #[trigger] reported_hit(rep, f[i])
        &&& forall|x: Seq<char>| #[trigger] rep.contains_key(x) ==> ancestors_hit(rep, x)
        &&& forall|x: Seq<char>|
            #[trigger] reported_hit(rep, x) && x.len() == self.level ==> f.contains(x)
        &&& forall|x: Seq<char>, j: int|
            reported_hit(rep, x) && x.len() < self.level && 0 <= j < 32 ==> #[trigger] self.pending(
                x.push(base32()[j]),
            )
        &&& self.pending(Seq::empty())
    }

    /// Whether the cell `x` is tested, handed out, or waiting.
    pub closed spec fn pending(&self, x: Seq<char>) -> bool {
        ||| self.reports@.contains_key(x)
        ||| self.waiting().contains(x)
        ||| self.current@ == Some(x)
    }

    /// The level of the cells searched for.
    pub closed spec fn level(&self) -> nat {
        self.level as nat
    }

    /// The cells kept so far.
    pub closed spec fn found_cells(&self) -> Seq<Seq<char>> {
        string_views(self.found@)
    }

    /// The cells waiting to be tested, the next one last.
    pub closed spec fn waiting(&self) -> Seq<Seq<char>> {
        string_views(self.queue@)
    }

    /// The cell handed out by [`Self::next_cell`] and not reported yet.
    pub closed spec fn current(&self) -> Option<Seq<char>> {
        self.current@
    }

    /// What was reported of each cell tested: whether it meets the
    /// geometry.
    pub closed spec fn reports(&self) -> Map<Seq<char>, bool> {
        self.reports@
    }

    /// Whether cells wait to be tested.
    pub open spec fn has_work(&self) -> bool {
        self.waiting().len() > 0
    }

    /// A search for the cells of level `level`, from the empty cell.
    pub fn new(level: usize) -> (r: CoveringSearch)
        ensures
            r.wf(),
            r.level() == level,
            r.found_cells() == Seq::<Seq<char>>::empty(),
            r.waiting() == seq![Seq::<char>::empty()],
            r.current() is None,
            r.reports() == Map::<Seq<char>, bool>::empty(),
    {
        let mut queue: Vec<String> = Vec::new();
        queue.push(String::new());
        let r = CoveringSearch {
            level,
            queue,
            found: Vec::new(),
            current: Ghost(None),
            reports: Ghost(Map::empty()),
        };
        assert(string_views(r.found@) =~= Seq::<Seq<char>>::empty());
        assert(r.waiting() =~= seq![Seq::<char>::empty()]);
        assert(r.waiting()[0] == Seq::<char>::empty());
        assert(r.pending(Seq::empty()));
        r
    }

    /// The next cell to test against the geometry, if any waits.
    pub fn next_cell(&mut self) -> (r: Option<String>)
        requires
            old(self).wf(),
            old(self).current() is None,
        ensures
            final(self).wf(),
            final(self).level() == old(self).level(),
            final(self).found_cells() == old(self).found_cells(),
            final(self).reports() == old(self).reports(),
            r is Some <==> old(self).has_work(),
            r matches Some(c) ==> {
                &&& c@ == old(self).waiting().last()
                &&& is_cell(c@)
                &&& c@.len() <= old(self).level()
            },
            final(self).current() == match r {
                Some(c) => Some(c@),
                None => None::<Seq<char>>,
            },
            final(self).waiting() == if old(self).has_work() {
                old(self).waiting().drop_last()
            } else {
                old(self).waiting()
            },
    {
        let ghost w = self.waiting();
        let r = self.queue.pop();
        assert(string_views(self.queue@) =~= if old(self).has_work() {
            w.drop_last()
        } else {
            w
        });
        proof {
            match &r {
                Some(c) => {
                    let n = w.len() - 1;
                    assert(c@ == w[n]);
                    assert(!w.drop_last().contains(c@)) by {
                        if w.drop_last().contains(c@) {
                            let i = choose|i: int| 0 <= i < w.drop_last().len() && w.drop_last()[i] == c@;
                            assert(w[i] == w[n]);
                        }
                    }
                    self.current = Ghost(Some(c@));
                    assert forall|x: Seq<char>| #[trigger] old(self).pending(x) implies self.pending(x) by {
                        if w.contains(x) {
                            let i = choose|i: int| 0 <= i < w.len() && w[i] == x;
                            if i < n {
                                assert(self.waiting()[i] == x);
                            }
                        }
                    }
                },
                None => {},
            }
            let n = w.len() - 1;
            assert forall|x: Seq<char>, j: int|
                reported_hit(self.reports@, x) && x.len() < self.level && 0 <= j < 32 implies #[trigger] self.pending(
                x.push(base32()[j]),
            ) by {
                let y = x.push(base32()[j]);
                assert(old(self).pending(y));
                if w.contains(y) {
                    let i = choose|i: int| 0 <= i < w.len() && w[i] == y;
                    if i < n {
                        assert(self.waiting()[i] == y);
                    }
                }
            }
            assert(old(self).pending(Seq::empty()));
            if w.contains(Seq::<char>::empty()) {
                let i = choose|i: int| 0 <= i < w.len() && w[i] == Seq::<char>::empty();
                if i < n {
                    assert(self.waiting()[i] == Seq::<char>::empty());
                }
            }
        }
        r
    }

    /// Records whether the cell `cell`, handed out by [`Self::next_cell`],
    /// meets the geometry: a cell that does not is dropped; one shorter
    /// than the level gives way to its children; one of the level is kept.
    pub fn report(&mut self, cell: String, hits: bool)
        requires
            old(self).wf(),
            old(self).current() == Some(cell@),
        ensures
            final(self).wf(),
            final(self).level() == old(self).level(),
            final(self).current() is None,
            final(self).reports() == old(self).reports().insert(cell@, hits),
            final(self).found_cells() == if hits && cell@.len() == old(self).level() {
                old(self).found_cells().push(cell@)
            } else {
                old(self).found_cells()
            },
            final(self).waiting() == if hits && cell@.len() < old(self).level() {
                old(self).waiting() + Seq::new(32, |i: int| cell@.push(base32()[i]))
            } else {
                old(self).waiting()
            },
    {
        let ghost c = cell@;
        let ghost w = self.waiting();
        let ghost f = self.found_cells();
        let ghost rep0 = self.reports@;
        let ghost rep = rep0.insert(c, hits);
        proof {
            self.current = Ghost(None);
            self.reports = Ghost(rep);
            // what held of the old reports holds of the new ones
            assert forall|x: Seq<char>| #[trigger] ancestors_hit(rep0, x) implies ancestors_hit(rep, x) by {
                assert forall|k: int| 0 <= k < x.len() implies #[trigger] reported_hit(rep, x.take(k)) by {
                    assert(reported_hit(rep0, x.take(k)));
                    assert(x.take(k) != c);
                }
            }
            assert(ancestors_hit(rep, c));
        }
        if hits && cell.as_str().unicode_len() < self.level {
            let mut kids = children(&cell);
            proof {
                lemma_children_are_cells(c);
                lemma_children_distinct(c);
            }
            let ghost ks = string_views(kids@);
            assert(ks =~= Seq::new(32, |i: int| c.push(base32()[i])));
            self.queue.append(&mut kids);
            assert(self.waiting() =~= w + ks);
            proof {
                self.lemma_child_facts(c, w, ks, rep0, rep);
            }
        } else if hits {
            let ghost before = self.found@;
            self.found.push(cell);
            assert(string_views(self.found@) =~= string_views(before).push(c));
            assert(!f.contains(c)) by {
                if f.contains(c) {
                    let i = choose|i: int| 0 <= i < f.len() && f[i] == c;
                    assert(reported_hit(rep0, f[i]));
                }
            }
        }
        proof {
            assert forall|x: Seq<char>| #[trigger] old(self).pending(x) implies self.pending(x) by {
                if w.contains(x) {
                    let i = choose|i: int| 0 <= i < w.len() && w[i] == x;
                    assert(self.waiting()[i] == x);
                }
            }
            assert forall|x: Seq<char>| #[trigger] rep.contains_key(x) implies ancestors_hit(rep, x) by {
                if x != c {
                    assert(rep0.contains_key(x));
                }
            }
            let fw = self.found_cells();
            assert forall|i: int| 0 <= i < fw.len() implies #[trigger] reported_hit(rep, fw[i]) by {
                if i < f.len() {
                    assert(fw[i] == f[i]);
                    assert(reported_hit(rep0, f[i]));
                    assert(f[i] != c);
                }
            }
            assert forall|x: Seq<char>|
                #[trigger] reported_hit(rep, x) && x.len() == self.level implies fw.contains(x) by {
                if x == c {
                    assert(fw[fw.len() - 1] == c);
                } else {
                    assert(reported_hit(rep0, x));
                    assert(f.contains(x));
                    let i = choose|i: int| 0 <= i < f.len() && f[i] == x;
                    assert(fw[i] == x);
                }
            }
            assert forall|x: Seq<char>, j: int|
                reported_hit(rep, x) && x.len() < self.level && 0 <= j < 32 implies #[trigger] self.pending(
                x.push(base32()[j]),
            ) by {
                if x == c {
                    assert(self.waiting()[w.len() + j] == c.push(base32()[j]));
                } else {
                    assert(reported_hit(rep0, x));
                    assert(old(self).pending(x.push(base32()[j])));
                }
            }
            assert(old(self).pending(Seq::empty()));
        }
    }

    /// The children of the reported cell `c` are untested, waiting nowhere
    /// yet, and all their ancestors met the geometry.
    proof fn lemma_child_facts(
        &self,
        c: Seq<char>,
        w: Seq<Seq<char>>,
        ks: Seq<Seq<char>>,
        rep0: Map<Seq<char>, bool>,
        rep: Map<Seq<char>, bool>,
    )
        requires
            ks == Seq::new(32, |i: int| c.push(base32()[i])),
            rep == rep0.insert(c, true),
            !rep0.contains_key(c),
            ancestors_hit(rep0, c),
            forall|x: Seq<char>| #[trigger] rep0.contains_key(x) ==> ancestors_hit(rep0, x),
            forall|i: int|
                0 <= i < w.len() ==> !rep0.contains_key(#[trigger] w[i]) && ancestors_hit(rep0, w[i]),
            w.no_duplicates(),
        ensures
            (w + ks).no_duplicates(),
            forall|i: int|
                0 <= i < ks.len() ==> !rep.contains_key(#[trigger] ks[i]) && ancestors_hit(rep, ks[i]),
    {
        lemma_children_distinct(c);
        assert forall|i: int| 0 <= i < ks.len() implies !rep.contains_key(#[trigger] ks[i])
            && ancestors_hit(rep, ks[i]) by {
            let x = ks[i];
            assert(x.take(c.len() as int) =~= c);
            if rep0.contains_key(x) {
                assert(ancestors_hit(rep0, x));
                assert(reported_hit(rep0, x.take(c.len() as int)));
            }
            assert(x != c);
            assert forall|k: int| 0 <= k < x.len() implies #[trigger] reported_hit(rep, x.take(k)) by {
                if k < c.len() {
                    assert(x.take(k) =~= c.take(k));
                    assert(reported_hit(rep0, c.take(k)));
                    assert(c.take(k) != c);
                } else {
                    assert(x.take(k) =~= c);
                }
            }
        }
        assert forall|a: int, b: int|
            0 <= a < (w + ks).len() && 0 <= b < (w + ks).len() && a != b implies (w + ks)[a] != (w
            + ks)[b] by {
            if a >= w.len() && b >= w.len() {
                assert(ks[a - w.len()] != ks[b - w.len()]);
            } else if a < w.len() && b >= w.len() {
                let y = ks[b - w.len()];
                assert(y.take(c.len() as int) =~= c);
                if w[a] == y {
                    assert(ancestors_hit(rep0, w[a]));
                    assert(reported_hit(rep0, y.take(c.len() as int)));
                }
            } else if a >= w.len() && b < w.len() {
                let y = ks[a - w.len()];
                assert(y.take(c.len() as int) =~= c);
                if w[b] == y {
                    assert(ancestors_hit(rep0, w[b]));
                    assert(reported_hit(rep0, y.take(c.len() as int)));
                }
            }
        }
    }

    /// The cells kept. Once no cell waits or is handed out, they are exactly
    /// the cells of the level that, with all their ancestors, were reported
    /// to meet the geometry, and every cell of the level whose ancestors
    /// all met it was tested.
    pub fn into_found(self) -> (r: Vec<String>)
        requires
            self.wf(),
        ensures
            string_views(r@) == self.found_cells(),
            string_views(r@).no_duplicates(),
            forall|i: int| 0 <= i < r.len() ==> #[trigger] is_cell(r[i]@) && r[i]@.len() == self.level(),
            forall|x: Seq<char>|
                #[trigger] string_views(r@).contains(x) ==> reported_hit(self.reports(), x)
                    && ancestors_hit(self.reports(), x),
            !self.has_work() && self.current() is None ==> forall|x: Seq<char>|
                is_cell(x) && x.len() == self.level() && #[trigger] ancestors_hit(self.reports(), x)
                    ==> self.reports().contains_key(x) && (string_views(r@).contains(x)
                    <== self.reports()[x]),
    {
        proof {
            let f = self.found_cells();
            let rep = self.reports@;
            assert forall|i: int| 0 <= i < self.found.len() implies #[trigger] is_cell(self.found[i]@)
                && self.found[i]@.len() == self.level by {
                assert(f[i] == self.found[i]@);
                assert(is_cell(f[i]));
                assert(f[i].len() == self.level);
            }
            assert forall|x: Seq<char>| #[trigger] f.contains(x) implies reported_hit(rep, x)
                && ancestors_hit(rep, x) by {
                let i = choose|i: int| 0 <= i < f.len() && f[i] == x;
                assert(reported_hit(rep, f[i]));
            }
            if !self.has_work() && self.current@ is None {
                assert forall|x: Seq<char>|
                    is_cell(x) && x.len() == self.level && #[trigger] ancestors_hit(rep, x)
                        implies rep.contains_key(x) && (f.contains(x) <== rep[x]) by {
                    if x.len() == 0 {
                        assert(x =~= Seq::<char>::empty());
                        assert(self.pending(Seq::empty()));
                    } else {
                        let n = x.len() - 1;
                        let p = x.take(n);
                        assert(reported_hit(rep, p));
                        assert(base32().contains(x[n]));
                        let j = choose|j: int| 0 <= j < base32().len() && base32()[j] == x[n];
                        assert(p.push(base32()[j]) =~= x);
                        assert(self.pending(p.push(base32()[j])));
                    }
                    if rep[x] {
                        assert(reported_hit(rep, x));
                    }
                }
            }
        }
        self.found
    }
}

} // verus!
