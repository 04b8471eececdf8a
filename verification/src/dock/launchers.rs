use crate::keyed::{entries_map, has_key, keys_distinct, lemma_insert_fresh, lemma_replace_at};
use vstd::prelude::*;

verus! {

/// A configured launcher: the icon to show and the shell command to run.
pub struct Launchable {
    pub icon: String,
    pub command: String,
}

/// The spec value of a [`Launchable`].
pub struct LaunchableView {
    pub icon: Seq<char>,
    pub command: Seq<char>,
}

impl View for Launchable {
    type V = LaunchableView;

    open spec fn view(&self) -> LaunchableView {
        LaunchableView { icon: self.icon@, command: self.command@ }
    }
}

/// `a` sorts before `b` in code-point order, which is the byte order of
/// their UTF-8 encodings.
pub open spec fn name_lt(a: Seq<char>, b: Seq<char>) -> bool {
    exists|k: int| #[trigger] diverge_at(a, b, k)
}

/// `a` and `b` agree before `k`, and at `k` either `a` ends while `b` goes
/// on, or `a` holds the smaller character.
pub open spec fn diverge_at(a: Seq<char>, b: Seq<char>, k: int) -> bool {
    &&& 0 <= k <= a.len()
    &&& k <= b.len()
    &&& forall|j: int| 0 <= j < k ==> a[j] == b[j]
    &&& (k == a.len() && k < b.len()) || (k < a.len() && k < b.len() && a[k] < b[k])
}

pub proof fn lemma_name_lt_irreflexive(a: Seq<char>)
    ensures
        !name_lt(a, a),
{
    if name_lt(a, a) {
        let k = choose|k: int| #[trigger] diverge_at(a, a, k);
    }
}

pub proof fn lemma_name_lt_total(a: Seq<char>, b: Seq<char>)
    requires
        a != b,
    ensures
        name_lt(a, b) || name_lt(b, a),
{
    // the first position where they differ, or the shorter length
    let n = if a.len() < b.len() { a.len() as int } else { b.len() as int };
    if forall|j: int| 0 <= j < n ==> a[j] == b[j] {
        if a.len() < b.len() {
            assert(diverge_at(a, b, n));
        } else if b.len() < a.len() {
            assert(diverge_at(b, a, n));
        } else {
            assert(a =~= b);
        }
    } else {
        let j0 = choose|j: int| 0 <= j < n && a[j] != b[j];
        lemma_first_difference(a, b, j0);
        let k = choose|k: int| 0 <= k <= j0 && a[k] != b[k] && forall|j: int| 0 <= j < k ==> a[j] == b[j];
        if a[k] < b[k] {
            assert(diverge_at(a, b, k));
        } else {
            assert(diverge_at(b, a, k));
        }
    }
}

proof fn lemma_first_difference(a: Seq<char>, b: Seq<char>, j0: int)
    requires
        0 <= j0 < a.len(),
        j0 < b.len(),
        a[j0] != b[j0],
    ensures
        exists|k: int| 0 <= k <= j0 && a[k] != b[k] && forall|j: int| 0 <= j < k ==> a[j] == b[j],
    decreases j0,
{
    if forall|j: int| 0 <= j < j0 ==> a[j] == b[j] {
        assert(0 <= j0 <= j0 && a[j0] != b[j0] && forall|j: int| 0 <= j < j0 ==> a[j] == b[j]);
    } else {
        let j1 = choose|j: int| 0 <= j < j0 && a[j] != b[j];
        lemma_first_difference(a, b, j1);
    }
}

pub proof fn lemma_name_lt_transitive(a: Seq<char>, b: Seq<char>, c: Seq<char>)
    requires
        name_lt(a, b),
        name_lt(b, c),
    ensures
        name_lt(a, c),
{
    let k1 = choose|k: int| #[trigger] diverge_at(a, b, k);
    let k2 = choose|k: int| #[trigger] diverge_at(b, c, k);
    if k1 < k2 {
        assert(diverge_at(a, c, k1));
    } else if k2 < k1 {
        assert(diverge_at(a, c, k2));
    } else {
        assert(diverge_at(a, c, k1));
    }
}

/// Names sort by their characters' code points at the first place where
/// they differ: if `a` and `b` agree before `k` and `a[k] < b[k]`, then `a`
/// sorts before `b` and not the other way round.
pub proof fn lemma_name_order_follows_characters(a: Seq<char>, b: Seq<char>, k: int)
    requires
        0 <= k < a.len(),
        k < b.len(),
        forall|j: int| 0 <= j < k ==> a[j] == b[j],
        a[k] < b[k],
    ensures
        name_lt(a, b),
        !name_lt(b, a),
{
    assert(diverge_at(a, b, k));
    if name_lt(b, a) {
        let m = choose|m: int| #[trigger] diverge_at(b, a, m);
        if m < k {
            assert(b[m] == a[m]);
        } else if m > k {
            assert(b[k] == a[k]);
        }
    }
}

/// A name sorts before every longer name that it begins.
pub proof fn lemma_prefix_sorts_first(a: Seq<char>, b: Seq<char>)
    requires
        a.len() < b.len(),
        forall|j: int| 0 <= j < a.len() ==> a[j] == b[j],
    ensures
        name_lt(a, b),
        !name_lt(b, a),
{
    assert(diverge_at(a, b, a.len() as int));
    if name_lt(b, a) {
        let m = choose|m: int| #[trigger] diverge_at(b, a, m);
        assert(b[m] == a[m]);
    }
}

/// Whether `a` sorts before `b` (see [`name_lt`]).
pub fn names_ordered(a: &str, b: &str) -> (r: bool)
    ensures
        r == name_lt(a@, b@),
{
    let alen = a.unicode_len();
    let blen = b.unicode_len();
    let mut i: usize = 0;
    while i < alen && i < blen && a.get_char(i) == b.get_char(i)
        invariant
            alen == a@.len(),
            blen == b@.len(),
            i <= alen,
            i <= blen,
            forall|j: int| 0 <= j < i ==> a@[j] == b@[j],
        decreases alen - i,
    {
        i = i + 1;
    }
    let r = if i < alen && i < blen {
        a.get_char(i) < b.get_char(i)
    } else {
        i == alen && i < blen
    };
    proof {
        if r {
            assert(diverge_at(a@, b@, i as int));
        } else if name_lt(a@, b@) {
            let k = choose|k: int| #[trigger] diverge_at(a@, b@, k);
            if k < i {
                assert(a@[k] == b@[k]);
            } else if k > i {
                assert(a@[i as int] == b@[i as int]);
            }
        }
    }
    r
}

/// All names of `entries` strictly increase.
pub open spec fn sorted_by_name(entries: Seq<(Seq<char>, LaunchableView)>) -> bool {
    forall|i: int, j: int| 0 <= i < j < entries.len() ==> name_lt(#[trigger] entries[i].0, #[trigger] entries[j].0)
}

pub open spec fn pairs_view(entries: Seq<(String, Launchable)>) -> Seq<(Seq<char>, LaunchableView)> {
    entries.map_values(|e: (String, Launchable)| (e.0@, e.1@))
}

/// The dock's configuration: the launchers, by name.
pub struct Config {
    launchables: Vec<(String, Launchable)>,
}

impl View for Config {
    type V = Seq<(Seq<char>, LaunchableView)>;

    closed spec fn view(&self) -> Seq<(Seq<char>, LaunchableView)> {
        pairs_view(self.launchables@)
    }
}

/// The launchers of a configuration read as a map from names.
pub open spec fn launchers_map(entries: Seq<(Seq<char>, LaunchableView)>) -> Map<Seq<char>, LaunchableView> {
    Map::new(
        |k: Seq<char>| exists|i: int| 0 <= i < entries.len() && #[trigger] entries[i].0 == k,
        |k: Seq<char>| entries[choose|i: int| 0 <= i < entries.len() && #[trigger] entries[i].0 == k].1,
    )
}

proof fn lemma_sorted_distinct(entries: Seq<(String, Launchable)>)
    requires
        sorted_by_name(pairs_view(entries)),
    ensures
        keys_distinct(entries),
{
    let pv = pairs_view(entries);
    assert forall|i: int, j: int|
        0 <= i < entries.len() && 0 <= j < entries.len() && i != j implies #[trigger] entries[i].0@
        != #[trigger] entries[j].0@ by {
        assert(pv[i].0 == entries[i].0@ && pv[j].0 == entries[j].0@);
        if i < j {
            assert(name_lt(pv[i].0, pv[j].0));
        } else {
            assert(name_lt(pv[j].0, pv[i].0));
        }
        lemma_name_lt_irreflexive(entries[i].0@);
    }
}

proof fn lemma_map_views(entries: Seq<(String, Launchable)>)
    requires
        keys_distinct(entries),
    ensures
        launchers_map(pairs_view(entries)) == entries_map(entries),
{
    let pv = pairs_view(entries);
    let m = launchers_map(pv);
    let m0 = entries_map(entries);
    assert forall|k: Seq<char>| m.contains_key(k) <==> m0.contains_key(k) by {
        if m.contains_key(k) {
            let i = choose|i: int| 0 <= i < pv.len() && #[trigger] pv[i].0 == k;
            assert(entries[i].0@ == k);
        }
        if m0.contains_key(k) {
            let i = choose|i: int| 0 <= i < entries.len() && #[trigger] entries[i].0@ == k;
            assert(pv[i].0 == k);
        }
    }
    assert forall|k: Seq<char>| #[trigger] m.contains_key(k) implies m[k] == m0[k] by {
        let i = choose|i: int| 0 <= i < pv.len() && #[trigger] pv[i].0 == k;
        let j = choose|j: int| 0 <= j < entries.len() && #[trigger] entries[j].0@ == k;
        assert(pv[i].0 == entries[i].0@);
        assert(entries[i].0@ == k);
    }
    assert(m =~= m0);
}

impl Config {
    #[verifier::type_invariant]
    spec fn names_sorted(&self) -> bool {
        sorted_by_name(pairs_view(self.launchables@))
    }

    /// A configuration without launchers.
    pub fn new() -> (c: Self)
        ensures
            c@ == Seq::<(Seq<char>, LaunchableView)>::empty(),
    {
        let c = Config { launchables: Vec::new() };
        assert(c@ =~= Seq::<(Seq<char>, LaunchableView)>::empty());
        c
    }

    /// The launchers in name order.
    pub fn launchables(&self) -> (l: &Vec<(String, Launchable)>)
        ensures
            pairs_view(l@) == self@,
            sorted_by_name(self@),
    {
        proof {
            use_type_invariant(self);
        }
        &self.launchables
    }

    /// Adds the launcher `l` under `name`, replacing one of the same name;
    /// the launchers stay in name order.
    pub fn insert(&mut self, name: String, l: Launchable)
        ensures
            sorted_by_name(final(self)@),
            launchers_map(final(self)@) == launchers_map(old(self)@).insert(name@, l@),
    {
        proof {
            use_type_invariant(&*self);
            lemma_sorted_distinct(self.launchables@);
            lemma_map_views(self.launchables@);
        }
        let ghost old_e = self.launchables@;
        let ghost pv = pairs_view(old_e);
        let mut p: usize = 0;
        while p < self.launchables.len() && names_ordered(self.launchables[p].0.as_str(), name.as_str())
            invariant
                p <= old_e.len(),
                self.launchables@ == old_e,
                pv == pairs_view(old_e),
                forall|j: int| 0 <= j < p ==> name_lt(#[trigger] pv[j].0, name@),
            decreases old_e.len() - p,
        {
            assert(pv[p as int].0 == old_e[p as int].0@);
            p = p + 1;
        }
        let mut entries = Vec::new();
        std::mem::swap(&mut entries, &mut self.launchables);
        let ghost e = (name, l);
        if p < entries.len() && entries[p].0 == name {
            proof {
                lemma_replace_at(old_e, p as int, e);
                lemma_map_views(old_e.update(p as int, e));
                let upd = pv.update(p as int, (name@, l@));
                assert(pairs_view(old_e.update(p as int, e)) =~= upd);
                assert(pv[p as int].0 == name@);
                assert forall|i: int, j: int| 0 <= i < j < upd.len() implies name_lt(
                    #[trigger] upd[i].0,
                    #[trigger] upd[j].0,
                ) by {
                    assert(upd[i].0 == pv[i].0 && upd[j].0 == pv[j].0);
                }
            }
            entries.set(p, (name, l));
        } else {
            proof {
                if p < old_e.len() {
                    assert(pv[p as int].0 == old_e[p as int].0@);
                    lemma_name_lt_total(pv[p as int].0, name@);
                }
                let ins = pv.insert(p as int, (name@, l@));
                assert(pairs_view(old_e.insert(p as int, e)) =~= ins);
                assert forall|i: int, j: int| 0 <= i < j < ins.len() implies name_lt(
                    #[trigger] ins[i].0,
                    #[trigger] ins[j].0,
                ) by {
                    if j < p {
                    } else if j == p {
                    } else if i < p {
                        assert(ins[j] == pv[j - 1]);
                        assert(name_lt(pv[i].0, pv[j - 1].0));
                    } else if i == p {
                        assert(ins[j] == pv[j - 1]);
                        if j - 1 > p {
                            assert(name_lt(pv[p as int].0, pv[j - 1].0));
                            lemma_name_lt_transitive(name@, pv[p as int].0, pv[j - 1].0);
                        }
                    } else {
                        assert(ins[i] == pv[i - 1] && ins[j] == pv[j - 1]);
                    }
                }
                assert(!has_key(old_e, name@)) by {
                    if has_key(old_e, name@) {
                        let i = choose|i: int| 0 <= i < old_e.len() && #[trigger] old_e[i].0@ == name@;
                        assert(pv[i].0 == name@);
                        lemma_name_lt_irreflexive(name@);
                        if i > p {
                            assert(name_lt(pv[p as int].0, pv[i].0));
                            lemma_name_lt_transitive(name@, pv[p as int].0, pv[i].0);
                        }
                    }
                }
                lemma_insert_fresh(old_e, p as int, e);
                lemma_map_views(old_e.insert(p as int, e));
            }
            entries.insert(p, (name, l));
        }
        self.launchables = entries;
    }
}

} // verus!
