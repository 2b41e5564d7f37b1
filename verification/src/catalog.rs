//! The migration catalog: the complete set of schema changes declared for one
//! database, held in the order in which they are applied.

use crate::error::{MigrationError, MigrationErrorView};
use crate::migration::{tag_of, views, Migration, MigrationView};
use vstd::prelude::*;
use vstd::seq_lib::{to_multiset_build, to_multiset_insert};
use vstd::slice::slice_subrange;

verus! {

/// Versions strictly increase along `s`.
pub open spec fn ascending(s: Seq<MigrationView>) -> bool {
    forall|i: int, j: int|
        #![trigger s[i], s[j]]
        0 <= i < j < s.len() ==> s[i].version < s[j].version
}

/// Every version in `s` is positive.
pub open spec fn positive(s: Seq<MigrationView>) -> bool {
    forall|i: int| 0 <= i < s.len() ==> (#[trigger] s[i]).version > 0
}

/// The entry at `i` cannot belong to a catalog made of `s`: its version is not
/// positive, or an earlier entry already has it.
pub open spec fn faulty_at(s: Seq<MigrationView>, i: int) -> bool {
    s[i].version <= 0 || exists|j: int| 0 <= j < i && (#[trigger] s[j]).version == s[i].version
}

/// `s` can be declared as a catalog: all versions positive, no version twice.
pub open spec fn well_declared(s: Seq<MigrationView>) -> bool {
    forall|i: int| 0 <= i < s.len() ==> !#[trigger] faulty_at(s, i)
}

/// `i` is the first position of `s`, in declaration order, that is faulty.
pub open spec fn first_fault(s: Seq<MigrationView>, i: int) -> bool {
    &&& 0 <= i < s.len()
    &&& faulty_at(s, i)
    &&& forall|j: int| 0 <= j < i ==> !#[trigger] faulty_at(s, j)
}

/// What a well-formed catalog is: versions positive and strictly increasing.
pub open spec fn ordered(s: Seq<MigrationView>) -> bool {
    ascending(s) && positive(s)
}

/// The migrations of `s` that a database at version `since` still lacks, in
/// the order of `s`.
pub open spec fn pending_spec(s: Seq<MigrationView>, since: int) -> Seq<MigrationView> {
    s.filter(|m: MigrationView| m.version > since)
}

/// How many migrations of `s` a database at version `since` already has.
pub open spec fn settled(s: Seq<MigrationView>, since: int) -> nat {
    (s.len() - pending_spec(s, since).len()) as nat
}

/// `k` splits `s` into the entries at or below `since` and those above it.
pub open spec fn splits_at(s: Seq<MigrationView>, since: int, k: int) -> bool {
    &&& 0 <= k <= s.len()
    &&& forall|i: int| 0 <= i < k ==> (#[trigger] s[i]).version <= since
    &&& forall|i: int| k <= i < s.len() ==> (#[trigger] s[i]).version > since
}

/// Where `k` splits `s` at `since`, the pending migrations are the entries
/// from `k` on.
pub proof fn lemma_pending_is_suffix(s: Seq<MigrationView>, since: int, k: int)
    requires
        splits_at(s, since, k),
    ensures
        pending_spec(s, since) == s.skip(k),
        settled(s, since) == k,
    decreases s.len(),
{
    reveal(Seq::filter);
    if s.len() > 0 {
        let front = s.drop_last();
        let split = if k == s.len() {
            k - 1
        } else {
            k
        };
        assert(splits_at(front, since, split));
        lemma_pending_is_suffix(front, since, split);
    }
}

/// In an ascending sequence the split point at `since` exists and is unique:
/// it is the number of settled entries.
pub proof fn lemma_split_exists(s: Seq<MigrationView>, since: int)
    requires
        ascending(s),
    ensures
        splits_at(s, since, settled(s, since) as int),
    decreases s.len(),
{
    if s.len() == 0 {
        lemma_pending_is_suffix(s, since, 0);
    } else {
        let front = s.drop_last();
        assert(ascending(front));
        lemma_split_exists(front, since);
        let k = settled(front, since) as int;
        let split = if s.last().version <= since {
            s.len() as int
        } else {
            k
        };
        assert(splits_at(s, since, split)) by {
            assert forall|i: int| 0 <= i < s.len() - 1 implies front[i] == #[trigger] s[i] by {}
        }
        lemma_pending_is_suffix(s, since, split);
    }
}

/// The pending migrations of an ordered catalog are themselves ordered.
pub proof fn lemma_pending_is_ordered(s: Seq<MigrationView>, since: int)
    requires
        ordered(s),
    ensures
        ordered(pending_spec(s, since)),
{
    lemma_split_exists(s, since);
    let k = settled(s, since) as int;
    lemma_pending_is_suffix(s, since, k);
}

/// No version occurs twice in a well-declared sequence, so no migration does.
pub proof fn lemma_well_declared_no_duplicates(s: Seq<MigrationView>)
    requires
        well_declared(s),
    ensures
        s.no_duplicates(),
        positive(s),
        forall|i: int, j: int|
            #![trigger s[i], s[j]]
            0 <= i < j < s.len() ==> s[i].version != s[j].version,
{
    assert forall|i: int, j: int|
        #![trigger s[i], s[j]]
        0 <= i < j < s.len() implies s[i].version != s[j].version by {
        assert(!faulty_at(s, j));
    }
    assert forall|i: int| 0 <= i < s.len() implies (#[trigger] s[i]).version > 0 by {
        assert(!faulty_at(s, i));
    }
}

/// Whether a set of migrations can be declared does not depend on the order
/// in which they are written down.
pub proof fn lemma_well_declared_any_order(d1: Seq<MigrationView>, d2: Seq<MigrationView>)
    requires
        d1.to_multiset() == d2.to_multiset(),
        well_declared(d1),
    ensures
        well_declared(d2),
{
    broadcast use vstd::seq_lib::group_to_multiset_ensures;

    lemma_well_declared_no_duplicates(d1);
    d1.lemma_multiset_has_no_duplicates();
    d2.lemma_multiset_has_no_duplicates_conv();
    assert forall|i: int| 0 <= i < d2.len() implies !#[trigger] faulty_at(d2, i) by {
        assert(d2.to_multiset().contains(d2[i]));
        let a = choose|a: int| 0 <= a < d1.len() && d1[a] == d2[i];
        if exists|j: int| 0 <= j < i && (#[trigger] d2[j]).version == d2[i].version {
            let j = choose|j: int| 0 <= j < i && (#[trigger] d2[j]).version == d2[i].version;
            assert(d2.to_multiset().contains(d2[j]));
            let b = choose|b: int| 0 <= b < d1.len() && d1[b] == d2[j];
            assert(d1[a].version == d1[b].version);
        }
    }
}

/// Two ascending sequences that hold the same migrations are equal.
pub proof fn lemma_ascending_unique(x: Seq<MigrationView>, y: Seq<MigrationView>)
    requires
        ascending(x),
        ascending(y),
        x.to_multiset() == y.to_multiset(),
    ensures
        x == y,
    decreases x.len(),
{
    broadcast use vstd::seq_lib::group_to_multiset_ensures;
    broadcast use vstd::multiset::group_multiset_axioms;

    vstd::seq_lib::to_multiset_len(x);
    vstd::seq_lib::to_multiset_len(y);
    if x.len() > 0 {
        // Each head occurs in the other sequence, and nothing there is below
        // that sequence's own head: the heads are the same migration.
        assert(x.to_multiset().contains(x[0]));
        assert(y.to_multiset().contains(y[0]));
        let i = choose|i: int| 0 <= i < x.len() && x[i] == y[0];
        let j = choose|j: int| 0 <= j < y.len() && y[j] == x[0];
        assert(x[0] == y[0]);
        let xs = x.drop_first();
        let ys = y.drop_first();
        vstd::seq_lib::to_multiset_remove(x, 0);
        vstd::seq_lib::to_multiset_remove(y, 0);
        assert(ascending(xs));
        assert(ascending(ys));
        lemma_ascending_unique(xs, ys);
        assert(y =~= seq![y[0]] + ys);
    }
}

/// Declaration order is irrelevant: whenever `declared` and `shuffled` hold
/// the same migrations, one can be declared exactly if the other can, and the
/// catalogs built from them, `first` and `second`, are the same catalog, so
/// the order of application is the same ascending one.
pub proof fn law_declaration_order_is_irrelevant(
    declared: Seq<MigrationView>,
    shuffled: Seq<MigrationView>,
    first: Seq<MigrationView>,
    second: Seq<MigrationView>,
)
    requires
        declared.to_multiset() == shuffled.to_multiset(),
        ordered(first) && first.to_multiset() == declared.to_multiset(),
        ordered(second) && second.to_multiset() == shuffled.to_multiset(),
    ensures
        well_declared(declared) <==> well_declared(shuffled),
        first == second,
        ascending(first),
{
    if well_declared(declared) {
        lemma_well_declared_any_order(declared, shuffled);
    }
    if well_declared(shuffled) {
        lemma_well_declared_any_order(shuffled, declared);
    }
    lemma_ascending_unique(first, second);
}

/// The complete set of migrations declared for one database, ordered by
/// version. A value of this type always holds positive, strictly increasing
/// versions.
#[derive(Debug)]
pub struct Catalog {
    migrations: Vec<Migration>,
}

impl View for Catalog {
    type V = Seq<MigrationView>;

    closed spec fn view(&self) -> Seq<MigrationView> {
        views(self.migrations@)
    }
}

impl Catalog {
    #[verifier::type_invariant]
    spec fn well_formed(self) -> bool {
        ordered(views(self.migrations@))
    }

    /// Builds the catalog of the migrations in `declared`, which may come in
    /// any order. Fails, naming the first offending entry, when a version is
    /// not positive or occurs twice; otherwise the catalog holds exactly the
    /// declared migrations, ordered by version.
    pub fn new(declared: Vec<Migration>) -> (r: Result<Catalog, MigrationError>)
        ensures
            r is Ok <==> well_declared(views(declared@)),
            r matches Ok(c) ==> {
                &&& ordered(c@)
                &&& c@.to_multiset() == views(declared@).to_multiset()
            },
            r matches Err(e) ==> exists|i: int|
                {
                    &&& #[trigger] first_fault(views(declared@), i)
                    &&& e@ == (MigrationErrorView::DefinitionError {
                        migration: tag_of(views(declared@)[i]),
                    })
                },
    {
        match find_fault(&declared) {
            Some(at) => Err(MigrationError::DefinitionError { migration: declared[at].tag() }),
            None => Ok(Catalog { migrations: sort_by_version(declared) }),
        }
    }

    /// The number of migrations in the catalog. Every catalog is ordered.
    pub fn len(&self) -> (n: usize)
        ensures
            n == self@.len(),
            ordered(self@),
    {
        proof {
            use_type_invariant(self);
        }
        self.migrations.len()
    }

    /// The migration at position `index` in order of version, if there is one.
    pub fn get(&self, index: usize) -> (m: Option<&Migration>)
        ensures
            index < self@.len() ==> (m matches Some(found) && found@ == self@[index as int]),
            index >= self@.len() ==> m is None,
    {
        if index < self.migrations.len() {
            Some(&self.migrations[index])
        } else {
            None
        }
    }

    /// The migration at position `index`, which must exist.
    pub(crate) fn at(&self, index: usize) -> (m: &Migration)
        requires
            index < self@.len(),
        ensures
            m@ == self@[index as int],
    {
        &self.migrations[index]
    }

    /// The number of migrations that a database at version `since` already
    /// has: the position of the first pending one.
    pub fn settled(&self, since: i64) -> (k: usize)
        ensures
            ordered(self@),
            k == settled(self@, since as int),
            splits_at(self@, since as int, k as int),
    {
        proof {
            use_type_invariant(self);
        }
        let ghost s = self@;
        let mut k: usize = 0;
        while k < self.migrations.len() && self.migrations[k].version <= since
            invariant
                s == views(self.migrations@),
                0 <= k <= s.len(),
                forall|i: int| 0 <= i < k ==> (#[trigger] s[i]).version <= since,
            decreases s.len() - k,
        {
            k += 1;
        }
        proof {
            assert forall|i: int| k <= i < s.len() implies (#[trigger] s[i]).version > since by {
                if i > k {
                    assert(s[k as int].version < s[i].version);
                }
            }
            lemma_pending_is_suffix(s, since as int, k as int);
        }
        k
    }

    /// The migrations with a version above `since`, in ascending order of
    /// version. The catalog never changes, so the same `since` gives the same
    /// answer every time.
    pub fn pending(&self, since: i64) -> (todo: &[Migration])
        ensures
            views(todo@) == pending_spec(self@, since as int),
            ordered(views(todo@)),
    {
        let k = self.settled(since);
        let todo = slice_subrange(self.migrations.as_slice(), k, self.migrations.len());
        proof {
            lemma_pending_is_suffix(self@, since as int, k as int);
            let s = self@;
            let t = views(todo@);
            assert forall|i: int, j: int|
                #![trigger t[i], t[j]]
                0 <= i < j < t.len() implies t[i].version < t[j].version by {
                assert(t[i] == s[i + k] && t[j] == s[j + k]);
            }
            assert forall|i: int| 0 <= i < t.len() implies (#[trigger] t[i]).version > 0 by {
                assert(t[i] == s[i + k]);
            }
        }
        todo
    }
}

/// The first position of `declared` that is faulty, if any.
fn find_fault(declared: &Vec<Migration>) -> (r: Option<usize>)
    ensures
        r is None <==> well_declared(views(declared@)),
        r matches Some(at) ==> first_fault(views(declared@), at as int),
{
    let ghost s = views(declared@);
    let mut i: usize = 0;
    while i < declared.len()
        invariant
            s == views(declared@),
            0 <= i <= s.len(),
            forall|k: int| 0 <= k < i ==> !#[trigger] faulty_at(s, k),
        decreases s.len() - i,
    {
        if declared[i].version <= 0 {
            assert(faulty_at(s, i as int));
            return Some(i);
        }
        let mut j: usize = 0;
        while j < i
            invariant
                s == views(declared@),
                0 <= j <= i < s.len(),
                s[i as int].version > 0,
                forall|k: int| 0 <= k < i ==> !#[trigger] faulty_at(s, k),
                forall|k: int| 0 <= k < j ==> (#[trigger] s[k]).version != s[i as int].version,
            decreases i - j,
        {
            if declared[j].version == declared[i].version {
                assert(s[j as int].version == s[i as int].version);
                assert(faulty_at(s, i as int));
                return Some(i);
            }
            j += 1;
        }
        i += 1;
    }
    None
}

/// Orders well-declared migrations by version.
fn sort_by_version(declared: Vec<Migration>) -> (sorted: Vec<Migration>)
    requires
        well_declared(views(declared@)),
    ensures
        ordered(views(sorted@)),
        views(sorted@).to_multiset() == views(declared@).to_multiset(),
{
    let ghost all = views(declared@);
    let mut rest = declared;
    let mut sorted: Vec<Migration> = Vec::new();
    proof {
        broadcast use vstd::seq_lib::group_to_multiset_ensures;
        broadcast use vstd::multiset::group_multiset_axioms;

        assert(views(sorted@).to_multiset().add(views(rest@).to_multiset()) =~= all.to_multiset());
    }
    while rest.len() > 0
        invariant
            well_declared(all),
            rest.len() <= all.len(),
            views(rest@) == all.take(rest.len() as int),
            ordered(views(sorted@)),
            views(sorted@).to_multiset().add(views(rest@).to_multiset()) == all.to_multiset(),
            forall|i: int, j: int|
                #![trigger views(sorted@)[i], views(rest@)[j]]
                0 <= i < sorted.len() && 0 <= j < rest.len() ==> views(sorted@)[i].version
                    != views(rest@)[j].version,
        decreases rest.len(),
    {
        let ghost before = views(rest@);
        let ghost done = views(sorted@);
        let m = rest.pop().unwrap();
        let ghost after = views(rest@);
        proof {
            assert(before =~= after.push(m@));
            assert(after =~= all.take(rest.len() as int));
            assert(!faulty_at(all, rest.len() as int));
            assert forall|i: int| 0 <= i < done.len() implies (#[trigger] done[i]).version
                != m@.version by {
                assert(done[i].version != before[before.len() - 1].version);
            }
        }
        let mut p: usize = 0;
        while p < sorted.len() && sorted[p].version < m.version
            invariant
                done == views(sorted@),
                0 <= p <= done.len(),
                forall|i: int| 0 <= i < p ==> (#[trigger] done[i]).version < m@.version,
            decreases done.len() - p,
        {
            p += 1;
        }
        proof {
            assert forall|i: int| p <= i < done.len() implies (#[trigger] done[i]).version
                > m@.version by {
                if i > p {
                    assert(done[p as int].version < done[i].version);
                }
            }
        }
        sorted.insert(p, m);
        proof {
            let grown = views(sorted@);
            assert(grown =~= done.insert(p as int, m@));
            to_multiset_insert(done, p as int, m@);
            to_multiset_build(after, m@);
            assert(grown.to_multiset().add(after.to_multiset()) =~= done.to_multiset().add(
                before.to_multiset(),
            ));
            assert(ascending(grown));
            assert(positive(grown));
        }
    }
    proof {
        broadcast use vstd::seq_lib::group_to_multiset_ensures;
        broadcast use vstd::multiset::group_multiset_axioms;

        assert(views(sorted@).to_multiset().add(views(rest@).to_multiset()) =~= views(
            sorted@,
        ).to_multiset());
    }
    sorted
}

} // verus!
