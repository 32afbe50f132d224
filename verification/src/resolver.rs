//! Fragment resolution: starting from one root package, every referenced
//! fragment specification is brought into a name-to-package table, fragments
//! of fragments too, each name at most once.
//!
//! The resolver works against a `universe` table holding every loadable
//! fragment specification (built by the caller from the files on disk). Its
//! outcome is pinned to a ghost model that is a pure function of the root
//! package and that universe, so resolution is deterministic: resolving the
//! same package twice in one run yields structurally identical tables. A
//! self-referential (cyclic) fragment chain terminates because a name
//! already resolved is never taken up again.

use vstd::prelude::*;
use crate::package::{
    Package, PackageEntryV, PackageTable, PackageV, clone_strings, append_strings, table_find,
    table_get, table_wf, lemma_table_find_at,
};

verus! {

/// Failure of fragment resolution: a referenced fragment specification
/// exists nowhere in the universe; carries the offending name. (The ghost
/// model also guards its recursion with a step budget, but that budget is
/// proven never to run out, so no such failure exists here.)
#[derive(Debug)]
pub enum ResolveError {
    MissingFragment(String),
}

/// Ghost shape of a resolution failure: a missing fragment, or the model
/// recursion's budget guard, which [`lemma_resolution_never_exhausts`]
/// shows unreachable under the budget of [`budget_of`].
pub enum ResolveErrorV {
    MissingFragment(Seq<char>),
    Exhausted,
}

impl View for ResolveError {
    type V = ResolveErrorV;

    open spec fn view(&self) -> ResolveErrorV {
        match self {
            ResolveError::MissingFragment(n) => ResolveErrorV::MissingFragment(n@),
        }
    }
}

/// Absence from a table means no entry carries the name.
proof fn lemma_table_find_absent(t: Seq<PackageEntryV>, name: Seq<char>)
    requires
        table_find(t, name) < 0,
    ensures
        forall|j: int| 0 <= j < t.len() ==> t[j].name != name,
    decreases t.len(),
{
    if t.len() > 0 {
        assert(t[0].name != name);
        lemma_table_find_absent(t.drop_first(), name);
        assert forall|j: int| 0 <= j < t.len() implies t[j].name != name by {
            if j > 0 {
                assert(t.drop_first()[j - 1].name != name);
            }
        }
    }
}

/// Worklist steps that may be needed: one per root fragment reference plus,
/// for each universe entry, one for the entry and one per reference it adds.
pub open spec fn total_work(u: Seq<PackageEntryV>) -> nat
    decreases u.len(),
{
    if u.len() == 0 {
        0
    } else {
        1 + u[0].package.fragments.len() + total_work(u.drop_first())
    }
}

/// A step budget that resolution can never exhaust: each universe entry is
/// resolved at most once, so at most [`total_work`] names are ever queued
/// after the root's own references.
pub open spec fn budget_of(root: PackageV, u: Seq<PackageEntryV>) -> nat {
    root.fragments.len() + total_work(u) + 1
}

proof fn lemma_total_work_push(u: Seq<PackageEntryV>, e: PackageEntryV)
    ensures
        total_work(u.push(e)) == total_work(u) + 1 + e.package.fragments.len(),
    decreases u.len(),
{
    if u.len() == 0 {
        assert(u.push(e)[0] == e);
        assert(u.push(e).drop_first() =~= Seq::<PackageEntryV>::empty());
        assert(total_work(u.push(e).drop_first()) == 0);
        assert(total_work(u.push(e)) == 1 + e.package.fragments.len());
        assert(total_work(u) == 0);
    } else {
        assert(u.push(e).drop_first() =~= u.drop_first().push(e));
        assert(u.push(e)[0] == u[0]);
        lemma_total_work_push(u.drop_first(), e);
        assert(total_work(u.push(e)) == 1 + u[0].package.fragments.len() + total_work(
            u.drop_first().push(e),
        ));
        assert(total_work(u) == 1 + u[0].package.fragments.len() + total_work(u.drop_first()));
    }
}

proof fn lemma_total_work_take_le(u: Seq<PackageEntryV>, i: int)
    requires
        0 <= i <= u.len(),
    ensures
        total_work(u.take(i)) <= total_work(u),
    decreases u.len() - i,
{
    if i < u.len() {
        assert(u.take(i + 1) =~= u.take(i).push(u[i]));
        lemma_total_work_push(u.take(i), u[i]);
        lemma_total_work_take_le(u, i + 1);
    } else {
        assert(u.take(i) =~= u);
    }
}

/// One small-step worklist semantics of resolution: take the front name;
/// skip it when resolved already, fail when it is nowhere in the universe,
/// otherwise adopt the universe's package and queue its own references.
pub open spec fn resolve_model(
    universe: Seq<PackageEntryV>,
    acc: Seq<PackageEntryV>,
    pending: Seq<Seq<char>>,
    budget: nat,
) -> Result<Seq<PackageEntryV>, ResolveErrorV>
    decreases budget,
{
    if pending.len() == 0 {
        Result::Ok(acc)
    } else if budget == 0 {
        Result::Err(ResolveErrorV::Exhausted)
    } else {
        let n = pending[0];
        if table_find(acc, n) >= 0 {
            resolve_model(universe, acc, pending.drop_first(), (budget - 1) as nat)
        } else {
            match table_get(universe, n) {
                Option::None => Result::Err(ResolveErrorV::MissingFragment(n)),
                Option::Some(p) => resolve_model(
                    universe,
                    acc.push(PackageEntryV { name: n, package: p }),
                    pending.drop_first() + p.fragments,
                    (budget - 1) as nat,
                ),
            }
        }
    }
}

/// The resolution outcome owed for a root package over a universe: a pure
/// function of the two.
pub open spec fn resolution_of(root: PackageV, universe: Seq<PackageEntryV>) -> Result<
    Seq<PackageEntryV>,
    ResolveErrorV,
> {
    resolve_model(universe, Seq::empty(), root.fragments, budget_of(root, universe))
}

/// Resolution is idempotent: two resolutions of the same root package over
/// the same universe within one run yield structurally identical tables.
pub proof fn lemma_resolution_idempotent(
    root: PackageV,
    universe: Seq<PackageEntryV>,
    t1: Seq<PackageEntryV>,
    t2: Seq<PackageEntryV>,
)
    requires
        resolution_of(root, universe) == Result::<Seq<PackageEntryV>, ResolveErrorV>::Ok(t1),
        resolution_of(root, universe) == Result::<Seq<PackageEntryV>, ResolveErrorV>::Ok(t2),
    ensures
        t1 == t2,
{
}


/// Work still owed by universe entries whose name is not yet resolved.
pub open spec fn remaining_work(u: Seq<PackageEntryV>, acc: Seq<PackageEntryV>) -> nat
    decreases u.len(),
{
    if u.len() == 0 {
        0
    } else {
        (if table_find(acc, u[0].name) >= 0 {
            0
        } else {
            1 + u[0].package.fragments.len()
        }) + remaining_work(u.drop_first(), acc)
    }
}

proof fn lemma_remaining_le_total(u: Seq<PackageEntryV>, acc: Seq<PackageEntryV>)
    ensures
        remaining_work(u, acc) <= total_work(u),
    decreases u.len(),
{
    if u.len() > 0 {
        lemma_remaining_le_total(u.drop_first(), acc);
    }
}

proof fn lemma_table_find_push_keeps(acc: Seq<PackageEntryV>, e: PackageEntryV, n: Seq<char>)
    requires
        table_find(acc, n) >= 0,
    ensures
        table_find(acc.push(e), n) >= 0,
    decreases acc.len(),
{
    if acc.len() > 0 {
        assert(acc.push(e)[0] == acc[0]);
        if acc[0].name == n {
        } else {
            assert(acc.push(e).drop_first() =~= acc.drop_first().push(e));
            lemma_table_find_push_keeps(acc.drop_first(), e, n);
        }
    }
}

proof fn lemma_table_find_push_other(acc: Seq<PackageEntryV>, e: PackageEntryV, n: Seq<char>)
    requires
        table_find(acc, n) < 0,
        e.name != n,
    ensures
        table_find(acc.push(e), n) < 0,
    decreases acc.len(),
{
    if acc.len() == 0 {
        assert(acc.push(e)[0] == e);
        assert(acc.push(e).drop_first() =~= Seq::<PackageEntryV>::empty());
        assert(table_find(acc.push(e).drop_first(), n) == -1);
    } else {
        assert(acc.push(e)[0] == acc[0]);
        assert(acc.push(e).drop_first() =~= acc.drop_first().push(e));
        lemma_table_find_push_other(acc.drop_first(), e, n);
    }
}

/// A found index always lies inside the table.
proof fn lemma_table_find_range(t: Seq<PackageEntryV>, n: Seq<char>)
    ensures
        -1 <= table_find(t, n) < t.len(),
    decreases t.len(),
{
    if t.len() > 0 && t[0].name != n {
        lemma_table_find_range(t.drop_first(), n);
    }
}

proof fn lemma_remaining_work_monotone(
    u: Seq<PackageEntryV>,
    acc: Seq<PackageEntryV>,
    e: PackageEntryV,
)
    ensures
        remaining_work(u, acc.push(e)) <= remaining_work(u, acc),
    decreases u.len(),
{
    if u.len() > 0 {
        if table_find(acc, u[0].name) >= 0 {
            lemma_table_find_push_keeps(acc, e, u[0].name);
        }
        lemma_remaining_work_monotone(u.drop_first(), acc, e);
    }
}

/// Adopting a fresh name found in the universe pays for itself: the
/// remaining work drops by at least the adopted entry's own work.
proof fn lemma_remaining_work_adopt(
    u: Seq<PackageEntryV>,
    acc: Seq<PackageEntryV>,
    n: Seq<char>,
    p: PackageV,
)
    requires
        table_get(u, n) == Option::Some(p),
        table_find(acc, n) < 0,
    ensures
        remaining_work(u, acc.push(PackageEntryV { name: n, package: p })) + 1
            + p.fragments.len() <= remaining_work(u, acc),
    decreases u.len(),
{
    let e = PackageEntryV { name: n, package: p };
    assert(u.len() > 0);
    if u[0].name == n {
        assert(table_find(u, n) == 0);
        assert(p == u[0].package);
        assert(table_find(acc.push(e), n) >= 0) by {
            lemma_table_find_absent(acc, n);
            assert forall|j: int| 0 <= j < acc.len() implies acc.push(e)[j].name != n by {
                assert(acc.push(e)[j] == acc[j]);
            }
            assert(acc.push(e)[acc.len() as int] == e);
            lemma_table_find_at(acc.push(e), n, acc.len() as int);
        }
        lemma_remaining_work_monotone(u.drop_first(), acc, e);
    } else {
        lemma_table_find_range(u, n);
        assert(1 <= table_find(u, n) < u.len());
        assert(table_find(u.drop_first(), n) == table_find(u, n) - 1);
        assert(table_get(u.drop_first(), n) == Option::Some(p)) by {
            assert(u.drop_first()[table_find(u, n) - 1] == u[table_find(u, n)]);
        }
        if table_find(acc, u[0].name) < 0 {
            lemma_table_find_push_other(acc, e, u[0].name);
        } else {
            lemma_table_find_push_keeps(acc, e, u[0].name);
        }
        lemma_remaining_work_adopt(u.drop_first(), acc, n, p);
    }
}

/// A budget above the pending names plus the remaining universe work never
/// runs out.
proof fn lemma_budget_sufficient(
    u: Seq<PackageEntryV>,
    acc: Seq<PackageEntryV>,
    pending: Seq<Seq<char>>,
    budget: nat,
)
    requires
        budget > pending.len() + remaining_work(u, acc),
    ensures
        resolve_model(u, acc, pending, budget) != Result::<
            Seq<PackageEntryV>,
            ResolveErrorV,
        >::Err(ResolveErrorV::Exhausted),
    decreases budget,
{
    if pending.len() > 0 {
        let n = pending[0];
        if table_find(acc, n) >= 0 {
            lemma_budget_sufficient(u, acc, pending.drop_first(), (budget - 1) as nat);
        } else {
            match table_get(u, n) {
                Option::None => {},
                Option::Some(p) => {
                    lemma_remaining_work_adopt(u, acc, n, p);
                    lemma_budget_sufficient(
                        u,
                        acc.push(PackageEntryV { name: n, package: p }),
                        pending.drop_first() + p.fragments,
                        (budget - 1) as nat,
                    );
                },
            }
        }
    }
}

/// Resolution never exhausts its budget: its outcome is the resolved table
/// or a missing fragment, never the budget guard.
pub proof fn lemma_resolution_never_exhausts(root: PackageV, universe: Seq<PackageEntryV>)
    ensures
        resolution_of(root, universe) != Result::<
            Seq<PackageEntryV>,
            ResolveErrorV,
        >::Err(ResolveErrorV::Exhausted),
{
    lemma_remaining_le_total(universe, Seq::empty());
    lemma_budget_sufficient(
        universe,
        Seq::empty(),
        root.fragments,
        budget_of(root, universe),
    );
}

fn compute_budget(root: &Package, universe: &PackageTable) -> (r: usize)
    requires
        budget_of(root@, universe@) <= usize::MAX,
    ensures
        r == budget_of(root@, universe@),
{
    let mut b: usize = root.fragments.len();
    let mut i: usize = 0;
    proof {
        assert(universe@.take(0) =~= Seq::<PackageEntryV>::empty());
        assert(root@.fragments.len() == root.fragments.len());
    }
    while i < universe.entries.len()
        invariant
            i <= universe.entries.len(),
            universe@.len() == universe.entries.len(),
            b == root@.fragments.len() + total_work(universe@.take(i as int)),
            budget_of(root@, universe@) <= usize::MAX,
        decreases universe.entries.len() - i,
    {
        proof {
            assert(universe@.take(i as int + 1) =~= universe@.take(i as int).push(
                universe@[i as int],
            ));
            lemma_total_work_push(universe@.take(i as int), universe@[i as int]);
            lemma_total_work_take_le(universe@, i as int + 1);
            assert(universe@[i as int] == universe.entries@[i as int]@);
            assert(universe.entries@[i as int]@.package.fragments.len()
                == universe.entries@[i as int].package.fragments.len());
        }
        b = b + 1 + universe.entries[i].package.fragments.len();
        i = i + 1;
    }
    proof {
        assert(universe@.take(universe.entries.len() as int) =~= universe@);
    }
    b + 1
}

/// Resolves every fragment reachable from `root` against `universe`,
/// producing the insertion-ordered name-to-package table the model owes.
/// The machine-limit bound keeps the step-budget arithmetic in `usize`.
pub fn resolve_all(root: &Package, universe: &PackageTable) -> (r: Result<
    PackageTable,
    ResolveError,
>)
    requires
        budget_of(root@, universe@) <= usize::MAX,
    ensures
        match r {
            Result::Ok(t) => resolution_of(root@, universe@) == Result::<
                Seq<PackageEntryV>,
                ResolveErrorV,
            >::Ok(t@) && table_wf(t@),
            Result::Err(e) => resolution_of(root@, universe@) == Result::<
                Seq<PackageEntryV>,
                ResolveErrorV,
            >::Err(e@),
        },
{
    let mut budget: usize = compute_budget(root, universe);
    let mut acc = PackageTable::new();
    let mut pending: Vec<String> = clone_strings(&root.fragments);
    proof {
        assert(pending.deep_view() =~= root@.fragments);
        assert(acc@ =~= Seq::<PackageEntryV>::empty());
    }
    while pending.len() > 0
        invariant
            table_wf(acc@),
            pending.deep_view().len() == pending.len(),
            resolve_model(universe@, acc@, pending.deep_view(), budget as nat) == resolution_of(
                root@,
                universe@,
            ),
        decreases budget,
    {
        let ghost pd0 = pending.deep_view();
        let ghost acc0 = acc@;
        proof {
            if budget == 0 {
                lemma_resolution_never_exhausts(root@, universe@);
                assert(false);
            }
        }
        let name = pending.remove(0);
        proof {
            assert(name@ == pd0[0]);
            assert(pending.deep_view() =~= pd0.drop_first());
        }
        if acc.contains_name(&name) {
            budget = budget - 1;
            proof {
                assert(resolve_model(universe@, acc@, pd0, (budget + 1) as nat) == resolve_model(
                    universe@,
                    acc@,
                    pd0.drop_first(),
                    budget as nat,
                ));
            }
        } else {
            proof {
                lemma_table_find_absent(acc@, name@);
            }
            match universe.get(&name) {
                Option::None => {
                    proof {
                        assert(resolve_model(universe@, acc@, pd0, budget as nat) == Result::<
                            Seq<PackageEntryV>,
                            ResolveErrorV,
                        >::Err(ResolveErrorV::MissingFragment(name@)));
                    }
                    return Result::Err(ResolveError::MissingFragment(name));
                },
                Option::Some(p) => {
                    let dup = p.duplicate();
                    append_strings(&mut pending, &p.fragments);
                    proof {
                        assert(pending.deep_view() =~= pd0.drop_first() + p@.fragments);
                    }
                    let ghost nv = name@;
                    acc.insert(name, dup);
                    budget = budget - 1;
                    proof {
                        assert(acc@ == acc0.push(PackageEntryV { name: nv, package: p@ }));
                        assert forall|i: int, j: int| 0 <= i < j < acc@.len() implies acc@[i].name
                            != acc@[j].name by {
                            if j == acc@.len() - 1 {
                                assert(acc@[i] == acc0[i]);
                            }
                        }
                        assert(resolve_model(universe@, acc0, pd0, (budget + 1) as nat)
                            == resolve_model(
                            universe@,
                            acc@,
                            pending.deep_view(),
                            budget as nat,
                        ));
                    }
                },
            }
        }
    }
    proof {
        assert(pending.deep_view().len() == 0);
        assert(resolve_model(universe@, acc@, pending.deep_view(), budget as nat) == Result::<
            Seq<PackageEntryV>,
            ResolveErrorV,
        >::Ok(acc@));
    }
    Result::Ok(acc)
}

} // verus!
