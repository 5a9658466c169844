//! Grouping a sequence of keys into runs of equal consecutive keys, the
//! basis of instanced batch drawing.
use itertools::Itertools;
use vstd::prelude::*;

verus! {

/// The runs of `s`, in order: each maximal stretch of equal consecutive
/// keys becomes one pair of the key and the stretch's length.
pub open spec fn runs(s: Seq<usize>) -> Seq<(usize, usize)>
    decreases s.len(),
{
    if s.len() == 0 {
        Seq::empty()
    } else {
        let r = runs(s.drop_last());
        if r.len() > 0 && r.last().0 == s.last() {
            r.update(r.len() - 1, (s.last(), (r.last().1 + 1) as usize))
        } else {
            r.push((s.last(), 1usize))
        }
    }
}

/// How often `v` occurs in `s`.
pub open spec fn count_of(s: Seq<usize>, v: usize) -> nat
    decreases s.len(),
{
    if s.len() == 0 {
        0
    } else {
        count_of(s.drop_last(), v) + if s.last() == v {
            1nat
        } else {
            0nat
        }
    }
}

/// The number of keys in the runs before run `k`.
pub open spec fn run_start(r: Seq<(usize, usize)>, k: int) -> nat
    decreases k,
{
    if k <= 0 {
        0
    } else {
        run_start(r, k - 1) + r[k - 1].1 as nat
    }
}

pub open spec fn sorted(s: Seq<usize>) -> bool {
    forall|i: int, j: int| 0 <= i <= j < s.len() ==> s[i] <= s[j]
}

/// Relies on itertools::Itertools::group_by: consecutive elements that map
/// to the same key form one group, and groups come out in order; each group
/// is reported with its length.
#[verifier::external_body]
fn group_runs(keys: &Vec<usize>) -> (r: Vec<(usize, usize)>)
    ensures
        r@ == runs(keys@),
{
    keys.iter().group_by(|k| **k).into_iter().map(|(k, g)| (k, g.count())).collect()
}

/// The runs of `keys`: the batches that one draw per run would issue.
pub fn batches(keys: &Vec<usize>) -> (r: Vec<(usize, usize)>)
    ensures
        r@ == runs(keys@),
        r@.len() <= keys@.len(),
        forall|k: int| 0 <= k < r@.len() ==> (#[trigger] r@[k]).1 >= 1,
        forall|k: int| 0 <= k < r@.len() - 1 ==> (#[trigger] r@[k]).0 != r@[k + 1].0,
        run_start(r@, r@.len() as int) == keys@.len(),
{
    let len = keys.len();
    proof {
        assert(keys@.len() == len);
        lemma_runs_shape(keys@);
    }
    group_runs(keys)
}

/// Runs are non-empty, neighbouring runs have different keys, and the
/// runs cover the sequence exactly.
pub proof fn lemma_runs_shape(s: Seq<usize>)
    requires
        s.len() <= usize::MAX,
    ensures
        runs(s).len() <= s.len(),
        forall|k: int| 0 <= k < runs(s).len() ==> (#[trigger] runs(s)[k]).1 >= 1,
        forall|k: int| 0 <= k < runs(s).len() - 1 ==> (#[trigger] runs(s)[k]).0 != runs(s)[k + 1].0,
        run_start(runs(s), runs(s).len() as int) == s.len(),
        s.len() > 0 ==> runs(s).len() > 0 && runs(s).last().0 == s.last(),
    decreases s.len(),
{
    if s.len() > 0 {
        let p = s.drop_last();
        lemma_runs_shape(p);
        let r = runs(p);
        let x = s.last();
        if r.len() > 0 && r.last().0 == x {
            let nr = runs(s);
            assert(r.last().1 <= p.len()) by {
                lemma_run_start_bounds(r);
            }
            assert(nr == r.update(r.len() - 1, (x, (r.last().1 + 1) as usize)));
            lemma_run_start_prefix(r, nr, r.len() - 1);
            assert forall|k: int| 0 <= k < nr.len() implies (#[trigger] nr[k]).1 >= 1 by {
                if k < nr.len() - 1 {
                    assert(nr[k] == r[k]);
                }
            }
            assert forall|k: int| 0 <= k < nr.len() - 1 implies (#[trigger] nr[k]).0 != nr[k + 1].0 by {
                assert(nr[k] == r[k]);
                if k + 1 < nr.len() - 1 {
                    assert(nr[k + 1] == r[k + 1]);
                }
            }
        } else {
            let nr = runs(s);
            assert(nr == r.push((x, 1usize)));
            lemma_run_start_prefix(r, nr, r.len() as int);
            assert forall|k: int| 0 <= k < nr.len() implies (#[trigger] nr[k]).1 >= 1 by {
                if k < nr.len() - 1 {
                    assert(nr[k] == r[k]);
                }
            }
            assert forall|k: int| 0 <= k < nr.len() - 1 implies (#[trigger] nr[k]).0 != nr[k + 1].0 by {
                assert(nr[k] == r[k]);
                if k + 1 < nr.len() - 1 {
                    assert(nr[k + 1] == r[k + 1]);
                }
            }
        }
    }
}

/// Run starts only depend on the runs before.
proof fn lemma_run_start_prefix(a: Seq<(usize, usize)>, b: Seq<(usize, usize)>, k: int)
    requires
        0 <= k <= a.len(),
        k <= b.len(),
        forall|j: int| 0 <= j < k ==> a[j] == b[j],
    ensures
        run_start(a, k) == run_start(b, k),
    decreases k,
{
    if k > 0 {
        lemma_run_start_prefix(a, b, k - 1);
    }
}

/// Each run is at most as long as all runs together.
proof fn lemma_run_start_bounds(r: Seq<(usize, usize)>)
    requires
        r.len() > 0,
    ensures
        r.last().1 <= run_start(r, r.len() as int),
{
}

/// For keys in ascending order the runs come in strictly ascending key
/// order, each run holds every occurrence of its key, and every key that
/// occurs has a run: one batch per distinct key, sized by its count.
pub proof fn lemma_sorted_runs(s: Seq<usize>)
    requires
        sorted(s),
        s.len() <= usize::MAX,
    ensures
        forall|i: int, j: int|
            0 <= i < j < runs(s).len() ==> (#[trigger] runs(s)[i]).0 < (#[trigger] runs(s)[j]).0,
        forall|k: int|
            0 <= k < runs(s).len() ==> (#[trigger] runs(s)[k]).1 == count_of(s, runs(s)[k].0),
        forall|v: usize| count_of(s, v) > 0 ==> exists|k: int| 0 <= k < runs(s).len() && (#[trigger] runs(s)[k]).0 == v,
    decreases s.len(),
{
    if s.len() > 0 {
        let p = s.drop_last();
        assert(sorted(p));
        lemma_sorted_runs(p);
        lemma_runs_shape(p);
        lemma_runs_shape(s);
        let r = runs(p);
        let x = s.last();
        let nr = runs(s);
        if r.len() > 0 && r.last().0 == x {
            assert(r.last().1 <= p.len()) by {
                lemma_run_start_bounds(r);
            }
            assert(nr == r.update(r.len() - 1, (x, (r.last().1 + 1) as usize)));
            assert forall|i: int, j: int| 0 <= i < j < nr.len() implies (#[trigger] nr[i]).0 < (
            #[trigger] nr[j]).0 by {
                assert(r[i].0 < r[j].0);
            }
            assert forall|k: int| 0 <= k < nr.len() implies (#[trigger] nr[k]).1 == count_of(s, nr[k].0) by {
                if k < nr.len() - 1 {
                    assert(r[k].0 < r[r.len() - 1].0);
                    assert(nr[k] == r[k]);
                } else {
                    assert(r[r.len() - 1].1 == count_of(p, r[r.len() - 1].0));
                }
            }
            assert forall|v: usize| count_of(s, v) > 0 implies exists|k: int| 0 <= k < nr.len() && (#[trigger] nr[k]).0 == v by {
                if v == x {
                    assert(nr[nr.len() - 1].0 == v);
                } else {
                    assert(count_of(p, v) > 0);
                    let k = choose|k: int| 0 <= k < r.len() && (#[trigger] r[k]).0 == v;
                    assert(nr[k].0 == v);
                }
            }
        } else {
            assert(nr == r.push((x, 1usize)));
            if r.len() > 0 {
                assert(r.last().0 == p.last());
                assert(p.last() <= x);
            }
            assert forall|i: int, j: int| 0 <= i < j < nr.len() implies (#[trigger] nr[i]).0 < (
            #[trigger] nr[j]).0 by {
                if j == nr.len() - 1 {
                    if i < r.len() - 1 {
                        assert(r[i].0 < r[r.len() - 1].0);
                    }
                } else {
                    assert(r[i].0 < r[j].0);
                }
            }
            assert(count_of(p, x) == 0) by {
                if count_of(p, x) > 0 {
                    let k = choose|k: int| 0 <= k < r.len() && (#[trigger] r[k]).0 == x;
                    if k < r.len() - 1 {
                        assert(r[k].0 < r[r.len() - 1].0);
                    }
                }
            }
            assert forall|k: int| 0 <= k < nr.len() implies (#[trigger] nr[k]).1 == count_of(s, nr[k].0) by {
                if k < nr.len() - 1 {
                    if k < r.len() - 1 {
                        assert(r[k].0 < r[r.len() - 1].0);
                    }
                }
            }
            assert forall|v: usize| count_of(s, v) > 0 implies exists|k: int| 0 <= k < nr.len() && (#[trigger] nr[k]).0 == v by {
                if v == x {
                    assert(nr[nr.len() - 1].0 == v);
                } else {
                    assert(count_of(p, v) > 0);
                    let k = choose|k: int| 0 <= k < r.len() && (#[trigger] r[k]).0 == v;
                    assert(nr[k].0 == v);
                }
            }
        }
    }
}

/// Run starts grow with the run index.
pub proof fn lemma_run_start_mono(r: Seq<(usize, usize)>, i: int, j: int)
    requires
        0 <= i <= j,
    ensures
        run_start(r, i) <= run_start(r, j),
    decreases j - i,
{
    if i < j {
        lemma_run_start_mono(r, i, j - 1);
    }
}

/// Every run's key is one of the sequence's keys, so a bound on the keys
/// bounds the runs' keys.
pub proof fn lemma_runs_keys_bounded(s: Seq<usize>, bound: nat)
    requires
        s.len() <= usize::MAX,
        forall|i: int| 0 <= i < s.len() ==> (#[trigger] s[i]) < bound,
    ensures
        forall|k: int| 0 <= k < runs(s).len() ==> (#[trigger] runs(s)[k]).0 < bound,
    decreases s.len(),
{
    if s.len() > 0 {
        let p = s.drop_last();
        lemma_runs_keys_bounded(p, bound);
        lemma_runs_shape(p);
        let r = runs(p);
        if r.len() > 0 && r.last().0 == s.last() {
            assert(r.last().1 <= p.len()) by {
                lemma_run_start_bounds(r);
            }
        }
        assert(s.last() == s[s.len() - 1]);
        assert forall|k: int| 0 <= k < runs(s).len() implies (#[trigger] runs(s)[k]).0 < bound by {
            if k < r.len() {
                if k < runs(s).len() - 1 {
                    assert(runs(s)[k] == r[k]);
                }
            }
        }
    }
}

} // verus!
