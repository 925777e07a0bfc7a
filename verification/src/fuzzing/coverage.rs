//! Coverage of a circuit by a fuzzing campaign: the constraints, signals,
//! paths and branches that executions have reached.
use crate::bignum::BigNum;
use crate::strmap::{keys_of, str_eq, StrMap};
use vstd::prelude::*;

verus! {

/// How often a branch went each way.
#[derive(Debug, Clone, Copy, PartialEq, Eq, Structural)]
pub struct BranchInfo {
    pub branch_id: usize,
    pub taken_count: usize,
    pub not_taken_count: usize,
    pub is_covered: bool,
}

/// The counts of a coverage report.
#[derive(Debug, Clone, Copy, PartialEq, Eq, Structural)]
pub struct CoverageCounts {
    pub path_count: usize,
    pub total_constraints: usize,
    pub covered_constraints: usize,
    pub total_signals: usize,
    pub covered_signals: usize,
    pub total_branches: usize,
    pub covered_branches: usize,
}

/// A branch that has been neither taken nor passed by.
pub open spec fn fresh_branch(i: usize) -> BranchInfo {
    BranchInfo { branch_id: i, taken_count: 0, not_taken_count: 0, is_covered: false }
}

/// How many branches are covered.
pub open spec fn covered_branch_count(bs: Seq<BranchInfo>) -> nat
    decreases bs.len(),
{
    if bs.len() == 0 {
        0
    } else {
        covered_branch_count(bs.drop_last()) + if bs.last().is_covered {
            1nat
        } else {
            0nat
        }
    }
}

/// The covered-branch count is the number of branches marked covered.
pub proof fn lemma_covered_count_marked(bs: Seq<BranchInfo>)
    ensures
        covered_branch_count(bs) == bs.filter(|b: BranchInfo| b.is_covered).len(),
    decreases bs.len(),
{
    reveal_with_fuel(Seq::filter, 1);
    if bs.len() > 0 {
        lemma_covered_count_marked(bs.drop_last());
    }
}

/// Marking a branch covered, whether it was taken or passed by, adds one
/// to the covered-branch count unless that branch was covered already.
pub proof fn lemma_mark_covered(bs: Seq<BranchInfo>, i: int, b: BranchInfo)
    requires
        0 <= i < bs.len(),
        b.is_covered,
    ensures
        covered_branch_count(bs.update(i, b)) == covered_branch_count(bs) + if bs[i].is_covered {
            0int
        } else {
            1int
        },
    decreases bs.len(),
{
    let u = bs.update(i, b);
    if i == bs.len() - 1 {
        assert(u.drop_last() =~= bs.drop_last());
    } else {
        assert(u.drop_last() =~= bs.drop_last().update(i, b));
        lemma_mark_covered(bs.drop_last(), i, b);
    }
}

/// The constraint indices below `total` that are not covered, ascending.
pub open spec fn uncovered_below(total: nat, covered: Set<usize>) -> Seq<usize>
    decreases total,
{
    if total == 0 {
        seq![]
    } else {
        let r = uncovered_below((total - 1) as nat, covered);
        if covered.contains((total - 1) as usize) {
            r
        } else {
            r.push((total - 1) as usize)
        }
    }
}

/// Tracks the coverage of a fuzzing campaign.
#[derive(Debug)]
pub struct CoverageTracker {
    constraint_coverage: Vec<usize>,
    signal_coverage: Vec<String>,
    path_coverage: Vec<u64>,
    branch_coverage: Vec<BranchInfo>,
    total_constraints: usize,
    total_signals: usize,
    total_branches: usize,
}

impl CoverageTracker {
    #[verifier::type_invariant]
    spec fn tracker_ok(self) -> bool {
        &&& self.constraint_coverage@.no_duplicates()
        &&& self.signal_coverage@.map_values(|s: String| s@).no_duplicates()
        &&& self.path_coverage@.no_duplicates()
        &&& forall|i: int|
            0 <= i < self.branch_coverage@.len() ==> (#[trigger] self.branch_coverage@[i]).branch_id
                == i
    }

    /// The covered constraint indices.
    pub closed spec fn covered_constraints(self) -> Set<usize> {
        self.constraint_coverage@.to_set()
    }

    /// The covered signal names.
    pub closed spec fn covered_signals(self) -> Set<Seq<char>> {
        self.signal_coverage@.map_values(|s: String| s@).to_set()
    }

    /// The paths seen, by hash.
    pub closed spec fn paths(self) -> Set<u64> {
        self.path_coverage@.to_set()
    }

    /// The branches, each at the position of its identifier.
    pub closed spec fn branches(self) -> Seq<BranchInfo> {
        self.branch_coverage@
    }

    /// The number of constraints of the circuit.
    pub closed spec fn constraint_total(self) -> usize {
        self.total_constraints
    }

    /// The number of signals of the circuit.
    pub closed spec fn signal_total(self) -> usize {
        self.total_signals
    }

    /// The number of branches of the circuit.
    pub closed spec fn branch_total(self) -> usize {
        self.total_branches
    }

    /// A tracker with nothing covered and no totals.
    pub fn new() -> (t: Self)
        ensures
            t.covered_constraints() == Set::<usize>::empty(),
            t.covered_signals() == Set::<Seq<char>>::empty(),
            t.paths() == Set::<u64>::empty(),
            t.branches().len() == 0,
            t.constraint_total() == 0,
            t.signal_total() == 0,
            t.branch_total() == 0,
    {
        let t = CoverageTracker {
            constraint_coverage: Vec::new(),
            signal_coverage: Vec::new(),
            path_coverage: Vec::new(),
            branch_coverage: Vec::new(),
            total_constraints: 0,
            total_signals: 0,
            total_branches: 0,
        };
        assert(t.constraint_coverage@.to_set() =~= Set::<usize>::empty());
        assert(t.signal_coverage@.map_values(|s: String| s@).to_set() =~= Set::<Seq<char>>::empty());
        assert(t.path_coverage@.to_set() =~= Set::<u64>::empty());
        t
    }

    /// The number of constraints of the circuit.
    pub fn total_constraints(&self) -> (n: usize)
        ensures
            n == self.constraint_total(),
    {
        self.total_constraints
    }

    /// Sets the totals, and makes the first `total_branches` branches fresh;
    /// branches beyond them stay as they were.
    pub fn initialize(&mut self, total_constraints: usize, total_signals: usize, total_branches: usize)
        ensures
            final(self).constraint_total() == total_constraints,
            final(self).signal_total() == total_signals,
            final(self).branch_total() == total_branches,
            final(self).covered_constraints() == old(self).covered_constraints(),
            final(self).covered_signals() == old(self).covered_signals(),
            final(self).paths() == old(self).paths(),
            final(self).branches().len() == if total_branches > old(self).branches().len() {
                total_branches as nat
            } else {
                old(self).branches().len()
            },
            forall|i: int|
                0 <= i < final(self).branches().len() ==> #[trigger] final(self).branches()[i] == if i
                    < total_branches {
                    fresh_branch(i as usize)
                } else {
                    old(self).branches()[i]
                },
    {
        proof {
            use_type_invariant(&*self);
        }
        self.total_constraints = total_constraints;
        self.total_signals = total_signals;
        self.total_branches = total_branches;
        let mut bs: Vec<BranchInfo> = Vec::new();
        std::mem::swap(&mut bs, &mut self.branch_coverage);
        let ghost old_bs = bs@;
        let mut i: usize = 0;
        while i < total_branches
            invariant
                i <= total_branches,
                bs@.len() == if i > old_bs.len() {
                    i as nat
                } else {
                    old_bs.len()
                },
                forall|j: int|
                    0 <= j < bs@.len() ==> #[trigger] bs@[j] == if j < i {
                        fresh_branch(j as usize)
                    } else {
                        old_bs[j]
                    },
                forall|j: int| 0 <= j < old_bs.len() ==> (#[trigger] old_bs[j]).branch_id == j,
            decreases total_branches - i,
        {
            let fresh = BranchInfo { branch_id: i, taken_count: 0, not_taken_count: 0, is_covered: false };
            if i < bs.len() {
                bs.set(i, fresh);
            } else {
                bs.push(fresh);
            }
            i += 1;
        }
        self.branch_coverage = bs;
    }

    /// Marks a constraint covered.
    pub fn cover_constraint(&mut self, constraint_idx: usize)
        ensures
            final(self).covered_constraints() == old(self).covered_constraints().insert(constraint_idx),
            final(self).covered_signals() == old(self).covered_signals(),
            final(self).paths() == old(self).paths(),
            final(self).branches() == old(self).branches(),
            final(self).constraint_total() == old(self).constraint_total(),
            final(self).signal_total() == old(self).signal_total(),
            final(self).branch_total() == old(self).branch_total(),
    {
        proof {
            use_type_invariant(&*self);
        }
        let ghost before = self.constraint_coverage@;
        let mut found = false;
        let mut i: usize = 0;
        while i < self.constraint_coverage.len()
            invariant
                i <= self.constraint_coverage.len(),
                found == exists|j: int| 0 <= j < i && self.constraint_coverage@[j] == constraint_idx,
            decreases self.constraint_coverage.len() - i,
        {
            if self.constraint_coverage[i] == constraint_idx {
                found = true;
            }
            i += 1;
        }
        if !found {
            let mut v: Vec<usize> = Vec::new();
            std::mem::swap(&mut v, &mut self.constraint_coverage);
            v.push(constraint_idx);
            proof {
                assert forall|a: int, b: int|
                    0 <= a < v@.len() && 0 <= b < v@.len() && a != b implies v@[a] != v@[b] by {
                    if a == v@.len() - 1 {
                        assert(v@[b] == before[b]);
                    } else if b == v@.len() - 1 {
                        assert(v@[a] == before[a]);
                    }
                }
            }
            self.constraint_coverage = v;
        }
        proof {
            if found {
                assert(before.contains(constraint_idx));
                assert(before.to_set().insert(constraint_idx) =~= before.to_set());
            } else {
                assert(self.constraint_coverage@ == before.push(constraint_idx));
                before.lemma_push_to_set_commute(constraint_idx);
            }
        }
    }

    /// Marks a signal covered.
    pub fn cover_signal(&mut self, signal_name: String)
        ensures
            final(self).covered_signals() == old(self).covered_signals().insert(signal_name@),
            final(self).covered_constraints() == old(self).covered_constraints(),
            final(self).paths() == old(self).paths(),
            final(self).branches() == old(self).branches(),
            final(self).constraint_total() == old(self).constraint_total(),
            final(self).signal_total() == old(self).signal_total(),
            final(self).branch_total() == old(self).branch_total(),
    {
        proof {
            use_type_invariant(&*self);
        }
        let ghost before = self.signal_coverage@.map_values(|s: String| s@);
        let mut found = false;
        let mut i: usize = 0;
        while i < self.signal_coverage.len()
            invariant
                i <= self.signal_coverage.len(),
                before == self.signal_coverage@.map_values(|s: String| s@),
                found == exists|j: int| 0 <= j < i && before[j] == signal_name@,
            decreases self.signal_coverage.len() - i,
        {
            assert(before[i as int] == self.signal_coverage@[i as int]@);
            if str_eq(self.signal_coverage[i].as_str(), signal_name.as_str()) {
                found = true;
            }
            i += 1;
        }
        let ghost name = signal_name@;
        if !found {
            let mut v: Vec<String> = Vec::new();
            std::mem::swap(&mut v, &mut self.signal_coverage);
            v.push(signal_name);
            proof {
                let after = v@.map_values(|s: String| s@);
                assert(after =~= before.push(name));
                assert forall|a: int, b: int|
                    0 <= a < after.len() && 0 <= b < after.len() && a != b implies after[a]
                    != after[b] by {
                    if a == after.len() - 1 {
                        assert(after[b] == before[b]);
                    } else if b == after.len() - 1 {
                        assert(after[a] == before[a]);
                    }
                }
            }
            self.signal_coverage = v;
        }
        proof {
            if found {
                assert(before.contains(name));
                assert(before.to_set().insert(name) =~= before.to_set());
            } else {
                assert(self.signal_coverage@.map_values(|s: String| s@) =~= before.push(name));
                before.lemma_push_to_set_commute(name);
            }
        }
    }

    /// Records a path by its hash.
    pub fn cover_path(&mut self, path_hash: u64)
        ensures
            final(self).paths() == old(self).paths().insert(path_hash),
            final(self).covered_constraints() == old(self).covered_constraints(),
            final(self).covered_signals() == old(self).covered_signals(),
            final(self).branches() == old(self).branches(),
            final(self).constraint_total() == old(self).constraint_total(),
            final(self).signal_total() == old(self).signal_total(),
            final(self).branch_total() == old(self).branch_total(),
    {
        proof {
            use_type_invariant(&*self);
        }
        let ghost before = self.path_coverage@;
        let mut found = false;
        let mut i: usize = 0;
        while i < self.path_coverage.len()
            invariant
                i <= self.path_coverage.len(),
                found == exists|j: int| 0 <= j < i && self.path_coverage@[j] == path_hash,
            decreases self.path_coverage.len() - i,
        {
            if self.path_coverage[i] == path_hash {
                found = true;
            }
            i += 1;
        }
        if !found {
            let mut v: Vec<u64> = Vec::new();
            std::mem::swap(&mut v, &mut self.path_coverage);
            v.push(path_hash);
            proof {
                assert forall|a: int, b: int|
                    0 <= a < v@.len() && 0 <= b < v@.len() && a != b implies v@[a] != v@[b] by {
                    if a == v@.len() - 1 {
                        assert(v@[b] == before[b]);
                    } else if b == v@.len() - 1 {
                        assert(v@[a] == before[a]);
                    }
                }
            }
            self.path_coverage = v;
        }
        proof {
            if found {
                assert(before.contains(path_hash));
                assert(before.to_set().insert(path_hash) =~= before.to_set());
            } else {
                assert(self.path_coverage@ == before.push(path_hash));
                before.lemma_push_to_set_commute(path_hash);
            }
        }
    }

    /// Counts a branch taken or passed by, and marks it covered; an unknown
    /// branch changes nothing.
    pub fn cover_branch(&mut self, branch_id: usize, taken: bool)
        requires
            branch_id < old(self).branches().len() ==> (if taken {
                old(self).branches()[branch_id as int].taken_count < usize::MAX
            } else {
                old(self).branches()[branch_id as int].not_taken_count < usize::MAX
            }),
        ensures
            final(self).branches() == if branch_id < old(self).branches().len() {
                let b = old(self).branches()[branch_id as int];
                old(self).branches().update(
                    branch_id as int,
                    if taken {
                        BranchInfo { taken_count: (b.taken_count + 1) as usize, is_covered: true, ..b }
                    } else {
                        BranchInfo {
                            not_taken_count: (b.not_taken_count + 1) as usize,
                            is_covered: true,
                            ..b
                        }
                    },
                )
            } else {
                old(self).branches()
            },
            final(self).covered_constraints() == old(self).covered_constraints(),
            final(self).covered_signals() == old(self).covered_signals(),
            final(self).paths() == old(self).paths(),
            final(self).constraint_total() == old(self).constraint_total(),
            final(self).signal_total() == old(self).signal_total(),
            final(self).branch_total() == old(self).branch_total(),
    {
        proof {
            use_type_invariant(&*self);
        }
        if branch_id < self.branch_coverage.len() {
            let b = self.branch_coverage[branch_id];
            let nb = if taken {
                BranchInfo { taken_count: b.taken_count + 1, is_covered: true, ..b }
            } else {
                BranchInfo { not_taken_count: b.not_taken_count + 1, is_covered: true, ..b }
            };
            let mut v: Vec<BranchInfo> = Vec::new();
            std::mem::swap(&mut v, &mut self.branch_coverage);
            v.set(branch_id, nb);
            self.branch_coverage = v;
        }
    }

    /// Marks covered every signal of the trace's values, then every checked constraint.
    pub fn record_trace_coverage(&mut self, signal_values: &StrMap<BigNum>, constraints_checked: &[usize])
        ensures
            final(self).covered_signals() == old(self).covered_signals() + keys_of(
                signal_values@,
            ).to_set(),
            final(self).covered_constraints() == old(self).covered_constraints()
                + constraints_checked@.to_set(),
            final(self).paths() == old(self).paths(),
            final(self).branches() == old(self).branches(),
            final(self).constraint_total() == old(self).constraint_total(),
            final(self).signal_total() == old(self).signal_total(),
            final(self).branch_total() == old(self).branch_total(),
    {
        let n = signal_values.len();
        let ghost ks = keys_of(signal_values@);
        let mut i: usize = 0;
        assert(old(self).covered_signals() + ks.take(0).to_set() =~= old(self).covered_signals());
        while i < n
            invariant
                i <= n,
                n == signal_values@.len(),
                ks == keys_of(signal_values@),
                self.covered_signals() == old(self).covered_signals() + ks.take(i as int).to_set(),
                self.covered_constraints() == old(self).covered_constraints(),
                self.paths() == old(self).paths(),
                self.branches() == old(self).branches(),
                self.constraint_total() == old(self).constraint_total(),
                self.signal_total() == old(self).signal_total(),
                self.branch_total() == old(self).branch_total(),
            decreases n - i,
        {
            let k = signal_values.key_at(i).clone();
            self.cover_signal(k);
            proof {
                assert(ks.take(i + 1) =~= ks.take(i as int).push(ks[i as int]));
                ks.take(i as int).lemma_push_to_set_commute(ks[i as int]);
                assert(self.covered_signals() =~= old(self).covered_signals() + ks.take(
                    i + 1,
                ).to_set());
            }
            i += 1;
        }
        assert(ks.take(i as int) =~= ks);
        let mut j: usize = 0;
        assert(old(self).covered_constraints() + constraints_checked@.take(0).to_set()
            =~= old(self).covered_constraints());
        while j < constraints_checked.len()
            invariant
                j <= constraints_checked.len(),
                self.covered_constraints() == old(self).covered_constraints()
                    + constraints_checked@.take(j as int).to_set(),
                self.covered_signals() == old(self).covered_signals() + ks.to_set(),
                ks == keys_of(signal_values@),
                self.paths() == old(self).paths(),
                self.branches() == old(self).branches(),
                self.constraint_total() == old(self).constraint_total(),
                self.signal_total() == old(self).signal_total(),
                self.branch_total() == old(self).branch_total(),
            decreases constraints_checked.len() - j,
        {
            self.cover_constraint(constraints_checked[j]);
            proof {
                let c = constraints_checked@;
                assert(c.take(j + 1) =~= c.take(j as int).push(c[j as int]));
                c.take(j as int).lemma_push_to_set_commute(c[j as int]);
                assert(self.covered_constraints() =~= old(self).covered_constraints() + c.take(
                    j + 1,
                ).to_set());
            }
            j += 1;
        }
        assert(constraints_checked@.take(j as int) =~= constraints_checked@);
    }

    /// The counts of a coverage report: paths seen, and the totals with how
    /// many constraints, signals and branches are covered.
    pub fn coverage_counts(&self) -> (r: CoverageCounts)
        ensures
            r.path_count == self.paths().len(),
            r.total_constraints == self.constraint_total(),
            r.covered_constraints == self.covered_constraints().len(),
            r.total_signals == self.signal_total(),
            r.covered_signals == self.covered_signals().len(),
            r.total_branches == self.branch_total(),
            r.covered_branches == covered_branch_count(self.branches()),
    {
        proof {
            use_type_invariant(self);
            self.constraint_coverage@.unique_seq_to_set();
            self.signal_coverage@.map_values(|s: String| s@).unique_seq_to_set();
            self.path_coverage@.unique_seq_to_set();
        }
        let ghost bs = self.branch_coverage@;
        let mut covered: usize = 0;
        let mut i: usize = 0;
        assert(bs.take(0) =~= Seq::<BranchInfo>::empty());
        while i < self.branch_coverage.len()
            invariant
                i <= self.branch_coverage.len(),
                bs == self.branch_coverage@,
                covered == covered_branch_count(bs.take(i as int)),
                covered <= i,
            decreases self.branch_coverage.len() - i,
        {
            proof {
                assert(bs.take(i + 1).drop_last() =~= bs.take(i as int));
            }
            if self.branch_coverage[i].is_covered {
                covered = covered + 1;
            }
            i += 1;
        }
        assert(bs.take(i as int) =~= bs);
        CoverageCounts {
            path_count: self.path_coverage.len(),
            total_constraints: self.total_constraints,
            covered_constraints: self.constraint_coverage.len(),
            total_signals: self.total_signals,
            covered_signals: self.signal_coverage.len(),
            total_branches: self.total_branches,
            covered_branches: covered,
        }
    }

    /// The constraint indices below the total that are not covered, ascending.
    pub fn get_uncovered_constraints(&self) -> (r: Vec<usize>)
        ensures
            r@ == uncovered_below(self.constraint_total() as nat, self.covered_constraints()),
    {
        let mut r: Vec<usize> = Vec::new();
        let mut i: usize = 0;
        while i < self.total_constraints
            invariant
                i <= self.total_constraints,
                r@ == uncovered_below(i as nat, self.covered_constraints()),
            decreases self.total_constraints - i,
        {
            let mut found = false;
            let mut k: usize = 0;
            while k < self.constraint_coverage.len()
                invariant
                    k <= self.constraint_coverage.len(),
                    found == exists|j: int| 0 <= j < k && self.constraint_coverage@[j] == i,
                decreases self.constraint_coverage.len() - k,
            {
                if self.constraint_coverage[k] == i {
                    found = true;
                }
                k += 1;
            }
            proof {
                if found {
                    let j = choose|j: int| 0 <= j < k && self.constraint_coverage@[j] == i;
                    assert(self.constraint_coverage@.contains(i));
                }
                assert(found == self.covered_constraints().contains(i));
            }
            if !found {
                r.push(i);
            }
            i += 1;
        }
        r
    }

    /// Signals that are not covered: none are reported, since the tracker
    /// does not know the circuit's signal names.
    pub fn get_uncovered_signals(&self) -> (r: Vec<String>)
        ensures
            r@.len() == 0,
    {
        Vec::new()
    }
}

/// The uncovered constraints are exactly the indices below the total that
/// are not covered, each once, ascending.
pub proof fn lemma_uncovered_exact(total: nat, covered: Set<usize>, x: usize)
    requires
        total <= usize::MAX + 1,
    ensures
        uncovered_below(total, covered).contains(x) <==> (x < total && !covered.contains(x)),
        forall|i: int, j: int|
            0 <= i < j < uncovered_below(total, covered).len() ==> uncovered_below(total, covered)[i]
                < uncovered_below(total, covered)[j],
    decreases total,
{
    if total > 0 {
        let t1 = (total - 1) as nat;
        lemma_uncovered_exact(t1, covered, x);
        lemma_uncovered_below_bound(t1, covered);
        let r = uncovered_below(t1, covered);
        if !covered.contains(t1 as usize) {
            vstd::seq_lib::lemma_seq_contains_after_push(r, t1 as usize, x);
        }
    }
}

/// Every uncovered index below `total` is below it.
pub proof fn lemma_uncovered_below_bound(total: nat, covered: Set<usize>)
    requires
        total <= usize::MAX + 1,
    ensures
        forall|i: int|
            0 <= i < uncovered_below(total, covered).len() ==> uncovered_below(total, covered)[i]
                < total,
    decreases total,
{
    if total > 0 {
        lemma_uncovered_below_bound((total - 1) as nat, covered);
        let r = uncovered_below((total - 1) as nat, covered);
        assert(((total - 1) as usize) as int == total - 1);
        assert forall|i: int| 0 <= i < uncovered_below(total, covered).len() implies uncovered_below(
            total,
            covered,
        )[i] < total by {
            if i < r.len() {
                assert(uncovered_below(total, covered)[i] == r[i]);
            }
        }
    }
}

impl Default for CoverageTracker {
    fn default() -> (t: Self)
        ensures
            t.covered_constraints() == Set::<usize>::empty(),
            t.constraint_total() == 0,
    {
        CoverageTracker::new()
    }
}

} // verus!
