//! Folding a print-job history into a spool ledger.
use crate::ledger::{add_usage_to, lemma_ledger_listing, Ledger};
use crate::mass::{mass_of_length, length_to_mass};
use vstd::prelude::*;

verus! {

/// One print job, as far as the ledger is concerned: the filament-type label
/// that names its spool and the filament length it used, in micrometres.
pub struct JobRecord {
    pub filament_name: String,
    pub filament_used_um: u64,
}

/// Mass units of filament that `job` consumed.
pub open spec fn job_mass(job: JobRecord) -> int {
    mass_of_length(job.filament_used_um as int)
}

/// `m` after recording each job of `jobs`, first to last.
pub open spec fn fold_jobs(m: Map<Seq<char>, int>, jobs: Seq<JobRecord>) -> Map<Seq<char>, int>
    decreases jobs.len(),
{
    if jobs.len() == 0 {
        m
    } else {
        add_usage_to(fold_jobs(m, jobs.drop_last()), jobs.last().filament_name@, job_mass(jobs.last()))
    }
}

/// Every amount in `m` fits in a `u128`.
pub open spec fn fits(m: Map<Seq<char>, int>) -> bool {
    forall|k: Seq<char>| #[trigger] m.contains_key(k) ==> m[k] <= u128::MAX
}

/// Recording more jobs keeps every name and never lowers an amount.
proof fn lemma_fold_grows(m: Map<Seq<char>, int>, jobs: Seq<JobRecord>, i: int)
    requires
        0 <= i <= jobs.len(),
    ensures
        forall|k: Seq<char>| #[trigger]
            fold_jobs(m, jobs.subrange(0, i)).contains_key(k) ==> fold_jobs(m, jobs).contains_key(k)
                && fold_jobs(m, jobs)[k] >= fold_jobs(m, jobs.subrange(0, i))[k],
    decreases jobs.len(),
{
    if i == jobs.len() {
        assert(jobs.subrange(0, i) =~= jobs);
    } else {
        let rest = jobs.drop_last();
        assert(rest.subrange(0, i) =~= jobs.subrange(0, i));
        lemma_fold_grows(m, rest, i);
        assert(job_mass(jobs.last()) >= 0) by (nonlinear_arith)
            requires
                jobs.last().filament_used_um >= 0,
        ;
    }
}

/// Adds each job's converted mass to the spool its label names, in order,
/// starting a new spool for an unseen label. `None` where an amount would
/// not fit in a `u128`.
pub fn aggregate(seed: Ledger, jobs: &Vec<JobRecord>) -> (r: Option<Ledger>)
    requires
        seed.wf(),
    ensures
        r is Some <==> fits(fold_jobs(seed@, jobs@)),
        r is Some ==> r->0.wf() && r->0@ == fold_jobs(seed@, jobs@),
{
    let ghost start = seed@;
    let mut ledger = seed;
    let mut i: usize = 0;
    assert(jobs@.subrange(0, 0) =~= Seq::<JobRecord>::empty());
    while i < jobs.len()
        invariant
            ledger.wf(),
            start == seed@,
            i <= jobs@.len(),
            ledger@ == fold_jobs(start, jobs@.subrange(0, i as int)),
        decreases jobs@.len() - i,
    {
        let job = &jobs[i];
        let grams = length_to_mass(job.filament_used_um);
        let ghost before = ledger@;
        let ok = ledger.add_usage(&job.filament_name, grams);
        proof {
            assert(jobs@.subrange(0, i + 1).drop_last() =~= jobs@.subrange(0, i as int));
        }
        if !ok {
            proof {
                let name = job.filament_name@;
                let next = fold_jobs(start, jobs@.subrange(0, i + 1));
                assert(jobs@.subrange(0, i + 1).last() == jobs@[i as int]);
                assert(next == add_usage_to(before, name, grams as int));
                assert(next.contains_key(name) && next[name] > u128::MAX);
                lemma_fold_grows(start, jobs@, i + 1);
                assert(fold_jobs(start, jobs@)[name] >= next[name]);
                assert(!fits(fold_jobs(start, jobs@)));
            }
            return None;
        }
        i = i + 1;
    }
    proof {
        assert(jobs@.subrange(0, jobs@.len() as int) =~= jobs@);
        lemma_ledger_listing(&ledger);
        assert forall|k: Seq<char>| #[trigger] ledger@.contains_key(k) implies ledger@[k]
            <= u128::MAX by {
            let m = choose|m: int| 0 <= m < ledger.names().len() && ledger.names()[m] == k;
            assert(ledger@[ledger.names()[m]] == ledger.amounts()[m]);
        }
    }
    Some(ledger)
}

/// An empty history leaves the seed as it is, and it always fits.
pub proof fn lemma_empty_history_keeps_seed(seed: &Ledger)
    requires
        seed.wf(),
    ensures
        fold_jobs(seed@, Seq::empty()) == seed@,
        fits(fold_jobs(seed@, Seq::empty())),
{
    lemma_ledger_listing(seed);
    assert forall|k: Seq<char>| #[trigger] seed@.contains_key(k) implies seed@[k] <= u128::MAX by {
        let m = choose|m: int| 0 <= m < seed.names().len() && seed.names()[m] == k;
        assert(seed@[seed.names()[m]] == seed.amounts()[m]);
    }
}

/// A job whose label has no entry adds exactly that one entry, holding the
/// job's converted mass; every other entry stays as it was.
pub proof fn lemma_unknown_label_adds_one_entry(seed: Map<Seq<char>, int>, job: JobRecord)
    requires
        !seed.contains_key(job.filament_name@),
    ensures
        fold_jobs(seed, seq![job]) == seed.insert(job.filament_name@, job_mass(job)),
        fold_jobs(seed, seq![job]).dom() == seed.dom().insert(job.filament_name@),
{
    let name = job.filament_name@;
    assert(seq![job].drop_last() =~= Seq::<JobRecord>::empty());
    assert(fold_jobs(seed, Seq::<JobRecord>::empty()) == seed);
    assert(seq![job].last() == job);
    assert(fold_jobs(seed, seq![job]) == add_usage_to(seed, name, job_mass(job)));
    assert(fold_jobs(seed, seq![job]) =~= seed.insert(name, job_mass(job)));
    assert(fold_jobs(seed, seq![job]).dom() =~= seed.dom().insert(name));
}

/// Two jobs on the same known label raise its amount by the sum of their
/// converted masses and leave the other entries alone.
pub proof fn lemma_same_label_accumulates(seed: Map<Seq<char>, int>, a: JobRecord, b: JobRecord)
    requires
        seed.contains_key(a.filament_name@),
        a.filament_name@ == b.filament_name@,
    ensures
        fold_jobs(seed, seq![a, b]) == seed.insert(
            a.filament_name@,
            seed[a.filament_name@] + job_mass(a) + job_mass(b),
        ),
{
    let name = a.filament_name@;
    assert(seq![a, b].drop_last() =~= seq![a]);
    assert(seq![a].drop_last() =~= Seq::<JobRecord>::empty());
    assert(fold_jobs(seed, Seq::<JobRecord>::empty()) == seed);
    assert(seq![a].last() == a);
    assert(seq![a, b].last() == b);
    let one = fold_jobs(seed, seq![a]);
    assert(one == add_usage_to(seed, name, job_mass(a)));
    assert(fold_jobs(seed, seq![a, b]) == add_usage_to(one, name, job_mass(b)));
    assert(fold_jobs(seed, seq![a, b]) =~= seed.insert(
        a.filament_name@,
        seed[a.filament_name@] + job_mass(a) + job_mass(b),
    ));
}

} // verus!
