//! The subject pool of the status server: the fuzzing subjects still to
//! hand out, and the CPU budget granted with each one.

use crate::naming::{sanitise_directory_name, spec_sanitised_directory};
use crate::text::{spec_decimal, u64_to_decimal};
use crate::metadata::{ChallengeProjectDescription, HarnessEntry, HarnessId};
use vstd::prelude::*;

verus! {

/// One fuzzing subject: a harness of a challenge project.
#[derive(Clone, PartialEq, Eq, Hash, Debug)]
pub struct Project {
    pub project_id: usize,
    pub cs_name: String,
    pub harness_id: String,
    pub subject_name: String,
}

/// The pool of subjects not yet handed out.
pub struct Projects {
    projects: Vec<Project>,
}

impl Projects {
    /// The pooled subjects, oldest first.
    pub closed spec fn view(&self) -> Seq<Project> {
        self.projects@
    }

    pub fn new() -> (r: Self)
        ensures
            r@ == Seq::<Project>::empty(),
    {
        Projects { projects: Vec::new() }
    }

    /// Return a subject to the pool.
    pub fn add(&mut self, project: Project)
        ensures
            final(self)@ == old(self)@.push(project),
    {
        self.projects.push(project)
    }

    /// Take the most recently returned subject, if any is left.
    pub fn get(&mut self) -> (r: Option<Project>)
        ensures
            old(self)@.len() == 0 ==> r is None && final(self)@ == old(self)@,
            old(self)@.len() > 0 ==> r == Option::Some(old(self)@.last()) && final(self)@ == old(
                self,
            )@.drop_last(),
    {
        self.projects.pop()
    }

    /// Whether the pool is empty.
    pub fn is_empty(&self) -> (r: bool)
        ensures
            r == (self@.len() == 0),
    {
        self.projects.len() == 0
    }

    /// How many subjects are left.
    pub fn len(&self) -> (r: usize)
        ensures
            r == self@.len(),
    {
        self.projects.len()
    }
}

/// Clamp a value into a closed interval.
pub open spec fn spec_clamp(x: int, lo: int, hi: int) -> int {
    if x < lo {
        lo
    } else if x > hi {
        hi
    } else {
        x
    }
}

/// The CPU budget handed out with a subject.
///
/// With fewer subjects than machines each machine shares the whole pool:
/// the per-machine share, less two held back, clamped into six to fifty.
/// Otherwise the subjects are spread evenly; a machine whose remainder
/// class falls inside the residue carries one more subject, and the budget
/// is the share per subject, less one held back, clamped into four to
/// fifty.
pub open spec fn spec_subject_cpus(
    total_count: int,
    machines: int,
    cpus_per_machine: int,
    project_id: int,
) -> int {
    if total_count < machines {
        spec_clamp(cpus_per_machine / total_count - 2, 6, 50)
    } else {
        let bound = total_count / machines;
        let residue = total_count % machines;
        let tasks_on_machine = if project_id % machines < residue {
            bound + 1
        } else {
            bound
        };
        spec_clamp(cpus_per_machine / tasks_on_machine - 1, 4, 50)
    }
}

/// Compute the CPU budget handed out with a subject.
pub fn subject_cpus(
    total_count: usize,
    machines: usize,
    cpus_per_machine: usize,
    project_id: usize,
) -> (cpus: usize)
    requires
        machines > 0,
        total_count > 0,
        total_count < machines ==> cpus_per_machine / total_count >= 2,
        total_count >= machines ==> cpus_per_machine >= total_count / machines + 1,
    ensures
        cpus == spec_subject_cpus(
            total_count as int,
            machines as int,
            cpus_per_machine as int,
            project_id as int,
        ),
{
    if total_count < machines {
        let share = cpus_per_machine / total_count - 2;
        if share < 6 {
            6
        } else if share > 50 {
            50
        } else {
            share
        }
    } else {
        let bound = total_count / machines;
        let residue = total_count % machines;
        let tasks_on_machine = if project_id % machines < residue {
            bound + 1
        } else {
            bound
        };
        proof {
            assert(bound >= 1) by (nonlinear_arith)
                requires
                    total_count >= machines,
                    machines > 0,
                    bound == total_count as int / machines as int,
            ;
            assert(cpus_per_machine as int / (bound + 1int) >= 1 && cpus_per_machine as int / (
            bound as int) >= 1) by (nonlinear_arith)
                requires
                    bound >= 1,
                    cpus_per_machine as int >= bound + 1,
            ;
        }
        let share = cpus_per_machine / tasks_on_machine - 1;
        if share < 4 {
            4
        } else if share > 50 {
            50
        } else {
            share
        }
    }
}

/// The subjects contributed by one project description: one per harness,
/// named after the sanitised project name, numbered from one, with ids
/// following on from `start_id`.
pub fn projects_for(description: &ChallengeProjectDescription, start_id: usize) -> (r: Vec<
    Project,
>)
    requires
        start_id + description.harnesses@.len() <= usize::MAX,
    ensures
        r@.len() == description.harnesses@.len(),
        forall|j: int|
            0 <= j < r@.len() ==> {
                &&& (#[trigger] r@[j]).project_id == start_id + j
                &&& r@[j].cs_name@ == spec_sanitised_directory(description.cp_name@)
                &&& r@[j].harness_id@ == spec_decimal(j + 1)
                &&& r@[j].subject_name@ == (description.harnesses@[j].0).0@ + "_"@ + spec_decimal(
                    j + 1,
                )
            },
{
    let sanitised = sanitise_directory_name(description.cp_name.as_str());
    let n = description.harnesses.len();
    let mut r: Vec<Project> = Vec::new();
    let mut j: usize = 0;
    while j < n
        invariant
            j <= n,
            n == description.harnesses@.len(),
            start_id + n <= usize::MAX,
            sanitised@ == spec_sanitised_directory(description.cp_name@),
            r@.len() == j,
            forall|k: int|
                0 <= k < j ==> {
                    &&& (#[trigger] r@[k]).project_id == start_id + k
                    &&& r@[k].cs_name@ == spec_sanitised_directory(description.cp_name@)
                    &&& r@[k].harness_id@ == spec_decimal(k + 1)
                    &&& r@[k].subject_name@ == (description.harnesses@[k].0).0@ + "_"@
                        + spec_decimal(k + 1)
                },
        decreases n - j,
    {
        let number = u64_to_decimal((j as u64) + 1);
        let pair = &description.harnesses[j];
        let mut subject_name = (pair.0).0.clone();
        subject_name.append("_");
        subject_name.append(number.as_str());
        r.push(
            Project {
                project_id: start_id + j,
                cs_name: sanitised.clone(),
                harness_id: number,
                subject_name,
            },
        );
        j = j + 1;
    }
    r
}


/// How one pooled subject relates to a harness of a description.
pub open spec fn spec_subject_matches(
    p: Project,
    description: ChallengeProjectDescription,
    harness: (HarnessId, HarnessEntry),
    j: int,
    id: int,
) -> bool {
    &&& p.project_id == id
    &&& p.cs_name@ == spec_sanitised_directory(description.cp_name@)
    &&& p.harness_id@ == spec_decimal(j + 1)
    &&& p.subject_name@ == (harness.0).0@ + "_"@ + spec_decimal(j + 1)
}

/// The number of subjects contributed by the first `k` descriptions.
pub open spec fn spec_subject_count(
    descriptions: Seq<ChallengeProjectDescription>,
    k: int,
) -> int
    decreases k,
{
    if k <= 0 {
        0
    } else {
        spec_subject_count(descriptions, k - 1) + descriptions[k - 1].harnesses@.len()
    }
}

/// Subject counts only grow with more descriptions.
proof fn lemma_subject_count_grows(descriptions: Seq<ChallengeProjectDescription>, a: int, b: int)
    requires
        0 <= a <= b,
    ensures
        spec_subject_count(descriptions, a) <= spec_subject_count(descriptions, b),
    decreases b - a,
{
    if a < b {
        lemma_subject_count_grows(descriptions, a, b - 1);
    }
}

/// The subjects of a whole set of descriptions: one per harness, in
/// description order, with ids numbered consecutively from zero. `None`
/// exactly when there are more subjects than ids.
pub fn collect_projects(descriptions: &Vec<ChallengeProjectDescription>) -> (r: Option<
    Vec<Project>,
>)
    ensures
        match r {
            Option::Some(all) => {
                &&& spec_subject_count(descriptions@, descriptions@.len() as int) <= usize::MAX
                &&& all@.len() == spec_subject_count(descriptions@, descriptions@.len() as int)
                &&& forall|d: int, j: int|
                    0 <= d < descriptions@.len() && 0 <= j < descriptions@[d].harnesses@.len()
                        ==> spec_subject_matches(
                        all@[spec_subject_count(descriptions@, d) + j],
                        descriptions@[d],
                        #[trigger] descriptions@[d].harnesses@[j],
                        j,
                        spec_subject_count(descriptions@, d) + j,
                    )
            },
            Option::None => spec_subject_count(descriptions@, descriptions@.len() as int)
                > usize::MAX,
        },
{
    let n = descriptions.len();
    let mut all: Vec<Project> = Vec::new();
    let mut start: usize = 0;
    let mut d: usize = 0;
    while d < n
        invariant
            d <= n,
            n == descriptions@.len(),
            start == spec_subject_count(descriptions@, d as int),
            all@.len() == start,
            forall|e: int, j: int|
                0 <= e < d && 0 <= j < descriptions@[e].harnesses@.len()
                    ==> spec_subject_matches(
                    all@[spec_subject_count(descriptions@, e) + j],
                    descriptions@[e],
                    #[trigger] descriptions@[e].harnesses@[j],
                    j,
                    spec_subject_count(descriptions@, e) + j,
                ),
        decreases n - d,
    {
        let description = &descriptions[d];
        let count = description.harnesses.len();
        if count > usize::MAX - start {
            proof {
                lemma_subject_count_grows(descriptions@, d + 1, n as int);
            }
            return Option::None;
        }
        let mut batch = projects_for(description, start);
        let ghost prev_all = all@;
        let ghost batch_view = batch@;
        all.append(&mut batch);
        proof {
            assert(all@ == prev_all + batch_view);
            assert(spec_subject_count(descriptions@, d + 1) == spec_subject_count(
                descriptions@,
                d as int,
            ) + descriptions@[d as int].harnesses@.len());
            assert forall|e: int, j: int|
                0 <= e < d + 1 && 0 <= j < descriptions@[e].harnesses@.len()
                    implies spec_subject_matches(
                all@[spec_subject_count(descriptions@, e) + j],
                descriptions@[e],
                #[trigger] descriptions@[e].harnesses@[j],
                j,
                spec_subject_count(descriptions@, e) + j,
            ) by {
                if e < d {
                    lemma_subject_count_grows(descriptions@, 0, e);
                    lemma_subject_count_grows(descriptions@, e + 1, d as int);
                    assert(spec_subject_count(descriptions@, e + 1) == spec_subject_count(
                        descriptions@,
                        e,
                    ) + descriptions@[e].harnesses@.len());
                    assert(spec_subject_count(descriptions@, e) + j < prev_all.len());
                    assert(all@[spec_subject_count(descriptions@, e) + j] == prev_all[
                        spec_subject_count(descriptions@, e) + j
                    ]);
                } else {
                    assert(all@[spec_subject_count(descriptions@, e) + j] == batch_view[j]);
                }
            }
        }
        start = start + count;
        d = d + 1;
    }
    Option::Some(all)
}

} // verus!
