//! The order of a run's steps, and the decisions taken as they complete.
//!
//! A run restores every project, then builds every project for every
//! platform, then packs. The caller performs each step that a [`Session`]
//! hands out and reports whether the external tool succeeded; the first
//! failure ends the run.

use vstd::prelude::*;
use crate::cli::{Platform, Plan};

verus! {

/// A packaging directory to pack.
#[derive(Debug, Copy, Clone, PartialEq, Eq, Structural)]
pub enum PackTarget {
    /// The one directly under the working directory.
    Root,
    /// The one under the project directory of this index.
    Project(usize),
}

/// One invocation of an external tool. Projects are named by their index
/// in discovery order.
#[derive(Debug, Copy, Clone, PartialEq, Eq, Structural)]
pub enum Step {
    Restore { project: usize },
    Build { project: usize, platform: Platform },
    Pack { target: PackTarget },
}

/// The step whose tool failed, and what it was working on.
#[derive(Debug, Copy, Clone, PartialEq, Eq, Structural)]
pub enum RunError {
    RestoreFailed { project: usize },
    BuildFailed { project: usize, platform: Platform },
    PackFailed { target: PackTarget },
}

/// The error that reports a failed step.
pub open spec fn failure_of(step: Step) -> RunError {
    match step {
        Step::Restore { project } => RunError::RestoreFailed { project },
        Step::Build { project, platform } => RunError::BuildFailed { project, platform },
        Step::Pack { target } => RunError::PackFailed { target },
    }
}

/// The packaging directory of every project, in project order.
pub open spec fn project_pack_targets(n_projects: nat) -> Seq<PackTarget> {
    Seq::new(n_projects, |i: int| PackTarget::Project(i as usize))
}

/// What a run packs: the packaging directory under the working directory if
/// there is one, else that of every project.
pub open spec fn pack_targets(root_has_nuget: bool, n_projects: nat) -> Seq<PackTarget> {
    if root_has_nuget {
        seq![PackTarget::Root]
    } else {
        project_pack_targets(n_projects)
    }
}

/// One restore per project, in project order.
pub open spec fn restore_steps(n_projects: nat) -> Seq<Step> {
    Seq::new(n_projects, |i: int| Step::Restore { project: i as usize })
}

/// The builds of one project, one per platform in the order given.
pub open spec fn project_builds(project: nat, platforms: Seq<Platform>) -> Seq<Step> {
    platforms.map_values(|p: Platform| Step::Build { project: project as usize, platform: p })
}

/// The builds of the first `n_projects` projects, project by project.
pub open spec fn build_steps(n_projects: nat, platforms: Seq<Platform>) -> Seq<Step>
    decreases n_projects,
{
    if n_projects == 0 {
        seq![]
    } else {
        build_steps((n_projects - 1) as nat, platforms) + project_builds(
            (n_projects - 1) as nat,
            platforms,
        )
    }
}

/// The steps of a run, in the order they are performed.
pub open spec fn schedule_spec(
    restore: bool,
    build: bool,
    platforms: Seq<Platform>,
    pack: bool,
    n_projects: nat,
    root_has_nuget: bool,
) -> Seq<Step> {
    (if restore {
        restore_steps(n_projects)
    } else {
        seq![]
    }) + (if build {
        build_steps(n_projects, platforms)
    } else {
        seq![]
    }) + (if pack {
        pack_targets(root_has_nuget, n_projects).map_values(|t: PackTarget| Step::Pack { target: t })
    } else {
        seq![]
    })
}

/// The packaging directories of all projects, in project order.
pub fn nuget_pack_projects(n_projects: usize) -> (r: Vec<PackTarget>)
    ensures
        r@ == project_pack_targets(n_projects as nat),
{
    let mut targets: Vec<PackTarget> = Vec::new();
    let mut i: usize = 0;
    while i < n_projects
        invariant
            i <= n_projects,
            targets@ == project_pack_targets(i as nat),
        decreases n_projects - i,
    {
        targets.push(PackTarget::Project(i));
        i = i + 1;
        assert(targets@ =~= project_pack_targets(i as nat));
    }
    targets
}

/// The packaging directories a run packs.
pub fn nuget_pack(root_has_nuget: bool, n_projects: usize) -> (r: Vec<PackTarget>)
    ensures
        r@ == pack_targets(root_has_nuget, n_projects as nat),
{
    if root_has_nuget {
        let mut targets: Vec<PackTarget> = Vec::new();
        targets.push(PackTarget::Root);
        assert(targets@ =~= seq![PackTarget::Root]);
        targets
    } else {
        nuget_pack_projects(n_projects)
    }
}

/// The steps of a run of `plan` over `n_projects` projects.
pub fn schedule(plan: &Plan, n_projects: usize, root_has_nuget: bool) -> (r: Vec<Step>)
    ensures
        r@ == schedule_spec(
            plan.restore,
            plan.build,
            plan.platforms@,
            plan.pack,
            n_projects as nat,
            root_has_nuget,
        ),
{
    let mut steps: Vec<Step> = Vec::new();
    let ghost restores: Seq<Step> = if plan.restore {
        restore_steps(n_projects as nat)
    } else {
        seq![]
    };
    if plan.restore {
        let mut i: usize = 0;
        while i < n_projects
            invariant
                i <= n_projects,
                steps@ == restore_steps(i as nat),
            decreases n_projects - i,
        {
            steps.push(Step::Restore { project: i });
            i = i + 1;
            assert(steps@ =~= restore_steps(i as nat));
        }
    }
    assert(steps@ =~= restores);
    let ghost builds: Seq<Step> = if plan.build {
        build_steps(n_projects as nat, plan.platforms@)
    } else {
        seq![]
    };
    if plan.build {
        let m = plan.platforms.len();
        let mut p: usize = 0;
        while p < n_projects
            invariant
                p <= n_projects,
                m == plan.platforms@.len(),
                steps@ == restores + build_steps(p as nat, plan.platforms@),
            decreases n_projects - p,
        {
            let ghost done = steps@;
            let mut k: usize = 0;
            while k < m
                invariant
                    p < n_projects,
                    k <= m,
                    m == plan.platforms@.len(),
                    steps@ == done + project_builds(p as nat, plan.platforms@.take(k as int)),
                decreases m - k,
            {
                steps.push(Step::Build { project: p, platform: plan.platforms[k] });
                k = k + 1;
                assert(steps@ =~= done + project_builds(p as nat, plan.platforms@.take(k as int)));
            }
            assert(plan.platforms@.take(m as int) =~= plan.platforms@);
            p = p + 1;
            assert(steps@ =~= restores + build_steps(p as nat, plan.platforms@));
        }
    }
    assert(steps@ =~= restores + builds);
    if plan.pack {
        let targets = nuget_pack(root_has_nuget, n_projects);
        let ghost done = steps@;
        let mut t: usize = 0;
        while t < targets.len()
            invariant
                t <= targets@.len(),
                steps@ == done + targets@.take(t as int).map_values(
                    |x: PackTarget| Step::Pack { target: x },
                ),
            decreases targets@.len() - t,
        {
            steps.push(Step::Pack { target: targets[t] });
            t = t + 1;
            assert(steps@ =~= done + targets@.take(t as int).map_values(
                |x: PackTarget| Step::Pack { target: x },
            ));
        }
        assert(targets@.take(targets@.len() as int) =~= targets@);
    } else {
        assert(steps@ =~= restores + builds + seq![]);
    }
    steps
}

proof fn lemma_build_steps_are_builds(n_projects: nat, platforms: Seq<Platform>, k: int)
    requires
        0 <= k < build_steps(n_projects, platforms).len(),
    ensures
        build_steps(n_projects, platforms)[k] is Build,
    decreases n_projects,
{
    if n_projects > 0 {
        let earlier = build_steps((n_projects - 1) as nat, platforms);
        if k < earlier.len() {
            lemma_build_steps_are_builds((n_projects - 1) as nat, platforms, k);
        }
    }
}

/// Packing comes after all building: no pack step precedes a build step, so
/// a failed build ends the run before anything is packed.
pub proof fn lemma_no_pack_before_build(
    restore: bool,
    build: bool,
    platforms: Seq<Platform>,
    pack: bool,
    n_projects: nat,
    root_has_nuget: bool,
    i: int,
    j: int,
)
    requires
        0 <= j < i < schedule_spec(restore, build, platforms, pack, n_projects, root_has_nuget).len(),
        schedule_spec(restore, build, platforms, pack, n_projects, root_has_nuget)[i] is Build,
    ensures
        !(schedule_spec(restore, build, platforms, pack, n_projects, root_has_nuget)[j] is Pack),
{
    let r: Seq<Step> = if restore {
        restore_steps(n_projects)
    } else {
        seq![]
    };
    let b: Seq<Step> = if build {
        build_steps(n_projects, platforms)
    } else {
        seq![]
    };
    let p: Seq<Step> = if pack {
        pack_targets(root_has_nuget, n_projects).map_values(|t: PackTarget| Step::Pack { target: t })
    } else {
        seq![]
    };
    let all = schedule_spec(restore, build, platforms, pack, n_projects, root_has_nuget);
    assert(all == r + b + p);
    if i >= r.len() + b.len() {
        assert(all[i] == p[i - r.len() - b.len()]);
    }
    if j >= r.len() {
        if j < r.len() + b.len() {
            assert(all[j] == b[j - r.len()]);
            lemma_build_steps_are_builds(n_projects, platforms, j - r.len());
        }
    }
}

/// Once a step has failed, the run hands out no further step.
pub proof fn lemma_failure_ends_run(s: Session)
    requires
        s.failed(),
    ensures
        s.pending() is None,
{
}

/// A run in progress: its steps, how many of them have succeeded, and
/// whether one has failed.
pub struct Session {
    steps: Vec<Step>,
    done: usize,
    failed: bool,
}

impl Session {
    /// The steps of the run, in order.
    pub closed spec fn steps(&self) -> Seq<Step> {
        self.steps@
    }

    /// How many steps have succeeded.
    pub closed spec fn done(&self) -> nat {
        self.done as nat
    }

    /// A step has failed, which ends the run.
    pub closed spec fn failed(&self) -> bool {
        self.failed
    }

    /// The steps that have succeeded never outnumber the steps.
    #[verifier::type_invariant]
    spec fn wf(&self) -> bool {
        self.done <= self.steps@.len()
    }

    /// The step to perform next, if the run goes on.
    pub open spec fn pending(&self) -> Option<Step> {
        if !self.failed() && self.done() < self.steps().len() {
            Some(self.steps()[self.done() as int])
        } else {
            None
        }
    }

    /// Starts a run of `plan` over `n_projects` projects; `root_has_nuget`
    /// tells whether the working directory has a packaging directory.
    pub fn new(plan: &Plan, n_projects: usize, root_has_nuget: bool) -> (r: Session)
        ensures
            r.steps() == schedule_spec(
                plan.restore,
                plan.build,
                plan.platforms@,
                plan.pack,
                n_projects as nat,
                root_has_nuget,
            ),
            r.done() == 0,
            !r.failed(),
    {
        Session { steps: schedule(plan, n_projects, root_has_nuget), done: 0, failed: false }
    }

    /// The step to perform next, or `None` once the run has ended.
    pub fn next_step(&self) -> (r: Option<Step>)
        ensures
            r == self.pending(),
    {
        proof {
            use_type_invariant(self);
        }
        if !self.failed && self.done < self.steps.len() {
            Some(self.steps[self.done])
        } else {
            None
        }
    }

    /// Records whether the pending step's tool succeeded. A failure ends the
    /// run and is returned; with no step pending nothing changes.
    pub fn report(&mut self, success: bool) -> (r: Result<(), RunError>)
        ensures
            final(self).steps() == old(self).steps(),
            match old(self).pending() {
                None => r is Ok && *final(self) == *old(self),
                Some(step) => if success {
                    &&& r is Ok
                    &&& final(self).done() == old(self).done() + 1
                    &&& !final(self).failed()
                } else {
                    &&& r == Err::<(), RunError>(failure_of(step))
                    &&& final(self).done() == old(self).done()
                    &&& final(self).failed()
                },
            },
    {
        proof {
            use_type_invariant(&*self);
        }
        if self.failed || self.done >= self.steps.len() {
            return Ok(());
        }
        if success {
            self.done = self.done + 1;
            Ok(())
        } else {
            self.failed = true;
            Err(
                match self.steps[self.done] {
                    Step::Restore { project } => RunError::RestoreFailed { project },
                    Step::Build { project, platform } => RunError::BuildFailed { project, platform },
                    Step::Pack { target } => RunError::PackFailed { target },
                },
            )
        }
    }

    /// Every step has succeeded.
    pub fn is_complete(&self) -> (r: bool)
        ensures
            r == (!self.failed() && self.done() == self.steps().len()),
    {
        !self.failed && self.done == self.steps.len()
    }
}

} // verus!
