//! The command that probes one profile, or every profile that is enabled.
use crate::config::{
    first_named, has_profile, lemma_first_named_unique, lemma_lookup, lookup, named, ClaudexConfig,
    ProfileConfig, ProfileView,
};
use crate::connectivity::{outcome_line, outcome_text, ProbeOutcome};
use crate::error::{ProfileError, ProfileErrorView};
use vstd::prelude::*;

verus! {

/// The places of the enabled profiles, in their order.
pub open spec fn enabled_places(profiles: Seq<ProfileView>) -> Seq<int>
    decreases profiles.len(),
{
    if profiles.len() == 0 {
        Seq::empty()
    } else {
        let before = enabled_places(profiles.drop_last());
        if profiles.last().enabled {
            before.push(profiles.len() - 1)
        } else {
            before
        }
    }
}

/// The places of profiles that are still to be probed, and what has come of the others.
pub struct TestRun {
    targets: Vec<usize>,
    at: usize,
    strict: bool,
    failed: bool,
}

/// What a [`TestRun`] says.
#[verifier::ext_equal]
pub struct TestRunView {
    /// The places of the profiles that are still to be probed.
    pub remaining: Seq<int>,
    /// Whether a probe that fails makes the run fail.
    pub strict: bool,
    /// Whether a probe has failed.
    pub failed: bool,
}

impl View for TestRun {
    type V = TestRunView;

    closed spec fn view(&self) -> TestRunView {
        TestRunView {
            remaining: Seq::new(
                (self.targets@.len() - self.at) as nat,
                |i: int| self.targets@[self.at + i] as int,
            ),
            strict: self.strict,
            failed: self.failed,
        }
    }
}

/// What a [`TestStep`] says.
pub enum TestStepView {
    Probe(TestRunView),
    Done(Result<(), ProfileErrorView>),
}

/// What to do next in a run.
pub enum TestStep {
    /// Show [`testing_notice`], probe a profile, and go on with [`ProbeTurn::probed`].
    Probe(ProbeTurn),
    /// Stop: this is what has come of the run.
    Done(Result<(), ProfileError>),
}

/// A profile to probe in a run.
pub struct ProbeTurn {
    run: TestRun,
}

impl View for ProbeTurn {
    type V = TestRunView;

    closed spec fn view(&self) -> TestRunView {
        self.run@
    }
}

/// How a run ends that has nothing left to probe.
pub open spec fn run_result(run: TestRunView) -> Result<(), ProfileErrorView> {
    if run.strict && run.failed {
        Err(ProfileErrorView::ConnectivityFailed)
    } else {
        Ok(())
    }
}

/// What to do next in a run: probe the next profile, or stop where none is left.
pub open spec fn run_step(run: TestRunView) -> TestStepView {
    if run.remaining.len() > 0 {
        TestStepView::Probe(run)
    } else {
        TestStepView::Done(run_result(run))
    }
}

/// A run after the first of its profiles was probed.
pub open spec fn after_probe(run: TestRunView, reached: bool) -> TestRunView {
    TestRunView {
        remaining: run.remaining.drop_first(),
        failed: run.failed || !reached,
        ..run
    }
}

/// The run that the command begins for a name: over every enabled profile for `all`, else over
/// the first profile that is called so. Only the latter can fail.
pub open spec fn planned_run(profiles: Seq<ProfileView>, name: Seq<char>) -> Option<TestRunView> {
    if name == "all"@ {
        Some(TestRunView { remaining: enabled_places(profiles), strict: false, failed: false })
    } else if has_profile(profiles, name) {
        Some(
            TestRunView {
                remaining: seq![choose|at: int| first_named(profiles, name, at)],
                strict: true,
                failed: false,
            },
        )
    } else {
        None
    }
}

/// Begins to probe the profile that is called `name`, or every enabled profile where `name` is
/// `all`.
pub fn test_profile(config: &ClaudexConfig, name: &str) -> (result: Result<TestRun, ProfileError>)
    ensures
        match (planned_run(config@.profiles, name@), result) {
            (Some(run), Ok(begun)) => begun@ == run,
            (None, Err(error)) => error@ == ProfileErrorView::NotFound(name@),
            _ => false,
        },
{
    let mut targets: Vec<usize> = Vec::new();
    if name.to_owned() == "all".to_owned() {
        let ghost profiles = config@.profiles;
        let mut at: usize = 0;
        while at < config.profiles.len()
            invariant
                at <= config.profiles.len(),
                profiles == config@.profiles,
                targets@.map_values(|place: usize| place as int) =~= enabled_places(
                    profiles.take(at as int),
                ),
            decreases config.profiles.len() - at,
        {
            assert(profiles.take(at + 1).drop_last() =~= profiles.take(at as int));
            assert(profiles.take(at + 1).last() == config.profiles[at as int]@);
            if config.profiles[at].enabled {
                targets.push(at);
            }
            at = at + 1;
        }
        assert(profiles.take(at as int) =~= profiles);
        let run = TestRun { targets, at: 0, strict: false, failed: false };
        assert(run@.remaining =~= targets@.map_values(|place: usize| place as int));
        return Ok(run);
    }
    match config.profile_index(name) {
        Some(at) => {
            proof {
                lemma_first_named_unique(config@.profiles, name@, at as int);
            }
            targets.push(at);
            let run = TestRun { targets, at: 0, strict: true, failed: false };
            assert(run@.remaining =~= seq![at as int]);
            Ok(run)
        },
        None => Err(ProfileError::NotFound(name.to_owned())),
    }
}

impl TestRun {
    #[verifier::type_invariant]
    spec fn well_formed(self) -> bool {
        self.at <= self.targets.len()
    }

    /// Says what to do next.
    pub fn next(self) -> (step: TestStep)
        ensures
            match step {
                TestStep::Probe(turn) => self@.remaining.len() > 0 && turn@ == self@,
                TestStep::Done(result) => {
                    &&& self@.remaining.len() == 0
                    &&& match (run_result(self@), result) {
                        (Ok(()), Ok(())) => true,
                        (Err(expected), Err(error)) => error@ == expected,
                        _ => false,
                    }
                },
            },
            run_step(self@) == (match step {
                TestStep::Probe(turn) => TestStepView::Probe(turn@),
                TestStep::Done(result) => TestStepView::Done(
                    match result {
                        Ok(()) => Ok(()),
                        Err(error) => Err(error@),
                    },
                ),
            }),
    {
        proof {
            use_type_invariant(&self);
        }
        if self.at < self.targets.len() {
            TestStep::Probe(ProbeTurn { run: self })
        } else if self.strict && self.failed {
            TestStep::Done(Err(ProfileError::ConnectivityFailed))
        } else {
            TestStep::Done(Ok(()))
        }
    }
}

impl ProbeTurn {
    #[verifier::type_invariant]
    spec fn well_formed(self) -> bool {
        self.run.at < self.run.targets.len()
    }

    /// The place of the profile to probe.
    pub fn place(&self) -> (result: usize)
        ensures
            self@.remaining.len() > 0,
            result == self@.remaining[0],
    {
        proof {
            use_type_invariant(self);
        }
        self.run.targets[self.run.at]
    }

    /// Takes what came of the probe: a line to show, and the rest of the run.
    pub fn probed(self, outcome: &ProbeOutcome) -> (result: (String, TestRun))
        ensures
            result.0@ == outcome_text(*outcome),
            result.1@ == after_probe(self@, outcome is Ok),
    {
        proof {
            use_type_invariant(&self);
        }
        let line: String = outcome_line(outcome);
        let failed: bool = self.run.failed || outcome.is_err();
        let run = TestRun {
            targets: self.run.targets,
            at: self.run.at + 1,
            strict: self.run.strict,
            failed,
        };
        assert(run@ =~= after_probe(self@, outcome is Ok));
        (line, run)
    }
}

/// What is shown, without a line break, before a profile is probed.
pub fn testing_notice(profile: &ProfileConfig) -> (result: String)
    ensures
        result@ == "Testing "@ + profile@.name + "... "@,
{
    let mut text: String = "Testing ".to_owned();
    text.append(profile.name.as_str());
    text.append("... ");
    text
}

/// The places of the enabled profiles are those of the profiles that are enabled and no others,
/// each once and in ascending order.
pub proof fn law_enabled_places(profiles: Seq<ProfileView>)
    ensures
        forall|i: int|
            #![trigger enabled_places(profiles)[i]]
            0 <= i < enabled_places(profiles).len() ==> 0 <= enabled_places(profiles)[i]
                < profiles.len() && profiles[enabled_places(profiles)[i]].enabled,
        forall|i: int, j: int|
            0 <= i < j < enabled_places(profiles).len() ==> enabled_places(profiles)[i]
                < enabled_places(profiles)[j],
        forall|at: int|
            0 <= at < profiles.len() && (#[trigger] profiles[at]).enabled ==> enabled_places(
                profiles,
            ).contains(at),
    decreases profiles.len(),
{
    if profiles.len() > 0 {
        let shorter = profiles.drop_last();
        let before = enabled_places(shorter);
        let all = enabled_places(profiles);
        law_enabled_places(shorter);
        assert forall|i: int| 0 <= i < all.len() implies 0 <= #[trigger] all[i] < profiles.len()
            && profiles[all[i]].enabled by {
            if i < before.len() {
                assert(all[i] == before[i]);
                assert(shorter[before[i]] == profiles[before[i]]);
            }
        }
        assert forall|at: int|
            0 <= at < profiles.len() && (#[trigger] profiles[at]).enabled implies all.contains(
            at,
        ) by {
            if at < shorter.len() {
                assert(shorter[at] == profiles[at]);
                assert(before.contains(at));
                let i = choose|i: int| 0 <= i < before.len() && before[i] == at;
                assert(all[i] == at);
            } else {
                assert(all[before.len() as int] == at);
            }
        }
    }
}

/// A run once it is over, given for each probe in turn whether the provider was reached.
pub open spec fn after_probes(run: TestRunView, reached: Seq<bool>) -> TestRunView
    decreases reached.len(),
{
    if reached.len() == 0 {
        run
    } else {
        after_probes(after_probe(run, reached[0]), reached.drop_first())
    }
}

/// Whatever the probes bring, a run over all enabled profiles succeeds once each was probed.
pub proof fn law_all_never_fails(profiles: Seq<ProfileView>, reached: Seq<bool>)
    requires
        reached.len() == enabled_places(profiles).len(),
    ensures
        planned_run(profiles, "all"@) matches Some(run) && {
            &&& after_probes(run, reached).remaining.len() == 0
            &&& run_result(after_probes(run, reached)) == Ok::<(), ProfileErrorView>(())
        },
{
    let run = planned_run(profiles, "all"@)->0;
    lemma_lenient_run(run, reached);
}

proof fn lemma_lenient_run(run: TestRunView, reached: Seq<bool>)
    requires
        !run.strict,
        run.remaining.len() == reached.len(),
    ensures
        !after_probes(run, reached).strict,
        after_probes(run, reached).remaining.len() == 0,
    decreases reached.len(),
{
    if reached.len() > 0 {
        lemma_lenient_run(after_probe(run, reached[0]), reached.drop_first());
    }
}

/// A run over one profile takes one probe, and fails just where that probe does.
pub proof fn law_one_profile_decides(profiles: Seq<ProfileView>, name: Seq<char>, reached: bool)
    requires
        name != "all"@,
        has_profile(profiles, name),
    ensures
        planned_run(profiles, name) matches Some(run) && {
            &&& run.remaining.len() == 1
            &&& after_probe(run, reached).remaining.len() == 0
            &&& (run_result(after_probe(run, reached)) is Ok <==> reached)
        },
{
}

/// A name that is not `all` makes a run over one profile: the one at `at` where that is called so
/// and none before it is. It is the profile that a look-up finds, enabled or not.
pub proof fn law_named_run(profiles: Seq<ProfileView>, name: Seq<char>, at: int)
    requires
        name != "all"@,
        0 <= at < profiles.len(),
        profiles[at].name == name,
        forall|before: int| 0 <= before < at ==> profiles[before].name != name,
    ensures
        planned_run(profiles, name) matches Some(run) && run.remaining == seq![at],
        lookup(profiles, name) == Some(profiles[at]),
{
    assert(first_named(profiles, name, at));
    lemma_first_named_unique(profiles, name, at);
    lemma_lookup(profiles, name, at);
}

/// A name that is not `all` and that no profile has makes no run.
pub proof fn law_unknown_name_makes_no_run(profiles: Seq<ProfileView>, name: Seq<char>)
    requires
        name != "all"@,
        forall|at: int| 0 <= at < profiles.len() ==> profiles[at].name != name,
    ensures
        planned_run(profiles, name) is None,
{
}

/// The name `all` makes a run over the enabled profiles, each once and in their order, whatever the
/// profiles are called.
pub proof fn law_all_run(profiles: Seq<ProfileView>)
    ensures
        planned_run(profiles, "all"@) matches Some(run) && {
            &&& forall|at: int|
                run.remaining.contains(at) <==> 0 <= at < profiles.len() && profiles[at].enabled
            &&& forall|i: int, j: int|
                0 <= i < j < run.remaining.len() ==> run.remaining[i] < run.remaining[j]
        },
{
    law_enabled_places(profiles);
    let run = planned_run(profiles, "all"@)->0;
    assert forall|at: int|
        run.remaining.contains(at) <==> 0 <= at < profiles.len() && profiles[at].enabled by {
        if run.remaining.contains(at) {
            let i = choose|i: int| 0 <= i < run.remaining.len() && run.remaining[i] == at;
            assert(enabled_places(profiles)[i] == at);
        }
    }
}

/// Whatever the probes bring, none is left out and none comes twice: after each, the run goes on
/// with the next.
pub proof fn law_probes_come_in_turn(run: TestRunView, reached: Seq<bool>)
    requires
        reached.len() <= run.remaining.len(),
    ensures
        after_probes(run, reached).remaining == run.remaining.skip(reached.len() as int),
    decreases reached.len(),
{
    if reached.len() > 0 {
        law_probes_come_in_turn(after_probe(run, reached[0]), reached.drop_first());
        assert(run.remaining.drop_first().skip(reached.len() - 1) =~= run.remaining.skip(
            reached.len() as int,
        ));
    } else {
        assert(run.remaining.skip(0) =~= run.remaining);
    }
}

/// A run over one profile ends with an error that says so just where its probe failed.
pub proof fn law_failed_probe_is_reported(
    profiles: Seq<ProfileView>,
    name: Seq<char>,
    at: int,
    reached: bool,
)
    requires
        name != "all"@,
        0 <= at < profiles.len(),
        profiles[at].name == name,
    ensures
        planned_run(profiles, name) matches Some(run) && {
            let result = run_result(after_probe(run, reached));
            &&& reached ==> result is Ok
            &&& !reached ==> result == Err::<(), ProfileErrorView>(
                ProfileErrorView::ConnectivityFailed,
            )
        },
{
    assert(named(profiles, name, at));
}

/// A run goes on for as long as a profile is left to probe, whatever came before, and stops only
/// then. It then fails just where a failed probe makes it fail and one has failed.
pub proof fn law_run_goes_on(run: TestRunView)
    ensures
        run.remaining.len() > 0 ==> run_step(run) == TestStepView::Probe(run),
        run.remaining.len() == 0 && run.strict && run.failed ==> run_step(run)
            == TestStepView::Done(Err(ProfileErrorView::ConnectivityFailed)),
        run.remaining.len() == 0 && !(run.strict && run.failed) ==> run_step(run)
            == TestStepView::Done(Ok(())),
{
}

} // verus!
