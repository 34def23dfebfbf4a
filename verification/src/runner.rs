//! Finding the directory that holds the project, and choosing the runner.

use vstd::prelude::*;
use crate::detectors::{
    all_matches, detect_all, detected, is_ignored, is_ignored_name, runners_view, without_ignored,
    DetectedRunner, Ecosystem, RunnerSpec,
};
use crate::error::{RunError, RunErrorSpec};
use crate::project::{Directory, FileSpec};
use crate::text::names_view;

verus! {

/// The directories that `chain` stands for.
pub open spec fn dirs_view(chain: Seq<Directory>) -> Seq<Seq<FileSpec>> {
    chain.map_values(|dir: Directory| dir@)
}

/// What the search does at one directory.
#[derive(Debug)]
pub enum SearchStep {
    /// The search ends here: these are the runners of the project.
    Found { matches: Vec<DetectedRunner> },
    /// Nothing here: the search goes on in the parent directory.
    Climb,
    /// Nothing here, and no further to go: the search fails.
    GiveUp,
}

/// What a `SearchStep` stands for.
pub enum SearchStepSpec {
    Found { matches: Seq<RunnerSpec> },
    Climb,
    GiveUp,
}

impl View for SearchStep {
    type V = SearchStepSpec;

    open spec fn view(&self) -> SearchStepSpec {
        match self {
            SearchStep::Found { matches } => SearchStepSpec::Found { matches: runners_view(matches@) },
            SearchStep::Climb => SearchStepSpec::Climb,
            SearchStep::GiveUp => SearchStepSpec::GiveUp,
        }
    }
}

/// What the search does at a directory `level` levels above the start: it
/// ends with what the detectors find there that is not ignored; where that
/// is nothing it goes on to the parent, unless the directory has none or lies
/// `max_levels` above the start already.
pub open spec fn step_at(
    entries: Seq<FileSpec>,
    level: int,
    max_levels: int,
    has_parent: bool,
    ignore: Seq<Seq<char>>,
) -> SearchStepSpec {
    if detected(entries, ignore).len() > 0 {
        SearchStepSpec::Found { matches: detected(entries, ignore) }
    } else if level < max_levels && has_parent {
        SearchStepSpec::Climb
    } else {
        SearchStepSpec::GiveUp
    }
}

/// Decides what the search does at `dir`, which lies `level` levels above
/// the start directory.
pub fn search_step(
    dir: &Directory,
    level: usize,
    max_levels: u8,
    has_parent: bool,
    ignore_list: &[String],
) -> (step: SearchStep)
    ensures
        step@ == step_at(dir@, level as int, max_levels as int, has_parent, names_view(ignore_list@)),
{
    let matches = detect_all(dir, ignore_list);
    if matches.len() > 0 {
        SearchStep::Found { matches }
    } else if level < max_levels as usize && has_parent {
        SearchStep::Climb
    } else {
        SearchStep::GiveUp
    }
}

/// Looks for runners from the start directory upwards. `chain` holds the
/// start directory, then its parent, and so on, as far as there are
/// directories; the search looks at no more than `max_levels` ancestors. It
/// stops at the first directory in which a detector finds something that is
/// not ignored, and returns what all the detectors find there, with the
/// directory's place in `chain`.
pub fn search_runners(chain: &[Directory], max_levels: u8, ignore_list: &[String]) -> (found:
    Result<(Vec<DetectedRunner>, usize), RunError>)
    ensures
        match found {
            Ok((matches, level)) => {
                &&& level <= max_levels
                &&& level < chain@.len()
                &&& matches@.len() > 0
                &&& runners_view(matches@) == detected(
                    dirs_view(chain@)[level as int],
                    names_view(ignore_list@),
                )
                &&& forall|k: int|
                    0 <= k < level ==> detected(
                        #[trigger] dirs_view(chain@)[k],
                        names_view(ignore_list@),
                    ).len() == 0
            },
            Err(error) => {
                &&& error@ == RunErrorSpec::RunnerNotFound
                &&& forall|k: int|
                    0 <= k < chain@.len() && k <= max_levels ==> detected(
                        #[trigger] dirs_view(chain@)[k],
                        names_view(ignore_list@),
                    ).len() == 0
            },
        },
{
    let mut level: usize = 0;
    while level < chain.len()
        invariant
            level <= chain@.len(),
            level <= max_levels,
            forall|k: int|
                0 <= k < level ==> detected(
                    #[trigger] dirs_view(chain@)[k],
                    names_view(ignore_list@),
                ).len() == 0,
        decreases chain@.len() - level,
    {
        let has_parent = level + 1 < chain.len();
        match search_step(&chain[level], level, max_levels, has_parent, ignore_list) {
            SearchStep::Found { matches } => {
                return Ok((matches, level));
            },
            SearchStep::Climb => {
                level += 1;
            },
            SearchStep::GiveUp => {
                return Err(RunError::RunnerNotFound);
            },
        }
    }
    Err(RunError::RunnerNotFound)
}

/// The index of the runner to use: the first of those with the least priority.
pub open spec fn preferred(runners: Seq<RunnerSpec>) -> int
    decreases runners.len(),
{
    if runners.len() <= 1 {
        0
    } else {
        let front = preferred(runners.drop_last());
        if runners.last().priority < runners[front].priority {
            runners.len() - 1
        } else {
            front
        }
    }
}

/// No runner has a lower priority than the preferred one, and none of the
/// same priority stands before it.
pub proof fn lemma_preferred(runners: Seq<RunnerSpec>)
    requires
        runners.len() > 0,
    ensures
        0 <= preferred(runners) < runners.len(),
        forall|k: int|
            0 <= k < runners.len() ==> runners[preferred(runners)].priority <= (
            #[trigger] runners[k]).priority,
        forall|k: int|
            0 <= k < preferred(runners) ==> runners[preferred(runners)].priority < (
            #[trigger] runners[k]).priority,
    decreases runners.len(),
{
    if runners.len() > 1 {
        let front = runners.drop_last();
        lemma_preferred(front);
        assert forall|k: int| 0 <= k < runners.len() implies runners[preferred(
            runners,
        )].priority <= (#[trigger] runners[k]).priority by {
            if k < front.len() {
                assert(front[k] == runners[k]);
            }
        }
        assert forall|k: int| 0 <= k < preferred(runners) implies runners[preferred(
            runners,
        )].priority < (#[trigger] runners[k]).priority by {
            assert(front[k] == runners[k]);
        }
    }
}

/// Among the runners that the detectors find in a directory, the preferred
/// one is the first: the registry runs the detectors in the order of their
/// priorities, and no two of them share one.
pub proof fn lemma_preferred_of_detected(entries: Seq<FileSpec>, ignore: Seq<Seq<char>>)
    ensures
        preferred(detected(entries, ignore)) == 0,
{
    let found = detected(entries, ignore);
    if found.len() > 0 {
        lemma_preferred(found);
        lemma_kept_ascend(all_matches(entries), ignore);
        if preferred(found) > 0 {
            assert(found[0].priority < found[preferred(found)].priority);
        }
    }
}

/// What is kept of runners with ascending priorities has ascending priorities.
proof fn lemma_kept_ascend(runners: Seq<RunnerSpec>, ignore: Seq<Seq<char>>)
    requires
        forall|i: int, j: int|
            0 <= i < j < runners.len() ==> runners[i].priority < runners[j].priority,
    ensures
        forall|i: int, j: int|
            0 <= i < j < without_ignored(runners, ignore).len() ==> without_ignored(
                runners,
                ignore,
            )[i].priority < without_ignored(runners, ignore)[j].priority,
        forall|i: int|
            0 <= i < without_ignored(runners, ignore).len() && runners.len() > 0
                ==> without_ignored(runners, ignore)[i].priority <= runners.last().priority,
    decreases runners.len(),
{
    if runners.len() > 0 {
        let front = runners.drop_last();
        lemma_kept_ascend(front, ignore);
    }
}

/// Chooses the runner to use among those found in one directory: the one
/// with the least priority, and of several such the first.
pub fn select_runner(matches: &[DetectedRunner]) -> (selected: Result<DetectedRunner, RunError>)
    ensures
        match selected {
            Ok(runner) => matches@.len() > 0 && runner@ == runners_view(matches@)[preferred(
                runners_view(matches@),
            )],
            Err(error) => matches@.len() == 0 && error@ == RunErrorSpec::NoRunnerAvailable,
        },
{
    if matches.len() == 0 {
        return Err(RunError::NoRunnerAvailable);
    }
    let ghost all = runners_view(matches@);
    let mut best: usize = 0;
    let mut i: usize = 1;
    while i < matches.len()
        invariant
            1 <= i <= matches@.len(),
            all == runners_view(matches@),
            best == preferred(all.take(i as int)),
            best < i,
        decreases matches@.len() - i,
    {
        assert(all.take(i + 1).drop_last() =~= all.take(i as int));
        if matches[i].priority < matches[best].priority {
            best = i;
        }
        i += 1;
    }
    assert(all.take(matches@.len() as int) =~= all);
    Ok(matches[best].clone())
}

/// The names of the runners of one ecosystem, in their order among `runners`.
pub open spec fn tools_in(runners: Seq<RunnerSpec>, ecosystem: Ecosystem) -> Seq<Seq<char>>
    decreases runners.len(),
{
    if runners.len() == 0 {
        seq![]
    } else if runners.last().ecosystem == ecosystem {
        tools_in(runners.drop_last(), ecosystem).push(runners.last().name)
    } else {
        tools_in(runners.drop_last(), ecosystem)
    }
}

/// Several runners of one ecosystem in one directory.
#[derive(Debug)]
pub struct EcosystemConflict {
    pub ecosystem: Ecosystem,
    /// The names of the ecosystem's runners that were found, two at least.
    pub tools: Vec<String>,
}

/// What an `EcosystemConflict` stands for.
pub struct ConflictSpec {
    pub ecosystem: Ecosystem,
    pub tools: Seq<Seq<char>>,
}

impl View for EcosystemConflict {
    type V = ConflictSpec;

    open spec fn view(&self) -> ConflictSpec {
        ConflictSpec { ecosystem: self.ecosystem, tools: names_view(self.tools@) }
    }
}

/// The conflicts that `conflicts` stand for.
pub open spec fn conflicts_view(conflicts: Seq<EcosystemConflict>) -> Seq<ConflictSpec> {
    conflicts.map_values(|conflict: EcosystemConflict| conflict@)
}

/// The conflict within one ecosystem, where more than one of `runners` belongs to it.
pub open spec fn conflict_in(runners: Seq<RunnerSpec>, ecosystem: Ecosystem) -> Seq<ConflictSpec> {
    if tools_in(runners, ecosystem).len() > 1 {
        seq![ConflictSpec { ecosystem, tools: tools_in(runners, ecosystem) }]
    } else {
        seq![]
    }
}

/// The conflicts among `runners`: one for each ecosystem that more than one
/// of them belongs to. Runners of different ecosystems are no conflict.
pub open spec fn conflicts_among(runners: Seq<RunnerSpec>) -> Seq<ConflictSpec> {
    conflict_in(runners, Ecosystem::NodeJs) + conflict_in(runners, Ecosystem::Python)
        + conflict_in(runners, Ecosystem::Rust) + conflict_in(runners, Ecosystem::Swift)
        + conflict_in(runners, Ecosystem::Zig) + conflict_in(runners, Ecosystem::Generic)
}

/// The names of the runners of `ecosystem` among `matches`.
pub fn tools_of(matches: &[DetectedRunner], ecosystem: Ecosystem) -> (tools: Vec<String>)
    ensures
        names_view(tools@) == tools_in(runners_view(matches@), ecosystem),
{
    let ghost all = runners_view(matches@);
    let mut tools: Vec<String> = Vec::new();
    let mut i: usize = 0;
    while i < matches.len()
        invariant
            i <= matches@.len(),
            all == runners_view(matches@),
            names_view(tools@) == tools_in(all.take(i as int), ecosystem),
        decreases matches@.len() - i,
    {
        assert(all.take(i + 1).drop_last() =~= all.take(i as int));
        if matches[i].ecosystem == ecosystem {
            tools.push(matches[i].name.clone());
        }
        i += 1;
    }
    assert(all.take(matches@.len() as int) =~= all);
    tools
}

/// Adds the conflict within `ecosystem` to `conflicts` where there is one.
fn push_conflict(
    conflicts: &mut Vec<EcosystemConflict>,
    matches: &[DetectedRunner],
    ecosystem: Ecosystem,
)
    ensures
        conflicts_view(final(conflicts)@) == conflicts_view(old(conflicts)@) + conflict_in(
            runners_view(matches@),
            ecosystem,
        ),
{
    let tools = tools_of(matches, ecosystem);
    if tools.len() > 1 {
        conflicts.push(EcosystemConflict { ecosystem, tools });
    }
}

/// The ecosystems of which `matches` holds more than one runner, each with
/// the names of its runners.
pub fn ecosystem_conflicts(matches: &[DetectedRunner]) -> (conflicts: Vec<EcosystemConflict>)
    ensures
        conflicts_view(conflicts@) == conflicts_among(runners_view(matches@)),
{
    let mut conflicts: Vec<EcosystemConflict> = Vec::new();
    push_conflict(&mut conflicts, matches, Ecosystem::NodeJs);
    push_conflict(&mut conflicts, matches, Ecosystem::Python);
    push_conflict(&mut conflicts, matches, Ecosystem::Rust);
    push_conflict(&mut conflicts, matches, Ecosystem::Swift);
    push_conflict(&mut conflicts, matches, Ecosystem::Zig);
    push_conflict(&mut conflicts, matches, Ecosystem::Generic);
    conflicts
}

/// A runner that was found, and whether the ignore list rules it out.
#[derive(Debug)]
pub struct Candidate {
    pub runner: DetectedRunner,
    pub ignored: bool,
}

/// What a `Candidate` stands for.
pub struct CandidateSpec {
    pub runner: RunnerSpec,
    pub ignored: bool,
}

impl View for Candidate {
    type V = CandidateSpec;

    open spec fn view(&self) -> CandidateSpec {
        CandidateSpec { runner: self.runner@, ignored: self.ignored }
    }
}

/// Why a runner is used: the runner, and the others that were found beside it.
#[derive(Debug)]
pub struct Explanation {
    /// The runner that is used: the first that is not ignored.
    pub selected: Option<DetectedRunner>,
    /// The runners of another name than the selected one; all of them where
    /// none is selected.
    pub others: Vec<Candidate>,
}

/// What an `Explanation` stands for.
pub struct ExplanationSpec {
    pub selected: Option<RunnerSpec>,
    pub others: Seq<CandidateSpec>,
}

/// The candidates that `candidates` stand for.
pub open spec fn candidates_view(candidates: Seq<Candidate>) -> Seq<CandidateSpec> {
    candidates.map_values(|candidate: Candidate| candidate@)
}

impl View for Explanation {
    type V = ExplanationSpec;

    open spec fn view(&self) -> ExplanationSpec {
        ExplanationSpec {
            selected: match self.selected {
                Some(runner) => Some(runner@),
                None => None,
            },
            others: candidates_view(self.others@),
        }
    }
}

/// The first of `runners` that is not ignored.
pub open spec fn first_kept(runners: Seq<RunnerSpec>, ignore: Seq<Seq<char>>) -> Option<
    RunnerSpec,
> {
    if without_ignored(runners, ignore).len() > 0 {
        Some(without_ignored(runners, ignore)[0])
    } else {
        None
    }
}

/// Those of `runners` that are not named as `selected` is, each with its
/// standing on the ignore list.
pub open spec fn others_beside(
    runners: Seq<RunnerSpec>,
    selected: Option<RunnerSpec>,
    ignore: Seq<Seq<char>>,
) -> Seq<CandidateSpec>
    decreases runners.len(),
{
    if runners.len() == 0 {
        seq![]
    } else if selected matches Some(runner) && runner.name == runners.last().name {
        others_beside(runners.drop_last(), selected, ignore)
    } else {
        others_beside(runners.drop_last(), selected, ignore).push(
            CandidateSpec {
                runner: runners.last(),
                ignored: is_ignored(runners.last().name, ignore),
            },
        )
    }
}

/// The explanation of the choice among `runners` under the ignore list.
pub open spec fn explanation_of(
    runners: Seq<RunnerSpec>,
    ignore: Seq<Seq<char>>,
) -> ExplanationSpec {
    ExplanationSpec {
        selected: first_kept(runners, ignore),
        others: others_beside(runners, first_kept(runners, ignore), ignore),
    }
}

/// The first of `runners` that is not ignored stands behind ignored ones only.
proof fn lemma_first_kept(runners: Seq<RunnerSpec>, ignore: Seq<Seq<char>>, at: int)
    requires
        0 <= at < runners.len(),
        !is_ignored(runners[at].name, ignore),
        forall|k: int| 0 <= k < at ==> is_ignored(runners[k].name, ignore),
    ensures
        first_kept(runners, ignore) == Some(runners[at]),
    decreases runners.len(),
{
    let front = runners.drop_last();
    if at < runners.len() - 1 {
        lemma_first_kept(front, ignore, at);
    } else {
        lemma_none_kept(front, ignore);
    }
}

/// Nothing is kept of runners that are all ignored.
proof fn lemma_none_kept(runners: Seq<RunnerSpec>, ignore: Seq<Seq<char>>)
    requires
        forall|k: int| 0 <= k < runners.len() ==> is_ignored(runners[k].name, ignore),
    ensures
        without_ignored(runners, ignore).len() == 0,
    decreases runners.len(),
{
    if runners.len() > 0 {
        let front = runners.drop_last();
        lemma_none_kept(front, ignore);
    }
}

/// Explains which of the runners found in one directory is used under the
/// ignore list, and what became of the others.
pub fn explain_selection(all_runners: &[DetectedRunner], ignore_list: &[String]) -> (explanation:
    Explanation)
    ensures
        explanation@ == explanation_of(runners_view(all_runners@), names_view(ignore_list@)),
{
    let ghost all = runners_view(all_runners@);
    let ghost ignore = names_view(ignore_list@);
    let ghost chosen = first_kept(all, ignore);
    let mut selected: Option<DetectedRunner> = None;
    let mut i: usize = 0;
    while i < all_runners.len() && selected.is_none()
        invariant
            i <= all_runners@.len(),
            all == runners_view(all_runners@),
            ignore == names_view(ignore_list@),
            chosen == first_kept(all, ignore),
            selected is None ==> forall|k: int| 0 <= k < i ==> is_ignored(all[k].name, ignore),
            selected matches Some(runner) ==> chosen == Some(runner@),
        decreases all_runners@.len() - i,
    {
        if !is_ignored_name(all_runners[i].name.as_str(), ignore_list) {
            selected = Some(all_runners[i].clone());
            proof {
                lemma_first_kept(all, ignore, i as int);
            }
        }
        i += 1;
    }
    proof {
        if selected is None {
            lemma_none_kept(all, ignore);
        }
    }
    let mut others: Vec<Candidate> = Vec::new();
    let mut j: usize = 0;
    while j < all_runners.len()
        invariant
            j <= all_runners@.len(),
            all == runners_view(all_runners@),
            ignore == names_view(ignore_list@),
            chosen == match selected {
                Some(runner) => Some(runner@),
                None => None,
            },
            candidates_view(others@) == others_beside(all.take(j as int), chosen, ignore),
        decreases all_runners@.len() - j,
    {
        assert(all.take(j + 1).drop_last() =~= all.take(j as int));
        let same = match &selected {
            Some(runner) => runner.name == all_runners[j].name,
            None => false,
        };
        if !same {
            let ignored = is_ignored_name(all_runners[j].name.as_str(), ignore_list);
            others.push(Candidate { runner: all_runners[j].clone(), ignored });
        }
        j += 1;
    }
    assert(all.take(all_runners@.len() as int) =~= all);
    Explanation { selected, others }
}

} // verus!
