//! One run of flashing, step by step: which release, which binary to which
//! target, which platform, and which of the targets in the end. Each step is
//! carried out elsewhere and reported back.
use vstd::prelude::*;

use crate::cli::missing;
use crate::console::stands_in;
use crate::error::{Cause, CauseView, CliError, ErrorView};
use crate::flash::{
    assign_bins, assignment, bare_files, check_release, check_targets, explicit_target,
    files_to_ask, filter_targets, kept_targets, listed_targets, named_targets_must_be_supported,
    platform_choice, platform_named, release_choice, selected_targets_are_kept,
    short_names_mean_their_platforms, single_explicit_target_for_bare_bin, target_check,
    target_choice, unknown_platform, Choice, PlatformChoice,
};
use crate::text::{lemma_filter, lower, opt_text, texts};
use crate::text_map::TextMap;

verus! {

/// What the command line says about flashing.
#[derive(Debug)]
pub struct FlashOptions {
    /// A release, by name or to be picked.
    pub release: Option<Option<String>>,
    /// Binaries by target; a file without a target is a key without a value.
    pub bin: Option<TextMap<Option<String>>>,
    /// Targets, by name or to be picked.
    pub targets: Option<Option<String>>,
    /// The short name of the platform.
    pub platform: Option<String>,
    /// The Crazyflie does not run its firmware.
    pub cold: bool,
    pub non_interactive: bool,
}

/// What is known before the firmware is assembled.
#[derive(Debug)]
pub struct FlashPlan {
    pub release: Option<String>,
    /// Files by target.
    pub bins: TextMap<String>,
}

/// What is done next.
#[derive(Debug)]
pub enum FlashStep {
    /// Fetch the names of the releases. The named one must be among them;
    /// without a name the user picks one.
    FetchReleases(Option<String>),
    /// Let the user pick one of these releases.
    PickRelease(Vec<String>),
    /// Let the user pick a target for the first file that has no answer yet.
    PickTarget { release: Option<String>, files: Vec<String>, answers: Vec<String> },
    /// Let the user pick a platform.
    PickPlatform(FlashPlan),
    /// Connect to the Crazyflie and ask it for its platform.
    QueryPlatform(FlashPlan),
    /// Put the firmware for the platform together.
    Assemble { plan: FlashPlan, platform: String },
    /// Let the user pick some of these targets.
    PickTargets(Vec<String>),
    /// Flash the firmware of these targets, of which there is at least one.
    Flash(Vec<String>),
    /// There is no firmware for any target that was selected: say so and end,
    /// which is no failure.
    NothingToFlash,
    Fail(Cause),
}

/// What came of a step.
#[derive(Debug)]
pub enum FlashEvent {
    Releases(Vec<String>),
    /// What the user picked, if anything.
    Picked(Option<String>),
    Platform(String),
    /// The targets for which there is firmware.
    Assembled(Vec<String>),
    /// The targets that the user picked, if any.
    PickedTargets(Option<Vec<String>>),
}

// ---- The course of a run ---------------------------------------------------

/// The files for which the user has to pick a target.
pub open spec fn open_files(options: FlashOptions) -> Seq<Seq<char>> {
    match options.bin {
        Some(bin) => if explicit_target(options.bin, options.targets) is Some {
            Seq::empty()
        } else {
            bare_files(bin.listed())
        },
        None => Seq::empty(),
    }
}

/// Which file goes to which target, with the user's answers for the open files.
pub open spec fn assigned(options: FlashOptions, answers: Seq<Seq<char>>) -> Map<
    Seq<char>,
    Seq<char>,
> {
    match options.bin {
        Some(bin) => assignment(
            bin.listed(),
            explicit_target(options.bin, options.targets),
            answers,
        ),
        None => Map::empty(),
    }
}

/// Whether a plan has this release and these files.
pub open spec fn is_plan(
    plan: FlashPlan,
    release: Option<Seq<char>>,
    bins: Map<Seq<char>, Seq<char>>,
) -> bool {
    opt_text(plan.release) == release && plan.bins@.map_values(|s: String| s@) == bins
}

/// A failure with a text.
pub open spec fn fails_with(step: FlashStep, text: Seq<char>) -> bool {
    step matches FlashStep::Fail(e) && e@ == CauseView::Other(text)
}

/// A failure with a classified error.
pub open spec fn fails_for(step: FlashStep, err: ErrorView) -> bool {
    step matches FlashStep::Fail(e) && e@ == CauseView::Cli(err)
}

/// Whether `next` is the step once the plan is complete.
pub open spec fn platform_follows(
    options: FlashOptions,
    release: Option<Seq<char>>,
    answers: Seq<Seq<char>>,
    next: FlashStep,
) -> bool {
    let bins = assigned(options, answers);
    if !options.cold {
        next matches FlashStep::QueryPlatform(plan) && is_plan(plan, release, bins)
    } else {
        match options.platform {
            Some(name) => match platform_named(name@) {
                Some(known) => next matches FlashStep::Assemble { plan, platform } && is_plan(
                    plan,
                    release,
                    bins,
                ) && platform@ == known,
                None => next matches FlashStep::Fail(e) && e@ == unknown_platform(name@),
            },
            None => if options.non_interactive {
                fails_for(next, missing("--platform"@))
            } else {
                next matches FlashStep::PickPlatform(plan) && is_plan(plan, release, bins)
            },
        }
    }
}

/// Whether `next` is the step once the release is settled.
pub open spec fn bins_follow(
    options: FlashOptions,
    release: Option<Seq<char>>,
    next: FlashStep,
) -> bool {
    let open = open_files(options);
    if open.len() == 0 {
        platform_follows(options, release, Seq::empty(), next)
    } else if options.non_interactive {
        fails_for(
            next,
            missing("--bin target=file (or: --targets <TARGET> for a single bare --bin)"@),
        )
    } else {
        next matches FlashStep::PickTarget { release: r, files, answers } && opt_text(r) == release
            && texts(files@) == open && texts(answers@) == Seq::<Seq<char>>::empty()
    }
}

/// Whether `next` is the first step.
pub open spec fn flash_starts(options: FlashOptions, next: FlashStep) -> bool {
    match options.release {
        Some(Some(name)) => next matches FlashStep::FetchReleases(Some(n)) && n@ == name@,
        Some(None) => if options.non_interactive {
            fails_for(next, missing("--release <NAME>"@))
        } else {
            next matches FlashStep::FetchReleases(None)
        },
        None => bins_follow(options, None, next),
    }
}

/// Whether `next` ends a run with these targets.
pub open spec fn flashes(targets: Seq<Seq<char>>, next: FlashStep) -> bool {
    if targets.len() == 0 {
        next is NothingToFlash
    } else {
        next matches FlashStep::Flash(list) && texts(list@) == targets
    }
}

/// Whether `next` is the step once the firmware is there.
pub open spec fn targets_follow(
    options: FlashOptions,
    available: Vec<String>,
    supported: Seq<Seq<char>>,
    next: FlashStep,
) -> bool {
    match options.targets {
        Some(Some(arg)) => match target_check(listed_targets(arg@), supported) {
            Ok(_) => flashes(kept_targets(texts(available@), listed_targets(arg@)), next),
            Err(why) => fails_for(next, why),
        },
        Some(None) => if options.non_interactive {
            fails_for(next, missing("--targets <list>"@))
        } else {
            next == FlashStep::PickTargets(available)
        },
        None => flashes(texts(available@), next),
    }
}

/// Whether `next` is the step that follows.
pub open spec fn flash_follows(
    options: FlashOptions,
    supported: Seq<Seq<char>>,
    step: FlashStep,
    event: FlashEvent,
    next: FlashStep,
) -> bool {
    match (step, event) {
        (FlashStep::FetchReleases(Some(name)), FlashEvent::Releases(labels)) => if texts(
            labels@,
        ).contains(name@) {
            bins_follow(options, Some(name@), next)
        } else {
            fails_for(next, ErrorView::NotFound("release '"@ + name@ + "'"@))
        },
        (FlashStep::FetchReleases(None), FlashEvent::Releases(labels)) => next
            == FlashStep::PickRelease(labels),
        (FlashStep::PickRelease(_), FlashEvent::Picked(Some(name))) => bins_follow(
            options,
            Some(name@),
            next,
        ),
        (FlashStep::PickRelease(_), FlashEvent::Picked(None)) => fails_with(
            next,
            "No release selected"@,
        ),
        (
            FlashStep::PickTarget { release, files, answers },
            FlashEvent::Picked(Some(target)),
        ) => {
            let all = texts(answers@).push(target@);
            if all.len() < files@.len() {
                next matches FlashStep::PickTarget { release: r, files: f, answers: a } && r
                    == release && f == files && texts(a@) == all
            } else {
                platform_follows(options, opt_text(release), all, next)
            }
        },
        (FlashStep::PickTarget { .. }, FlashEvent::Picked(None)) => fails_with(
            next,
            "No binary selected"@,
        ),
        (FlashStep::PickPlatform(plan), FlashEvent::Picked(Some(name))) => next
            == (FlashStep::Assemble { plan, platform: name }),
        (FlashStep::PickPlatform(_), FlashEvent::Picked(None)) => fails_with(
            next,
            "No platform selected"@,
        ),
        (FlashStep::QueryPlatform(plan), FlashEvent::Platform(name)) => next
            == (FlashStep::Assemble { plan, platform: name }),
        (FlashStep::Assemble { .. }, FlashEvent::Assembled(available)) => targets_follow(
            options,
            available,
            supported,
            next,
        ),
        (FlashStep::PickTargets(available), FlashEvent::PickedTargets(Some(list))) => flashes(
            kept_targets(texts(available@), texts(list@)),
            next,
        ),
        (FlashStep::PickTargets(_), FlashEvent::PickedTargets(None)) => fails_with(
            next,
            "No targets selected"@,
        ),
        (step, _) => next == step,
    }
}

// ---- The run ---------------------------------------------------------------

/// A run of flashing: what the command line says, and the step that is next.
#[derive(Debug)]
pub struct FlashRun {
    options: FlashOptions,
    step: FlashStep,
}

/// The step once the plan is complete.
fn platform_step(options: &FlashOptions, plan: FlashPlan) -> (next: FlashStep)
    ensures
        forall|answers: Seq<Seq<char>>|
            #![trigger assigned(*options, answers)]
            plan.bins@.map_values(|s: String| s@) == assigned(*options, answers)
                ==> platform_follows(*options, opt_text(plan.release), answers, next),
{
    match platform_choice(options.cold, &options.platform, options.non_interactive) {
        Ok(PlatformChoice::Queried) => FlashStep::QueryPlatform(plan),
        Ok(PlatformChoice::Known(platform)) => FlashStep::Assemble { plan, platform },
        Ok(PlatformChoice::Asked) => FlashStep::PickPlatform(plan),
        Err(e) => FlashStep::Fail(e),
    }
}

/// The step once all open files have an answer.
fn assigned_step(options: &FlashOptions, release: Option<String>, answers: &[String]) -> (next:
    FlashStep)
    requires
        answers@.len() == open_files(*options).len(),
    ensures
        platform_follows(*options, opt_text(release), texts(answers@), next),
{
    let lone = single_explicit_target_for_bare_bin(&options.bin, &options.targets);
    let bins = match &options.bin {
        Some(bin) => assign_bins(bin, &lone, answers),
        None => {
            let none: TextMap<String> = TextMap::new();
            assert(none@.map_values(|s: String| s@) =~= Map::empty());
            none
        },
    };
    assert(bins@.map_values(|s: String| s@) == assigned(*options, texts(answers@)));
    platform_step(options, FlashPlan { release, bins })
}

/// The step once the release is settled.
fn bins_step(options: &FlashOptions, release: Option<String>) -> (next: FlashStep)
    ensures
        bins_follow(*options, opt_text(release), next),
        fits(*options, next),
{
    let lone = single_explicit_target_for_bare_bin(&options.bin, &options.targets);
    let answers: Vec<String> = Vec::new();
    assert(texts(answers@) =~= Seq::empty());
    let files = match &options.bin {
        Some(bin) => match files_to_ask(bin, &lone, options.non_interactive) {
            Ok(files) => files,
            Err(e) => return FlashStep::Fail(Cause::Cli(e)),
        },
        None => {
            let none: Vec<String> = Vec::new();
            assert(texts(none@) =~= Seq::empty());
            none
        },
    };
    assert(texts(files@) == open_files(*options));
    assert(files@.len() == texts(files@).len());
    if files.len() == 0 {
        assigned_step(options, release, answers.as_slice())
    } else {
        FlashStep::PickTarget { release, files, answers }
    }
}

/// The step that ends a run with these targets.
fn last_step(targets: Vec<String>) -> (next: FlashStep)
    ensures
        flashes(texts(targets@), next),
        !(next is PickTarget),
{
    assert(texts(targets@).len() == targets@.len());
    if targets.len() == 0 {
        FlashStep::NothingToFlash
    } else {
        FlashStep::Flash(targets)
    }
}

/// Whether a step belongs to a run: targets are picked for the open files, and
/// for no more than those.
pub open spec fn fits(options: FlashOptions, step: FlashStep) -> bool {
    step matches FlashStep::PickTarget { files, answers, .. } ==> texts(files@) == open_files(
        options,
    ) && answers@.len() < files@.len()
}

impl FlashRun {
    /// What the command line says.
    pub closed spec fn opts(&self) -> FlashOptions {
        self.options
    }

    /// The step that is next.
    pub closed spec fn at(&self) -> FlashStep {
        self.step
    }

    #[verifier::type_invariant]
    closed spec fn step_fits(&self) -> bool {
        fits(self.options, self.step)
    }

    /// Begins a run.
    pub fn start(options: FlashOptions) -> (run: FlashRun)
        ensures
            run.opts() == options,
            flash_starts(options, run.at()),
    {
        let step = match release_choice(&options.release, options.non_interactive) {
            Ok(Choice::Given(name)) => FlashStep::FetchReleases(Some(name)),
            Ok(Choice::Asked) => FlashStep::FetchReleases(None),
            Ok(Choice::Absent) => bins_step(&options, None),
            Err(e) => FlashStep::Fail(Cause::Cli(e)),
        };
        FlashRun { options, step }
    }

    /// The step that is next.
    pub fn step(&self) -> (step: &FlashStep)
        ensures
            *step == self.at(),
    {
        &self.step
    }

    /// Goes on with what came of the step. A report on another step changes
    /// nothing. `supported` are the targets that a user may name.
    pub fn advance(self, event: FlashEvent, supported: &[String]) -> (run: FlashRun)
        ensures
            run.opts() == self.opts(),
            flash_follows(self.opts(), texts(supported@), self.at(), event, run.at()),
    {
        proof {
            use_type_invariant(&self);
        }
        let FlashRun { options, step } = self;
        let next = match (step, event) {
            (FlashStep::FetchReleases(Some(name)), FlashEvent::Releases(labels)) => {
                match check_release(name.as_str(), labels.as_slice()) {
                    Ok(_) => bins_step(&options, Some(name)),
                    Err(e) => FlashStep::Fail(Cause::Cli(e)),
                }
            },
            (FlashStep::FetchReleases(None), FlashEvent::Releases(labels)) =>
                FlashStep::PickRelease(labels),
            (FlashStep::PickRelease(_), FlashEvent::Picked(pick)) => match pick {
                Some(name) => bins_step(&options, Some(name)),
                None => FlashStep::Fail(Cause::Other("No release selected".to_owned())),
            },
            (FlashStep::PickTarget { release, files, answers }, FlashEvent::Picked(pick)) => {
                match pick {
                    Some(target) => {
                        let mut all = answers;
                        let ghost before = texts(all@);
                        let ghost t = target@;
                        all.push(target);
                        assert(texts(all@) =~= before.push(t));
                        assert(files@.len() == texts(files@).len());
                        if all.len() < files.len() {
                            FlashStep::PickTarget { release, files, answers: all }
                        } else {
                            assigned_step(&options, release, all.as_slice())
                        }
                    },
                    None => FlashStep::Fail(Cause::Other("No binary selected".to_owned())),
                }
            },
            (FlashStep::PickPlatform(plan), FlashEvent::Picked(pick)) => match pick {
                Some(platform) => FlashStep::Assemble { plan, platform },
                None => FlashStep::Fail(Cause::Other("No platform selected".to_owned())),
            },
            (FlashStep::QueryPlatform(plan), FlashEvent::Platform(platform)) =>
                FlashStep::Assemble { plan, platform },
            (FlashStep::Assemble { .. }, FlashEvent::Assembled(available)) => {
                match target_choice(&options.targets, options.non_interactive) {
                    Ok(Choice::Given(named)) => match check_targets(named.as_slice(), supported) {
                        Ok(_) => last_step(
                            filter_targets(available.as_slice(), named.as_slice()),
                        ),
                        Err(e) => FlashStep::Fail(Cause::Cli(e)),
                    },
                    Ok(Choice::Asked) => FlashStep::PickTargets(available),
                    Ok(Choice::Absent) => last_step(available),
                    Err(e) => FlashStep::Fail(Cause::Cli(e)),
                }
            },
            (FlashStep::PickTargets(available), FlashEvent::PickedTargets(pick)) => match pick {
                Some(list) => last_step(filter_targets(available.as_slice(), list.as_slice())),
                None => FlashStep::Fail(Cause::Other("No targets selected".to_owned())),
            },
            (step, _) => step,
        };
        FlashRun { options, step: next }
    }
}

// ---- Laws ------------------------------------------------------------------

/// Whether a step waits for an answer of the user, or leads to one that does.
pub open spec fn asks(step: FlashStep) -> bool {
    match step {
        FlashStep::FetchReleases(named) => named is None,
        FlashStep::PickRelease(_) => true,
        FlashStep::PickTarget { .. } => true,
        FlashStep::PickPlatform(_) => true,
        FlashStep::PickTargets(_) => true,
        _ => false,
    }
}

/// Whether a step is about letting the user pick a release.
pub open spec fn picks_release(step: FlashStep) -> bool {
    step is PickRelease || step == FlashStep::FetchReleases(None)
}

/// The release that a step is about to use.
pub open spec fn release_in_use(step: FlashStep) -> Option<Option<Seq<char>>> {
    match step {
        FlashStep::FetchReleases(Some(name)) => Some(Some(name@)),
        FlashStep::PickTarget { release, .. } => Some(opt_text(release)),
        FlashStep::PickPlatform(plan) => Some(opt_text(plan.release)),
        FlashStep::QueryPlatform(plan) => Some(opt_text(plan.release)),
        FlashStep::Assemble { plan, .. } => Some(opt_text(plan.release)),
        _ => None,
    }
}

/// What holds at every step of a run.
pub open spec fn keeps_the_rules(
    options: FlashOptions,
    supported: Seq<Seq<char>>,
    step: FlashStep,
) -> bool {
    // Nothing is asked of a user who is not there.
    &&& options.non_interactive ==> !asks(step)
    // A Crazyflie that does not run its firmware is not asked for its platform.
    &&& options.cold ==> !(step is QueryPlatform)
    // A Crazyflie that runs its firmware is.
    &&& !options.cold ==> !(step is PickPlatform)
    // A named release is the one in use, and without a release none is.
    &&& options.release matches Some(Some(name)) ==> !picks_release(step) && (release_in_use(
        step,
    ) matches Some(r) ==> r == Some(name@))
    &&& options.release is None ==> !picks_release(step) && (release_in_use(
        step,
    ) matches Some(r) ==> r is None)
    // Where targets are named, nothing else is flashed, and nothing at all unless
    // every one of them is supported.
    &&& options.targets matches Some(Some(arg)) ==> !(step is PickTargets) && (
    step matches FlashStep::Flash(list) ==> target_check(listed_targets(arg@), supported) is Ok
        && forall|i: int|
        0 <= i < texts(list@).len() ==> listed_targets(arg@).contains(#[trigger] texts(list@)[i])
            && supported.contains(texts(list@)[i]))
    // A run that flashes has something to flash.
    &&& step matches FlashStep::Flash(list) ==> list@.len() > 0
    // Targets are asked for only where the command line says so.
    &&& options.targets is None ==> !(step is PickTargets)
}

/// A run begins with the rules kept.
pub proof fn first_step_keeps_the_rules(
    options: FlashOptions,
    supported: Seq<Seq<char>>,
    step: FlashStep,
)
    requires
        flash_starts(options, step),
    ensures
        keeps_the_rules(options, supported, step),
{
}

proof fn lemma_kept(available: Seq<Seq<char>>, selected: Seq<Seq<char>>)
    ensures
        forall|i: int|
            0 <= i < kept_targets(available, selected).len() ==> available.contains(
                #[trigger] kept_targets(available, selected)[i],
            ) && selected.contains(kept_targets(available, selected)[i]),
{
    let kept = kept_targets(available, selected);
    assert forall|i: int| 0 <= i < kept.len() implies available.contains(#[trigger] kept[i])
        && selected.contains(kept[i]) by {
        assert(kept.contains(kept[i]));
        lemma_filter(available, |t: Seq<char>| selected.contains(t), kept[i]);
    }
}

/// Whatever is reported, the next step keeps the rules.
pub proof fn every_step_keeps_the_rules(
    options: FlashOptions,
    supported: Seq<Seq<char>>,
    step: FlashStep,
    event: FlashEvent,
    next: FlashStep,
)
    requires
        keeps_the_rules(options, supported, step),
        flash_follows(options, supported, step, event, next),
    ensures
        keeps_the_rules(options, supported, next),
{
    if let Some(Some(arg)) = options.targets {
        let named = listed_targets(arg@);
        named_targets_must_be_supported(named, supported);
        if let FlashEvent::Assembled(available) = event {
            let kept = kept_targets(texts(available@), named);
            lemma_kept(texts(available@), named);
            assert forall|i: int| 0 <= i < kept.len() && target_check(named, supported) is Ok
                implies supported.contains(#[trigger] kept[i]) by {
                let j = choose|j: int| 0 <= j < named.len() && named[j] == kept[i];
                assert(supported.contains(named[j]));
            }
        }
    }
}

/// Only what was put together is flashed, and of that only what was selected. A
/// selection for which there is no firmware ends the run without a failure.
pub proof fn only_assembled_targets_are_flashed(
    options: FlashOptions,
    supported: Seq<Seq<char>>,
    plan: FlashPlan,
    platform: String,
    available: Vec<String>,
    next: FlashStep,
)
    requires
        flash_follows(
            options,
            supported,
            FlashStep::Assemble { plan, platform },
            FlashEvent::Assembled(available),
            next,
        ),
    ensures
        next matches FlashStep::Flash(list) ==> forall|i: int|
            0 <= i < texts(list@).len() ==> texts(available@).contains(#[trigger] texts(list@)[i]),
        next matches FlashStep::PickTargets(list) ==> list == available,
        options.targets matches Some(Some(arg)) && target_check(listed_targets(arg@), supported)
            is Ok && (forall|i: int|
            0 <= i < available@.len() ==> !listed_targets(arg@).contains(
                #[trigger] texts(available@)[i],
            )) ==> next is NothingToFlash,
{
    if let Some(Some(arg)) = options.targets {
        let kept = kept_targets(texts(available@), listed_targets(arg@));
        lemma_kept(texts(available@), listed_targets(arg@));
        if kept.len() > 0 {
            assert(texts(available@).contains(kept[0]));
        }
    }
}

/// Of the targets that were offered, those that the user picked are flashed.
pub proof fn picked_targets_are_flashed(
    options: FlashOptions,
    supported: Seq<Seq<char>>,
    available: Vec<String>,
    picked: Vec<String>,
    next: FlashStep,
)
    requires
        flash_follows(
            options,
            supported,
            FlashStep::PickTargets(available),
            FlashEvent::PickedTargets(Some(picked)),
            next,
        ),
    ensures
        next is Flash || next is NothingToFlash,
        next matches FlashStep::Flash(list) ==> forall|i: int|
            0 <= i < texts(list@).len() ==> texts(available@).contains(#[trigger] texts(list@)[i])
                && texts(picked@).contains(texts(list@)[i]),
{
    lemma_kept(texts(available@), texts(picked@));
}

/// Nothing is flashed before the firmware was put together: the last step is
/// reached only from there or from the question which of its targets are meant.
pub proof fn flashing_comes_last(
    options: FlashOptions,
    supported: Seq<Seq<char>>,
    step: FlashStep,
    event: FlashEvent,
    next: FlashStep,
)
    requires
        flash_follows(options, supported, step, event, next),
        next is Flash || next is NothingToFlash,
    ensures
        step == next || step is Assemble || step is PickTargets,
{
}

/// A failure is final, and so is the last step.
pub proof fn ended_runs_stay_ended(
    options: FlashOptions,
    supported: Seq<Seq<char>>,
    step: FlashStep,
    event: FlashEvent,
    next: FlashStep,
)
    requires
        flash_follows(options, supported, step, event, next),
        step is Fail || step is Flash || step is NothingToFlash,
    ensures
        next == step,
{
}

/// A named release is used exactly where it is one of those that there are;
/// otherwise the run fails as for a missing resource.
pub proof fn named_releases_are_looked_up(
    options: FlashOptions,
    supported: Seq<Seq<char>>,
    name: String,
    labels: Vec<String>,
    next: FlashStep,
)
    requires
        flash_follows(
            options,
            supported,
            FlashStep::FetchReleases(Some(name)),
            FlashEvent::Releases(labels),
            next,
        ),
    ensures
        !texts(labels@).contains(name@) ==> (next matches FlashStep::Fail(
            Cause::Cli(CliError::NotFound(text)),
        ) && stands_in(name@, text@)),
        texts(labels@).contains(name@) ==> (release_in_use(next) matches Some(r) ==> r == Some(
            name@,
        )),
        texts(labels@).contains(name@) ==> !(next matches FlashStep::Fail(
            Cause::Cli(CliError::NotFound(_)),
        )),
{
    if !texts(labels@).contains(name@) {
        assert("release '"@ + name@ + "'"@ == "release '"@ + name@ + "'"@);
    }
}

/// Where no question is open, the firmware of a cold Crazyflie is put together
/// for the platform that was named, and for no other.
pub proof fn cold_firmware_is_for_the_named_platform(
    options: FlashOptions,
    name: String,
    release: Option<Seq<char>>,
    answers: Seq<Seq<char>>,
    next: FlashStep,
)
    requires
        options.cold,
        options.platform == Some(name),
        platform_follows(options, release, answers, next),
    ensures
        lower(name@) == "cf21"@ ==> next is Assemble && next->platform@ == "Crazyflie 2.1"@,
        lower(name@) == "cf21bl"@ ==> next is Assemble && next->platform@
            == "Crazyflie 2.1 Brushless"@,
        lower(name@) == "bolt11"@ ==> next is Assemble && next->platform@ == "Crazyflie Bolt 1.1"@,
        lower(name@) == "flapper"@ ==> next is Assemble && next->platform@ == "Flapper (Bolt 1.1)"@,
        lower(name@) == "tag"@ ==> next is Assemble && next->platform@ == "Roadrunner 1.0"@,
        next is Assemble || next is Fail,
{
    short_names_mean_their_platforms(name@);
}

/// What a Crazyflie answers, or what the user picks, is the platform that the
/// firmware is put together for, with the plan unchanged.
pub proof fn platform_answers_are_used(
    options: FlashOptions,
    supported: Seq<Seq<char>>,
    plan: FlashPlan,
    platform: String,
    queried: FlashStep,
    picked: FlashStep,
)
    requires
        flash_follows(
            options,
            supported,
            FlashStep::QueryPlatform(plan),
            FlashEvent::Platform(platform),
            queried,
        ),
        flash_follows(
            options,
            supported,
            FlashStep::PickPlatform(plan),
            FlashEvent::Picked(Some(platform)),
            picked,
        ),
    ensures
        queried == (FlashStep::Assemble { plan, platform }),
        picked == (FlashStep::Assemble { plan, platform }),
{
}

/// The plan holds the release that is in use and the files at their targets.
pub proof fn plans_hold_release_and_files(
    options: FlashOptions,
    release: Option<Seq<char>>,
    answers: Seq<Seq<char>>,
    next: FlashStep,
    plan: FlashPlan,
)
    requires
        platform_follows(options, release, answers, next),
        match next {
            FlashStep::QueryPlatform(p) => p == plan,
            FlashStep::PickPlatform(p) => p == plan,
            FlashStep::Assemble { plan: p, .. } => p == plan,
            _ => false,
        },
    ensures
        opt_text(plan.release) == release,
        options.bin is None ==> plan.bins@.dom() == Set::<Seq<char>>::empty(),
        options.bin matches Some(bin) ==> plan.bins@.map_values(|s: String| s@) == assignment(
            bin.listed(),
            explicit_target(options.bin, options.targets),
            answers,
        ),
        options.cold <==> !(next is QueryPlatform),
{
    if options.bin is None {
        let bins = plan.bins@.map_values(|s: String| s@);
        assert(bins.dom() =~= plan.bins@.dom());
        assert(plan.bins@.dom() =~= Set::<Seq<char>>::empty());
    }
}

/// Without a choice of targets everything that was put together is flashed.
pub proof fn all_firmware_is_flashed_by_default(
    options: FlashOptions,
    supported: Seq<Seq<char>>,
    available: Vec<String>,
    next: FlashStep,
)
    requires
        options.targets is None,
        targets_follow(options, available, supported, next),
    ensures
        available@.len() > 0 ==> (next matches FlashStep::Flash(list) && texts(list@) == texts(
            available@,
        )),
        available@.len() == 0 ==> next is NothingToFlash,
{
    assert(texts(available@).len() == available@.len());
}

/// Where targets are named and supported, every one of them for which there is
/// firmware is flashed.
pub proof fn named_targets_with_firmware_are_flashed(
    options: FlashOptions,
    supported: Seq<Seq<char>>,
    arg: String,
    available: Vec<String>,
    next: FlashStep,
    target: Seq<char>,
)
    requires
        options.targets == Some(Some(arg)),
        targets_follow(options, available, supported, next),
        listed_targets(arg@).contains(target),
        texts(available@).contains(target),
        forall|i: int|
            0 <= i < listed_targets(arg@).len() ==> supported.contains(
                #[trigger] listed_targets(arg@)[i],
            ),
    ensures
        next matches FlashStep::Flash(list) && texts(list@).contains(target),
{
    named_targets_must_be_supported(listed_targets(arg@), supported);
    selected_targets_are_kept(
        texts(available@),
        Seq::empty(),
        target,
        listed_targets(arg@),
    );
}

/// A run begins with the releases where one was named or is to be picked by a
/// user who is there, and with the binaries where none is wanted.
pub proof fn runs_begin_with_the_release(options: FlashOptions, step: FlashStep)
    requires
        flash_starts(options, step),
    ensures
        options.release matches Some(Some(name)) ==> (step matches FlashStep::FetchReleases(Some(n))
            && n@ == name@),
        options.release == Some(None::<String>) && !options.non_interactive ==> step
            == FlashStep::FetchReleases(None),
        options.release == Some(None::<String>) && options.non_interactive ==> (
        step matches FlashStep::Fail(Cause::Cli(e)) && e is MissingArg),
        options.release is None ==> !(step is FetchReleases) && !(step is PickRelease),
{
}

/// The user picks among all releases that there are, and the pick is used.
pub proof fn picked_releases_are_used(
    options: FlashOptions,
    supported: Seq<Seq<char>>,
    labels: Vec<String>,
    pick: String,
    asked: FlashStep,
    next: FlashStep,
)
    requires
        flash_follows(
            options,
            supported,
            FlashStep::FetchReleases(None),
            FlashEvent::Releases(labels),
            asked,
        ),
        flash_follows(options, supported, asked, FlashEvent::Picked(Some(pick)), next),
    ensures
        asked == FlashStep::PickRelease(labels),
        release_in_use(next) matches Some(r) ==> r == Some(pick@),
        !(next is Flash) && !(next is NothingToFlash) && !(next is PickTargets),
{
}

/// Once the release is settled, the user is asked about the files without a
/// target, all of them and in their order, unless the lone target of the target
/// list is meant for them; where nobody can be asked, the run fails.
pub proof fn open_files_are_asked_about(
    options: FlashOptions,
    bin: TextMap<Option<String>>,
    release: Option<Seq<char>>,
    next: FlashStep,
)
    requires
        options.bin == Some(bin),
        bins_follow(options, release, next),
    ensures
        explicit_target(options.bin, options.targets) is Some ==> !(next is PickTarget),
        bare_files(bin.listed()).len() == 0 ==> !(next is PickTarget),
        explicit_target(options.bin, options.targets) is None && bare_files(bin.listed()).len() > 0
            && !options.non_interactive ==> next is PickTarget && texts(next->files@) == bare_files(
            bin.listed(),
        ) && next->answers@.len() == 0 && opt_text(next->PickTarget_release) == release,
        explicit_target(options.bin, options.targets) is None && bare_files(bin.listed()).len() > 0
            && options.non_interactive ==> (next matches FlashStep::Fail(Cause::Cli(e))
            && e is MissingArg),
{
    if next is PickTarget {
        assert(texts(next->answers@).len() == next->answers@.len());
    }
}

/// The answers are collected one by one, in the order of the files, until every
/// file has one.
pub proof fn answers_are_collected_in_order(
    options: FlashOptions,
    supported: Seq<Seq<char>>,
    release: Option<String>,
    files: Vec<String>,
    answers: Vec<String>,
    target: String,
    next: FlashStep,
)
    requires
        flash_follows(
            options,
            supported,
            FlashStep::PickTarget { release, files, answers },
            FlashEvent::Picked(Some(target)),
            next,
        ),
    ensures
        answers@.len() + 1 < files@.len() ==> next is PickTarget && next->files == files
            && next->PickTarget_release == release && texts(next->answers@) == texts(answers@).push(
            target@,
        ),
        answers@.len() + 1 >= files@.len() ==> platform_follows(
            options,
            opt_text(release),
            texts(answers@).push(target@),
            next,
        ),
{
    assert(texts(answers@).len() == answers@.len());
}

/// Where the targets are to be picked, a user who is there picks among all that
/// there is firmware for, and a run without a user fails.
pub proof fn targets_are_picked_among_the_firmware(
    options: FlashOptions,
    supported: Seq<Seq<char>>,
    available: Vec<String>,
    next: FlashStep,
)
    requires
        options.targets == Some(None::<String>),
        targets_follow(options, available, supported, next),
    ensures
        !options.non_interactive ==> next == FlashStep::PickTargets(available),
        options.non_interactive ==> (next matches FlashStep::Fail(Cause::Cli(e))
            && e is MissingArg),
{
}

}
