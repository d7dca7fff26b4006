//! What is flashed, and where to: firmware targets, binaries, releases and
//! platforms.
use vstd::prelude::*;

use crate::cli::{missing, require_arg};
use crate::console::{lemma_parts_stand_in_joined, stands_in};
use crate::error::{checked, Cause, CauseView, CliError, ErrorView};
use crate::text::{
    capitals_become_small_letters, concat3, contains_text, join, joined, lemma_filter,
    lemma_filter_appends, lemma_filter_one, lemma_filter_single, lemma_filter_unique, lower,
    lower_is, opt_text, split, split_on, splitting_undoes_joining, texts, trim, trimmed,
};
use crate::text_map::{distinct_keys, has_key, lemma_entry, map_of, TextMap};

verus! {

// ---- Targets ---------------------------------------------------------------

/// The targets that an argument lists: separated by commas, without the white
/// space around them.
pub open spec fn listed_targets(arg: Seq<char>) -> Seq<Seq<char>> {
    split(arg, ',').map_values(|t: Seq<char>| trimmed(t))
}

/// The targets that an argument lists.
pub fn requested_targets(arg: &str) -> (r: Vec<String>)
    ensures
        texts(r@) == listed_targets(arg@),
{
    let parts = split_on(arg, ',');
    let mut out: Vec<String> = Vec::new();
    let mut i: usize = 0;
    while i < parts.len()
        invariant
            i <= parts.len(),
            texts(parts@) == split(arg@, ','),
            out.len() == i,
            forall|j: int| 0 <= j < i ==> #[trigger] out@[j]@ == listed_targets(arg@)[j],
        decreases parts.len() - i,
    {
        assert(texts(parts@)[i as int] == parts@[i as int]@);
        out.push(trim(parts[i].as_str()));
        i += 1;
    }
    assert(texts(out@) =~= listed_targets(arg@));
    out
}

/// The targets that an argument lists, empty ones left out.
pub open spec fn named_targets(arg: Seq<char>) -> Seq<Seq<char>> {
    listed_targets(arg).filter(|t: Seq<char>| t.len() > 0)
}

/// The one target that an argument names, if it names exactly one.
pub open spec fn lone_target(arg: Seq<char>) -> Option<Seq<char>> {
    if named_targets(arg).len() == 1 {
        Some(named_targets(arg)[0])
    } else {
        None
    }
}

fn single_target(arg: &str) -> (r: Option<String>)
    ensures
        opt_text(r) == lone_target(arg@),
{
    let targets = requested_targets(arg);
    let ghost all = listed_targets(arg@);
    let ghost pred = |t: Seq<char>| t.len() > 0;
    let mut found: Option<String> = None;
    let mut several = false;
    let mut i: usize = 0;
    assert(all.take(0).filter(pred) =~= Seq::empty()) by {
        reveal(Seq::filter);
    }
    while i < targets.len()
        invariant
            i <= targets.len(),
            texts(targets@) == all,
            pred == |t: Seq<char>| t.len() > 0,
            found is None <==> all.take(i as int).filter(pred).len() == 0,
            several <==> all.take(i as int).filter(pred).len() > 1,
            found matches Some(t) ==> t@ == all.take(i as int).filter(pred)[0],
        decreases targets.len() - i,
    {
        proof {
            reveal(Seq::filter);
            assert(all.take(i + 1).drop_last() =~= all.take(i as int));
            assert(all[i as int] == targets@[i as int]@);
        }
        if !targets[i].as_str().is_empty() {
            if found.is_some() {
                several = true;
            } else {
                found = Some(targets[i].clone());
            }
        }
        i += 1;
    }
    assert(all.take(i as int) =~= all);
    if several {
        None
    } else {
        found
    }
}

/// Whether a map of binaries holds exactly one file, without a target of its own.
pub open spec fn is_lone_bare_bin(bin: Map<Seq<char>, Option<String>>) -> bool {
    exists|file: Seq<char>| bin == #[trigger] Map::<Seq<char>, Option<String>>::empty().insert(file, None)
}

/// The target of a single binary that was given without one: the only target
/// that the target list names.
pub open spec fn explicit_target(
    bin: Option<TextMap<Option<String>>>,
    targets: Option<Option<String>>,
) -> Option<Seq<char>> {
    match (bin, targets) {
        (Some(bin), Some(Some(arg))) => if is_lone_bare_bin(bin@) {
            lone_target(arg@)
        } else {
            None
        },
        _ => None,
    }
}

/// The target of a single binary that was given without one: the only target
/// that the target list names.
pub fn single_explicit_target_for_bare_bin(
    bin: &Option<TextMap<Option<String>>>,
    targets: &Option<Option<String>>,
) -> (r: Option<String>)
    ensures
        opt_text(r) == explicit_target(*bin, *targets),
{
    let bin = match bin {
        Some(bin) => bin,
        None => return None,
    };
    let ghost entries = bin.listed();
    if bin.len() != 1 {
        proof {
            if is_lone_bare_bin(bin@) {
                let file = choose|file: Seq<char>|
                    bin@ == #[trigger] Map::<Seq<char>, Option<String>>::empty().insert(file, None);
                assert(bin@.dom().contains(file));
                let i = choose|i: int| 0 <= i < entries.len() && (#[trigger] entries[i]).0 == file;
                let j = if i == 0 {
                    1int
                } else {
                    0int
                };
                lemma_entry(entries, j);
                assert(entries[i].0 == entries[j].0);
                assert(false);
            }
        }
        return None;
    }
    proof {
        lemma_entry(entries, 0);
    }
    if bin.value_at(0).is_some() {
        proof {
            if is_lone_bare_bin(bin@) {
                assert(bin@[entries[0].0] is None);
            }
        }
        return None;
    }
    assert(is_lone_bare_bin(bin@)) by {
        let file = entries[0].0;
        assert(bin@ =~= Map::<Seq<char>, Option<String>>::empty().insert(file, None)) by {
            assert forall|k: Seq<char>| has_key(entries, k) <==> k == file by {
                assert(entries[0].0 == file);
            }
        }
    }
    match targets {
        Some(Some(arg)) => single_target(arg.as_str()),
        _ => None,
    }
}

/// The selected targets that are not supported.
pub open spec fn unsupported(selected: Seq<Seq<char>>, supported: Seq<Seq<char>>) -> Seq<Seq<char>> {
    selected.filter(|t: Seq<char>| !supported.contains(t))
}

/// The selected targets that are not among the supported ones, in order.
pub fn unsupported_flash_targets(selected: &[String], supported: &[String]) -> (r: Vec<String>)
    ensures
        texts(r@) == unsupported(texts(selected@), texts(supported@)),
{
    let ghost all = texts(selected@);
    let ghost pred = |t: Seq<char>| !texts(supported@).contains(t);
    let mut out: Vec<String> = Vec::new();
    let mut i: usize = 0;
    assert(texts(out@) =~= all.take(0).filter(pred)) by {
        reveal(Seq::filter);
    }
    while i < selected.len()
        invariant
            i <= selected.len(),
            all == texts(selected@),
            pred == |t: Seq<char>| !texts(supported@).contains(t),
            texts(out@) == all.take(i as int).filter(pred),
        decreases selected.len() - i,
    {
        let ghost before = texts(out@);
        proof {
            reveal(Seq::filter);
            assert(all.take(i + 1).drop_last() =~= all.take(i as int));
            assert(all[i as int] == selected@[i as int]@);
        }
        if !contains_text(supported, selected[i].as_str()) {
            out.push(selected[i].clone());
            assert(texts(out@) =~= before.push(all[i as int]));
        }
        i += 1;
    }
    assert(all.take(i as int) =~= all);
    out
}

/// What is said of targets that are not all supported.
pub open spec fn target_check(selected: Seq<Seq<char>>, supported: Seq<Seq<char>>) -> Result<
    (),
    ErrorView,
> {
    let unknown = unsupported(selected, supported);
    if unknown.len() == 0 {
        Ok(())
    } else {
        Err(
            ErrorView::InvalidValue(
                "unknown flash target(s): "@ + joined(unknown, ", "@) + ". Valid targets: "@
                    + joined(supported, ", "@),
            ),
        )
    }
}

/// Fails unless every target that the user named is supported.
pub fn check_targets(selected: &[String], supported: &[String]) -> (r: Result<(), CliError>)
    ensures
        checked(r) == target_check(texts(selected@), texts(supported@)),
{
    let unknown = unsupported_flash_targets(selected, supported);
    assert(texts(unknown@).len() == unknown@.len());
    if unknown.len() == 0 {
        return Ok(());
    }
    let text = "unknown flash target(s): ".to_owned().concat(
        join(unknown.as_slice(), ", ").as_str(),
    ).concat(". Valid targets: ").concat(join(supported, ", ").as_str());
    Err(CliError::InvalidValue(text))
}

/// The targets with firmware that were selected.
pub open spec fn kept_targets(available: Seq<Seq<char>>, selected: Seq<Seq<char>>) -> Seq<
    Seq<char>,
> {
    available.filter(|t: Seq<char>| selected.contains(t))
}

/// Keeps the targets with firmware that were selected, in order.
pub fn filter_targets(available: &[String], selected: &[String]) -> (r: Vec<String>)
    ensures
        texts(r@) == kept_targets(texts(available@), texts(selected@)),
{
    let ghost all = texts(available@);
    let ghost pred = |t: Seq<char>| texts(selected@).contains(t);
    let mut out: Vec<String> = Vec::new();
    let mut i: usize = 0;
    assert(texts(out@) =~= all.take(0).filter(pred)) by {
        reveal(Seq::filter);
    }
    while i < available.len()
        invariant
            i <= available.len(),
            all == texts(available@),
            pred == |t: Seq<char>| texts(selected@).contains(t),
            texts(out@) == all.take(i as int).filter(pred),
        decreases available.len() - i,
    {
        let ghost before = texts(out@);
        proof {
            reveal(Seq::filter);
            assert(all.take(i + 1).drop_last() =~= all.take(i as int));
            assert(all[i as int] == available@[i as int]@);
        }
        if contains_text(selected, available[i].as_str()) {
            out.push(available[i].clone());
            assert(texts(out@) =~= before.push(all[i as int]));
        }
        i += 1;
    }
    assert(all.take(i as int) =~= all);
    out
}

// ---- Choices that may be left to the user ----------------------------------

/// A value that the user gave, is asked for, or did not mention.
#[derive(Debug, Clone, PartialEq, Eq)]
pub enum Choice<T> {
    Given(T),
    Asked,
    Absent,
}

/// The targets to flash: those that were named, those that the user picks, or
/// all that there are.
pub fn target_choice(targets: &Option<Option<String>>, non_interactive: bool) -> (r: Result<
    Choice<Vec<String>>,
    CliError,
>)
    ensures
        match *targets {
            Some(Some(arg)) => r matches Ok(Choice::Given(list)) && texts(list@) == listed_targets(
                arg@,
            ),
            Some(None) => if non_interactive {
                r matches Err(e) && e@ == missing("--targets <list>"@)
            } else {
                r matches Ok(Choice::Asked)
            },
            None => r matches Ok(Choice::Absent),
        },
{
    match targets {
        Some(Some(arg)) => Ok(Choice::Given(requested_targets(arg.as_str()))),
        Some(None) => match require_arg(non_interactive, "--targets <list>") {
            Ok(_) => Ok(Choice::Asked),
            Err(e) => Err(e),
        },
        None => Ok(Choice::Absent),
    }
}

/// The release to flash: the named one, one that the user picks, or none.
pub fn release_choice(release: &Option<Option<String>>, non_interactive: bool) -> (r: Result<
    Choice<String>,
    CliError,
>)
    ensures
        match *release {
            Some(Some(name)) => r matches Ok(Choice::Given(given)) && given@ == name@,
            Some(None) => if non_interactive {
                r matches Err(e) && e@ == missing("--release <NAME>"@)
            } else {
                r matches Ok(Choice::Asked)
            },
            None => r matches Ok(Choice::Absent),
        },
{
    match release {
        Some(Some(name)) => Ok(Choice::Given(name.clone())),
        Some(None) => match require_arg(non_interactive, "--release <NAME>") {
            Ok(_) => Ok(Choice::Asked),
            Err(e) => Err(e),
        },
        None => Ok(Choice::Absent),
    }
}

/// Fails unless the named release is one of the known ones.
pub fn check_release(name: &str, labels: &[String]) -> (r: Result<(), CliError>)
    ensures
        checked(r) == (if texts(labels@).contains(name@) {
            Ok(())
        } else {
            Err(ErrorView::NotFound("release '"@ + name@ + "'"@))
        }),
{
    if contains_text(labels, name) {
        Ok(())
    } else {
        Err(CliError::NotFound(concat3("release '", name, "'")))
    }
}

// ---- Binaries --------------------------------------------------------------

/// The files without a target, in order.
pub open spec fn bare_files(entries: Seq<(Seq<char>, Option<String>)>) -> Seq<Seq<char>>
    decreases entries.len(),
{
    if entries.len() == 0 {
        Seq::empty()
    } else {
        let before = bare_files(entries.drop_last());
        if entries.last().1 is None {
            before.push(entries.last().0)
        } else {
            before
        }
    }
}

/// Which file goes to which target: a file with a target of its own goes there,
/// one without to `lone` if there is such a target, else to the answer that
/// belongs to it. Of two files for one target the later one stays.
pub open spec fn assignment(
    entries: Seq<(Seq<char>, Option<String>)>,
    lone: Option<Seq<char>>,
    answers: Seq<Seq<char>>,
) -> Map<Seq<char>, Seq<char>>
    decreases entries.len(),
{
    if entries.len() == 0 {
        Map::empty()
    } else {
        let before = assignment(entries.drop_last(), lone, answers);
        match entries.last().1 {
            Some(file) => before.insert(entries.last().0, file@),
            None => match lone {
                Some(target) => before.insert(target, entries.last().0),
                None => before.insert(
                    answers[bare_files(entries.drop_last()).len() as int],
                    entries.last().0,
                ),
            },
        }
    }
}

/// The files for which the user has to pick a target, in order. None are left
/// where a lone target is known.
pub fn files_to_ask(bin: &TextMap<Option<String>>, lone: &Option<String>, non_interactive: bool) -> (r: Result<
    Vec<String>,
    CliError,
>)
    ensures
        ({
            let open = if lone is Some {
                Seq::<Seq<char>>::empty()
            } else {
                bare_files(bin.listed())
            };
            if open.len() > 0 && non_interactive {
                r matches Err(e) && e@ == missing(
                    "--bin target=file (or: --targets <TARGET> for a single bare --bin)"@,
                )
            } else {
                r matches Ok(files) && texts(files@) == open
            }
        }),
{
    let mut files: Vec<String> = Vec::new();
    assert(texts(files@) =~= Seq::empty());
    if lone.is_some() {
        return Ok(files);
    }
    let n = bin.len();
    let ghost entries = bin.listed();
    let mut i: usize = 0;
    assert(bare_files(entries.take(0)) =~= Seq::empty());
    while i < n
        invariant
            i <= n,
            n == entries.len(),
            entries == bin.listed(),
            texts(files@) == bare_files(entries.take(i as int)),
        decreases n - i,
    {
        let ghost before = texts(files@);
        assert(entries.take(i + 1).drop_last() =~= entries.take(i as int));
        if bin.value_at(i).is_none() {
            files.push(bin.key_at(i).clone());
            assert(texts(files@) =~= before.push(entries[i as int].0));
        }
        i += 1;
    }
    assert(entries.take(i as int) =~= entries);
    assert(texts(files@).len() == files@.len());
    if files.len() > 0 {
        match require_arg(
            non_interactive,
            "--bin target=file (or: --targets <TARGET> for a single bare --bin)",
        ) {
            Ok(_) => Ok(files),
            Err(e) => Err(e),
        }
    } else {
        Ok(files)
    }
}

/// Assigns each file to its target, with the user's answers for the files that
/// `files_to_ask` listed.
pub fn assign_bins(bin: &TextMap<Option<String>>, lone: &Option<String>, answers: &[String]) -> (r: TextMap<
    String,
>)
    requires
        lone is None ==> answers@.len() == bare_files(bin.listed()).len(),
    ensures
        r@.map_values(|s: String| s@) == assignment(
            bin.listed(),
            opt_text(*lone),
            texts(answers@),
        ),
{
    let n = bin.len();
    let ghost entries = bin.listed();
    let mut out: TextMap<String> = TextMap::new();
    let mut asked: usize = 0;
    let mut i: usize = 0;
    assert(out@.map_values(|s: String| s@) =~= Map::empty());
    proof {
        lemma_bare_files_grow(entries, 0);
    }
    while i < n
        invariant
            i <= n,
            n == entries.len(),
            entries == bin.listed(),
            lone is None ==> answers@.len() == bare_files(entries).len(),
            asked <= i,
            asked == bare_files(entries.take(i as int)).len(),
            out@.map_values(|s: String| s@) == assignment(
                entries.take(i as int),
                opt_text(*lone),
                texts(answers@),
            ),
        decreases n - i,
    {
        let ghost before = out@;
        assert(entries.take(i + 1).drop_last() =~= entries.take(i as int));
        proof {
            lemma_bare_files_grow(entries, i + 1);
        }
        match bin.value_at(i) {
            Some(file) => {
                let value = file.clone();
                let ghost kept = value@;
                out.insert(bin.key_at(i).clone(), value);
                assert(out@.map_values(|s: String| s@) =~= before.map_values(
                    |s: String| s@,
                ).insert(entries[i as int].0, kept));
            },
            None => {
                let value = bin.key_at(i).clone();
                let target = match lone {
                    Some(target) => target.clone(),
                    None => answers[asked].clone(),
                };
                let ghost t = target@;
                out.insert(target, value);
                assert(out@.map_values(|s: String| s@) =~= before.map_values(
                    |s: String| s@,
                ).insert(t, entries[i as int].0));
                asked += 1;
            },
        }
        i += 1;
    }
    assert(entries.take(i as int) =~= entries);
    out
}

proof fn lemma_bare_files_grow(entries: Seq<(Seq<char>, Option<String>)>, i: int)
    requires
        0 <= i <= entries.len(),
    ensures
        bare_files(entries.take(i)).len() <= bare_files(entries).len(),
    decreases entries.len() - i,
{
    if i == entries.len() {
        assert(entries.take(i) =~= entries);
    } else {
        lemma_bare_files_grow(entries, i + 1);
        assert(entries.take(i + 1).drop_last() =~= entries.take(i));
    }
}

// ---- Platforms -------------------------------------------------------------

/// The platform that a short name means, in upper or lower case. ASCII letters
/// are all that counts: no other character has a letter of these names as its
/// lower case form.
pub open spec fn platform_named(name: Seq<char>) -> Option<Seq<char>> {
    if lower(name) == "cf21"@ {
        Some("Crazyflie 2.1"@)
    } else if lower(name) == "cf21bl"@ {
        Some("Crazyflie 2.1 Brushless"@)
    } else if lower(name) == "bolt11"@ {
        Some("Crazyflie Bolt 1.1"@)
    } else if lower(name) == "flapper"@ {
        Some("Flapper (Bolt 1.1)"@)
    } else if lower(name) == "tag"@ {
        Some("Roadrunner 1.0"@)
    } else {
        None
    }
}

/// The platforms from which a user may pick.
pub open spec fn platforms() -> Seq<Seq<char>> {
    seq![
        "Crazyflie 2.1"@,
        "Crazyflie 2.1 Brushless"@,
        "Crazyflie Bolt 1.1"@,
        "Flapper (Bolt 1.1)"@,
        "Roadrunner 1.0"@,
    ]
}

/// The platforms from which a user may pick.
pub fn platform_names() -> (r: Vec<String>)
    ensures
        texts(r@) == platforms(),
{
    let mut list: Vec<String> = Vec::new();
    list.push("Crazyflie 2.1".to_owned());
    list.push("Crazyflie 2.1 Brushless".to_owned());
    list.push("Crazyflie Bolt 1.1".to_owned());
    list.push("Flapper (Bolt 1.1)".to_owned());
    list.push("Roadrunner 1.0".to_owned());
    assert(texts(list@) =~= platforms());
    list
}

/// The failure for a short name that means no platform.
pub open spec fn unknown_platform(name: Seq<char>) -> CauseView {
    CauseView::Other(
        "Unknown platform '"@ + name + "'. Valid options: cf21, cf21bl, bolt11, flapper, tag"@,
    )
}

/// The platform that a short name means.
pub fn resolve_platform(name: &str) -> (r: Result<String, Cause>)
    ensures
        match platform_named(name@) {
            Some(platform) => r matches Ok(p) && p@ == platform,
            None => r matches Err(e) && e@ == unknown_platform(name@),
        },
{
    if lower_is(name, "cf21") {
        Ok("Crazyflie 2.1".to_owned())
    } else if lower_is(name, "cf21bl") {
        Ok("Crazyflie 2.1 Brushless".to_owned())
    } else if lower_is(name, "bolt11") {
        Ok("Crazyflie Bolt 1.1".to_owned())
    } else if lower_is(name, "flapper") {
        Ok("Flapper (Bolt 1.1)".to_owned())
    } else if lower_is(name, "tag") {
        Ok("Roadrunner 1.0".to_owned())
    } else {
        Err(
            Cause::Other(
                concat3(
                    "Unknown platform '",
                    name,
                    "'. Valid options: cf21, cf21bl, bolt11, flapper, tag",
                ),
            ),
        )
    }
}

/// How the platform is found out.
#[derive(Debug, Clone, PartialEq, Eq)]
pub enum PlatformChoice {
    /// It was named.
    Known(String),
    /// The user picks one of the platforms that are offered.
    Asked,
    /// The Crazyflie is connected and asked.
    Queried,
}

/// How the platform is found out. A Crazyflie that is started cold does not run
/// its firmware and cannot be asked.
pub fn platform_choice(cold: bool, name: &Option<String>, non_interactive: bool) -> (r: Result<
    PlatformChoice,
    Cause,
>)
    ensures
        ({
            if !cold {
                r matches Ok(PlatformChoice::Queried)
            } else {
                match *name {
                    Some(name) => match platform_named(name@) {
                        Some(platform) => r matches Ok(PlatformChoice::Known(p)) && p@ == platform,
                        None => r matches Err(e) && e@ == unknown_platform(name@),
                    },
                    None => if non_interactive {
                        r matches Err(e) && e@ == CauseView::Cli(missing("--platform"@))
                    } else {
                        r matches Ok(PlatformChoice::Asked)
                    },
                }
            }
        }),
{
    if !cold {
        return Ok(PlatformChoice::Queried);
    }
    match name {
        Some(name) => match resolve_platform(name.as_str()) {
            Ok(platform) => Ok(PlatformChoice::Known(platform)),
            Err(e) => Err(e),
        },
        None => match require_arg(non_interactive, "--platform") {
            Ok(_) => Ok(PlatformChoice::Asked),
            Err(e) => Err(Cause::Cli(e)),
        },
    }
}

// ---- Laws ------------------------------------------------------------------

/// Exactly the selected targets that are not supported are reported.
pub proof fn exactly_the_unknown_targets_are_reported(
    selected: Seq<Seq<char>>,
    supported: Seq<Seq<char>>,
    target: Seq<char>,
)
    ensures
        unsupported(selected, supported).contains(target) <==> selected.contains(target)
            && !supported.contains(target),
{
    lemma_filter(selected, |t: Seq<char>| !supported.contains(t), target);
}

/// A single file without a target goes to the target that was named for it, and
/// nothing else is flashed.
pub proof fn lone_bare_bin_goes_to_its_target(
    entries: Seq<(Seq<char>, Option<String>)>,
    file: Seq<char>,
    target: Seq<char>,
    answers: Seq<Seq<char>>,
)
    requires
        distinct_keys(entries),
        map_of(entries) == Map::<Seq<char>, Option<String>>::empty().insert(file, None),
    ensures
        assignment(entries, Some(target), answers) == Map::<Seq<char>, Seq<char>>::empty().insert(
            target,
            file,
        ),
{
    assert(map_of(entries).dom().contains(file));
    let i = choose|i: int| 0 <= i < entries.len() && (#[trigger] entries[i]).0 == file;
    lemma_entry(entries, i);
    if entries.len() > 1 {
        let j = if i == 0 {
            1int
        } else {
            0int
        };
        lemma_entry(entries, j);
        assert(entries[i].0 == entries[j].0);
    }
    assert(entries.drop_last() =~= Seq::empty());
    reveal_with_fuel(assignment, 2);
}

/// Files with targets of their own go there, whatever the target list says.
pub proof fn keyed_bins_keep_their_targets(
    entries: Seq<(Seq<char>, Option<String>)>,
    lone: Option<Seq<char>>,
    answers: Seq<Seq<char>>,
)
    requires
        distinct_keys(entries),
        forall|i: int| 0 <= i < entries.len() ==> (#[trigger] entries[i]).1 is Some,
    ensures
        assignment(entries, lone, answers).dom() == map_of(entries).dom(),
        forall|i: int|
            0 <= i < entries.len() ==> assignment(entries, lone, answers)[(
            #[trigger] entries[i]).0] == entries[i].1->0@,
    decreases entries.len(),
{
    let all = assignment(entries, lone, answers);
    if entries.len() > 0 {
        let front = entries.drop_last();
        assert forall|i: int| 0 <= i < front.len() implies (#[trigger] front[i]).1 is Some by {
            assert(front[i] == entries[i]);
        }
        keyed_bins_keep_their_targets(front, lone, answers);
        assert forall|i: int| 0 <= i < entries.len() implies all[(#[trigger] entries[i]).0]
            == entries[i].1->0@ by {
            if i < front.len() {
                assert(front[i] == entries[i]);
                assert(entries[i].0 != entries[entries.len() - 1].0);
            }
        }
        assert forall|k: Seq<char>| has_key(entries, k) <==> has_key(front, k) || k
            == entries.last().0 by {
            if has_key(front, k) {
                let i = choose|i: int| 0 <= i < front.len() && (#[trigger] front[i]).0 == k;
                assert(entries[i].0 == k);
            }
            if k == entries.last().0 {
                assert(entries[entries.len() - 1].0 == k);
            }
            if has_key(entries, k) && k != entries.last().0 {
                let i = choose|i: int| 0 <= i < entries.len() && (#[trigger] entries[i]).0 == k;
                assert(front[i].0 == k);
            }
        }
    }
    assert(all.dom() =~= map_of(entries).dom());
}

/// A short name always means one of the platforms that are offered.
pub proof fn named_platforms_are_offered(name: Seq<char>)
    ensures
        platform_named(name) matches Some(p) ==> platforms().contains(p),
{
    let all = platforms();
    assert(all[0] == "Crazyflie 2.1"@);
    assert(all[1] == "Crazyflie 2.1 Brushless"@);
    assert(all[2] == "Crazyflie Bolt 1.1"@);
    assert(all[3] == "Flapper (Bolt 1.1)"@);
    assert(all[4] == "Roadrunner 1.0"@);
}

/// Named targets are accepted exactly when all of them are supported.
pub proof fn named_targets_must_be_supported(
    selected: Seq<Seq<char>>,
    supported: Seq<Seq<char>>,
)
    ensures
        target_check(selected, supported) is Ok <==> forall|i: int|
            0 <= i < selected.len() ==> supported.contains(#[trigger] selected[i]),
{
    let unknown = unsupported(selected, supported);
    if unknown.len() == 0 {
        assert forall|i: int| 0 <= i < selected.len() implies supported.contains(
            #[trigger] selected[i],
        ) by {
            exactly_the_unknown_targets_are_reported(selected, supported, selected[i]);
            if !supported.contains(selected[i]) {
                assert(unknown.contains(selected[i]));
            }
        }
    } else {
        let t = unknown[0];
        assert(unknown.contains(t));
        exactly_the_unknown_targets_are_reported(selected, supported, t);
        let i = choose|i: int| 0 <= i < selected.len() && selected[i] == t;
        assert(!supported.contains(selected[i]));
    }
}

proof fn lemma_short_names_differ()
    ensures
        "cf21"@ != "cf21bl"@,
        "cf21"@ != "bolt11"@,
        "cf21"@ != "flapper"@,
        "cf21"@ != "tag"@,
        "cf21bl"@ != "bolt11"@,
        "cf21bl"@ != "flapper"@,
        "cf21bl"@ != "tag"@,
        "bolt11"@ != "flapper"@,
        "bolt11"@ != "tag"@,
        "flapper"@ != "tag"@,
{
    reveal_strlit("cf21");
    reveal_strlit("cf21bl");
    reveal_strlit("bolt11");
    reveal_strlit("flapper");
    reveal_strlit("tag");
    assert("cf21"@.len() == 4 && "cf21bl"@.len() == 6 && "bolt11"@.len() == 6);
    assert("flapper"@.len() == 7 && "tag"@.len() == 3);
    assert("cf21bl"@[0] == 'c' && "bolt11"@[0] == 'b');
}

proof fn lemma_platforms_differ()
    ensures
        platforms().no_duplicates(),
{
    reveal_strlit("Crazyflie 2.1");
    reveal_strlit("Crazyflie 2.1 Brushless");
    reveal_strlit("Crazyflie Bolt 1.1");
    reveal_strlit("Flapper (Bolt 1.1)");
    reveal_strlit("Roadrunner 1.0");
    let all = platforms();
    assert(all[0].len() == 13 && all[1].len() == 23 && all[2].len() == 18);
    assert(all[3].len() == 18 && all[4].len() == 14);
    assert(all[2][0] == 'C' && all[3][0] == 'F');
}

/// Each short name, in any letter case, means its own platform, and that platform
/// is meant by no other name.
pub proof fn short_names_mean_their_platforms(name: Seq<char>)
    ensures
        lower(name) == "cf21"@ <==> platform_named(name) == Some("Crazyflie 2.1"@),
        lower(name) == "cf21bl"@ <==> platform_named(name) == Some("Crazyflie 2.1 Brushless"@),
        lower(name) == "bolt11"@ <==> platform_named(name) == Some("Crazyflie Bolt 1.1"@),
        lower(name) == "flapper"@ <==> platform_named(name) == Some("Flapper (Bolt 1.1)"@),
        lower(name) == "tag"@ <==> platform_named(name) == Some("Roadrunner 1.0"@),
{
    lemma_short_names_differ();
    lemma_platforms_differ();
    let all = platforms();
    assert(all[0] == "Crazyflie 2.1"@ && all[1] == "Crazyflie 2.1 Brushless"@);
    assert(all[2] == "Crazyflie Bolt 1.1"@ && all[3] == "Flapper (Bolt 1.1)"@);
    assert(all[4] == "Roadrunner 1.0"@);
}

/// Names that differ in letter case alone mean the same, and names that differ in
/// more never mean the same platform.
pub proof fn platforms_have_one_name_each(a: Seq<char>, b: Seq<char>)
    ensures
        lower(a) == lower(b) ==> platform_named(a) == platform_named(b),
        platform_named(a) is Some && platform_named(a) == platform_named(b) ==> lower(a)
            == lower(b),
        platform_named(lower(a)) == platform_named(a),
{
    short_names_mean_their_platforms(a);
    short_names_mean_their_platforms(b);
    assert(lower(lower(a)) == lower(a)) by {
        if a.len() > 0 {
            capitals_become_small_letters(a, 0);
        } else {
            assert(lower(lower(a)) =~= lower(a));
        }
    }
    named_platforms_are_offered(a);
}

/// A name that is not one of the five is refused, and the message repeats it.
pub proof fn unknown_platforms_are_refused(name: Seq<char>)
    ensures
        lower(name) != "cf21"@ && lower(name) != "cf21bl"@ && lower(name) != "bolt11"@ && lower(
            name,
        ) != "flapper"@ && lower(name) != "tag"@ <==> platform_named(name) is None,
        unknown_platform(name) matches CauseView::Other(text) && stands_in(name, text),
{
    let text = "Unknown platform '"@ + name
        + "'. Valid options: cf21, cf21bl, bolt11, flapper, tag"@;
    assert(stands_in(name, text));
}

/// Targets that are listed with commas between them are read as they are, in
/// their order, as long as none holds a comma or has white space around it.
pub proof fn listed_targets_are_read_back(targets: Seq<Seq<char>>)
    requires
        targets.len() > 0,
        forall|i: int|
            0 <= i < targets.len() ==> !(#[trigger] targets[i]).contains(',') && trimmed(targets[i])
                == targets[i],
    ensures
        listed_targets(joined(targets, seq![','])) == targets,
{
    assert forall|i: int| 0 <= i < targets.len() implies !(#[trigger] targets[i]).contains(',') by {
        assert(trimmed(targets[i]) == targets[i]);
    }
    splitting_undoes_joining(targets, ',');
    assert(listed_targets(joined(targets, seq![','])) =~= targets) by {
        assert forall|i: int| 0 <= i < targets.len() implies trimmed(targets[i])
            == #[trigger] targets[i] by {
            assert(!targets[i].contains(','));
        }
    }
}

/// Every listed target is a piece between commas without the white space around
/// it.
pub proof fn listed_targets_are_trimmed_pieces(arg: Seq<char>, i: int)
    requires
        0 <= i < split(arg, ',').len(),
    ensures
        listed_targets(arg).len() == split(arg, ',').len(),
        listed_targets(arg)[i] == trimmed(split(arg, ',')[i]),
{
}

/// The lone target of a list is not empty, stands in the list, and all other
/// entries of the list are empty.
pub proof fn lone_target_is_the_only_one(arg: Seq<char>, i: int, j: int)
    requires
        0 <= i < listed_targets(arg).len(),
        0 <= j < listed_targets(arg).len(),
    ensures
        lone_target(arg) matches Some(t) ==> {
            &&& t.len() > 0
            &&& listed_targets(arg).contains(t)
            &&& listed_targets(arg)[i].len() > 0 ==> listed_targets(arg)[i] == t
            &&& listed_targets(arg)[i].len() > 0 && listed_targets(arg)[j].len() > 0 ==> i == j
        },
        listed_targets(arg)[i].len() > 0 && (forall|k: int|
            0 <= k < listed_targets(arg).len() && (#[trigger] listed_targets(arg)[k]).len() > 0
                ==> k == i) ==> lone_target(arg) == Some(listed_targets(arg)[i]),
{
    let all = listed_targets(arg);
    let pred = |t: Seq<char>| t.len() > 0;
    if lone_target(arg) is Some {
        let k = lemma_filter_single(all, pred);
        assert(all[k] == named_targets(arg)[0]);
        assert(pred(all[i]) ==> i == k);
        assert(pred(all[j]) ==> j == k);
    }
    if all[i].len() > 0 && (forall|k: int|
        0 <= k < all.len() && (#[trigger] all[k]).len() > 0 ==> k == i) {
        assert forall|k: int| 0 <= k < all.len() && pred(#[trigger] all[k]) implies k == i by {}
        lemma_filter_unique(all, pred, i);
    }
}

/// A target is taken from the target list only for a single binary that has none
/// of its own, and then it is the lone target of that list.
pub proof fn only_lone_bare_bins_take_the_listed_target(
    bin: Option<TextMap<Option<String>>>,
    targets: Option<Option<String>>,
    a: Seq<char>,
    b: Seq<char>,
)
    ensures
        explicit_target(bin, targets) is Some ==> bin is Some && (targets matches Some(Some(_))),
        bin matches Some(map) ==> {
            &&& map@.dom().contains(a) && map@.dom().contains(b) && a != b ==> explicit_target(
                bin,
                targets,
            ) is None
            &&& map@.dom().contains(a) && map@[a] is Some ==> explicit_target(bin, targets) is None
            &&& map@ == Map::<Seq<char>, Option<String>>::empty() ==> explicit_target(bin, targets)
                is None
            &&& map@ == Map::<Seq<char>, Option<String>>::empty().insert(a, None) ==> (
            targets matches Some(Some(arg)) ==> explicit_target(bin, targets) == lone_target(arg@))
        },
{
    if let Some(map) = bin {
        if is_lone_bare_bin(map@) {
            let file = choose|file: Seq<char>|
                map@ == #[trigger] Map::<Seq<char>, Option<String>>::empty().insert(file, None);
            assert(map@.dom().contains(file));
        }
        if map@ == Map::<Seq<char>, Option<String>>::empty().insert(a, None) {
            assert(is_lone_bare_bin(map@));
        }
    }
}

/// Targets are checked one by one: the unsupported ones of two lists are those of
/// each, in their order, and a single target is reported exactly where it is not
/// supported.
pub proof fn targets_are_checked_one_by_one(
    a: Seq<Seq<char>>,
    b: Seq<Seq<char>>,
    target: Seq<char>,
    supported: Seq<Seq<char>>,
)
    ensures
        unsupported(a + b, supported) == unsupported(a, supported) + unsupported(b, supported),
        supported.contains(target) ==> unsupported(seq![target], supported) == Seq::<
            Seq<char>,
        >::empty(),
        !supported.contains(target) ==> unsupported(seq![target], supported) == seq![target],
{
    let pred = |t: Seq<char>| !supported.contains(t);
    lemma_filter_appends(a, b, pred);
    lemma_filter_one(target, pred);
}

/// Targets that are not supported are an invalid value, and the message tells
/// each of them and each supported one.
pub proof fn unknown_targets_are_told(
    selected: Seq<Seq<char>>,
    supported: Seq<Seq<char>>,
    i: int,
    j: int,
)
    requires
        0 <= i < selected.len(),
        !supported.contains(selected[i]),
    ensures
        target_check(selected, supported) matches Err(ErrorView::InvalidValue(text)) && stands_in(
            selected[i],
            text,
        ) && (0 <= j < supported.len() ==> stands_in(supported[j], text)),
{
    let unknown = unsupported(selected, supported);
    exactly_the_unknown_targets_are_reported(selected, supported, selected[i]);
    assert(selected.contains(selected[i]));
    let k = choose|k: int| 0 <= k < unknown.len() && unknown[k] == selected[i];
    let told = joined(unknown, ", "@);
    let valid = joined(supported, ", "@);
    let head = "unknown flash target(s): "@;
    let mid = ". Valid targets: "@;
    let text = head + told + mid + valid;
    lemma_parts_stand_in_joined(unknown, ", "@, k);
    let (x, y) = choose|x: Seq<char>, y: Seq<char>| told == #[trigger] (x + unknown[k] + y);
    assert(text =~= (head + x) + selected[i] + (y + mid + valid));
    if 0 <= j < supported.len() {
        lemma_parts_stand_in_joined(supported, ", "@, j);
        let (u, v) = choose|u: Seq<char>, v: Seq<char>| valid == #[trigger] (u + supported[j] + v);
        assert(text =~= (head + told + mid + u) + supported[j] + v);
    }
}

/// Of the targets with firmware exactly those that were selected are kept, one by
/// one and in their order.
pub proof fn selected_targets_are_kept(
    a: Seq<Seq<char>>,
    b: Seq<Seq<char>>,
    target: Seq<char>,
    selected: Seq<Seq<char>>,
)
    ensures
        kept_targets(a + b, selected) == kept_targets(a, selected) + kept_targets(b, selected),
        selected.contains(target) ==> kept_targets(seq![target], selected) == seq![target],
        !selected.contains(target) ==> kept_targets(seq![target], selected) == Seq::<
            Seq<char>,
        >::empty(),
        kept_targets(a, selected).contains(target) <==> a.contains(target) && selected.contains(
            target,
        ),
{
    let pred = |t: Seq<char>| selected.contains(t);
    lemma_filter_appends(a, b, pred);
    lemma_filter_one(target, pred);
    lemma_filter(a, pred, target);
}

/// The user is asked about the files without a target, all of them, one by one and
/// in their order, and about no others.
pub proof fn bare_files_are_asked_about(
    a: Seq<(Seq<char>, Option<String>)>,
    b: Seq<(Seq<char>, Option<String>)>,
    file: Seq<char>,
    value: Option<String>,
)
    ensures
        bare_files(a + b) == bare_files(a) + bare_files(b),
        value is None ==> bare_files(seq![(file, value)]) == seq![file],
        value is Some ==> bare_files(seq![(file, value)]) == Seq::<Seq<char>>::empty(),
    decreases b.len(),
{
    if b.len() == 0 {
        assert(a + b =~= a);
        assert(bare_files(a) + bare_files(b) =~= bare_files(a));
    } else {
        bare_files_are_asked_about(a, b.drop_last(), file, value);
        assert((a + b).drop_last() =~= a + b.drop_last());
        assert(bare_files(a + b) =~= bare_files(a) + bare_files(b));
    }
    assert(seq![(file, value)].drop_last() =~= Seq::empty());
    assert(bare_files(seq![(file, value)].drop_last()) =~= Seq::empty());
    assert(Seq::empty().push(file) =~= seq![file]);
}

/// Files without a target go to the answers that the user gave, each to its own.
pub proof fn answers_are_targets_of_their_files(
    entries: Seq<(Seq<char>, Option<String>)>,
    answers: Seq<Seq<char>>,
)
    requires
        forall|i: int| 0 <= i < entries.len() ==> (#[trigger] entries[i]).1 is None,
        answers.len() >= entries.len(),
        answers.no_duplicates(),
    ensures
        bare_files(entries).len() == entries.len(),
        forall|i: int|
            0 <= i < entries.len() ==> assignment(entries, None, answers).dom().contains(
                #[trigger] answers[i],
            ) && assignment(entries, None, answers)[answers[i]] == entries[i].0,
        forall|t: Seq<char>| #[trigger]
            assignment(entries, None, answers).dom().contains(t) ==> exists|i: int|
                0 <= i < entries.len() && #[trigger] answers[i] == t,
    decreases entries.len(),
{
    if entries.len() > 0 {
        let front = entries.drop_last();
        let last = entries.len() - 1;
        assert forall|i: int| 0 <= i < front.len() implies (#[trigger] front[i]).1 is None by {
            assert(front[i] == entries[i]);
        }
        answers_are_targets_of_their_files(front, answers);
        let before = assignment(front, None, answers);
        let after = assignment(entries, None, answers);
        assert(entries[last].1 is None);
        assert(after == before.insert(answers[last], entries[last].0));
        assert forall|i: int| 0 <= i < entries.len() implies after.dom().contains(
            #[trigger] answers[i],
        ) && after[answers[i]] == entries[i].0 by {
            if i < last {
                assert(answers[i] != answers[last]);
                assert(front[i] == entries[i]);
            }
        }
        assert forall|t: Seq<char>| #[trigger] after.dom().contains(t) implies exists|i: int|
            0 <= i < entries.len() && #[trigger] answers[i] == t by {
            if t == answers[last] {
                assert(answers[last] == t);
            } else {
                assert(before.dom().contains(t));
                let i = choose|i: int| 0 <= i < front.len() && #[trigger] answers[i] == t;
                assert(answers[i] == t);
            }
        }
    }
}

}
