//! Shell completion of names, from a cache of the Crazyflie that was last
//! connected. Nothing here talks to a device.
use vstd::prelude::*;

use crate::eeprom::is_setting;
use crate::text::{
    characters, concat, contains_char, lemma_filter, lemma_filter_appends, same, slice, starts_with, texts,
};

verus! {

// ---- The cache -------------------------------------------------------------

/// A parameter of the Crazyflie that was last connected.
#[derive(Debug, Clone, PartialEq, Eq)]
pub struct LatestCachedParameter {
    pub name: String,
    pub readonly: bool,
}

/// A log variable of the Crazyflie that was last connected.
#[derive(Debug, Clone, PartialEq, Eq)]
pub struct LatestCachedLogVariable {
    pub name: String,
}

/// The names of the Crazyflie that was last connected.
#[derive(Debug, Clone, PartialEq, Eq)]
pub struct LatestCache {
    pub log: Vec<LatestCachedLogVariable>,
    pub param: Vec<LatestCachedParameter>,
}

/// The cache that describes a device: its parameters, each with whether it can
/// be written if that is known, and its log variables.
pub open spec fn describes(
    cache: LatestCache,
    params: Seq<(String, Option<bool>)>,
    logs: Seq<String>,
) -> bool {
    &&& cache.param@.len() == params.len()
    &&& forall|i: int|
        #![trigger cache.param@[i]]
        0 <= i < params.len() ==> cache.param@[i].name@ == params[i].0@
            && cache.param@[i].readonly == (params[i].1 != Some(true))
    &&& cache.log@.len() == logs.len()
    &&& forall|i: int|
        #![trigger cache.log@[i]]
        0 <= i < logs.len() ==> cache.log@[i].name@ == logs[i]@
}

impl LatestCache {
    /// Describes a device. A parameter of which it is not known that it can be
    /// written counts as read-only.
    pub fn of_device(params: &[(String, Option<bool>)], logs: &[String]) -> (cache: LatestCache)
        ensures
            describes(cache, params@, logs@),
    {
        let mut param: Vec<LatestCachedParameter> = Vec::new();
        let mut i: usize = 0;
        while i < params.len()
            invariant
                i <= params.len(),
                param.len() == i,
                forall|j: int|
                    #![trigger param@[j]]
                    0 <= j < i ==> param@[j].name@ == params@[j].0@ && param@[j].readonly == (
                    params@[j].1 != Some(true)),
            decreases params.len() - i,
        {
            let readonly = match params[i].1 {
                Some(writable) => !writable,
                None => true,
            };
            param.push(LatestCachedParameter { name: params[i].0.clone(), readonly });
            i += 1;
        }
        let mut log: Vec<LatestCachedLogVariable> = Vec::new();
        let mut k: usize = 0;
        while k < logs.len()
            invariant
                k <= logs.len(),
                log.len() == k,
                forall|j: int| #![trigger log@[j]] 0 <= j < k ==> log@[j].name@ == logs@[j]@,
            decreases logs.len() - k,
        {
            log.push(LatestCachedLogVariable { name: logs[k].clone() });
            k += 1;
        }
        LatestCache { log, param }
    }

    /// The cache that was loaded, or an empty one where there is none that can
    /// be read (before the first connection).
    pub fn or_empty(loaded: Option<LatestCache>) -> (cache: LatestCache)
        ensures
            loaded matches Some(l) ==> cache == l,
            loaded is None ==> cache.log@.len() == 0 && cache.param@.len() == 0,
    {
        match loaded {
            Some(cache) => cache,
            None => LatestCache { log: Vec::new(), param: Vec::new() },
        }
    }
}

// ---- Requests --------------------------------------------------------------

/// A list of names from which a word is completed.
#[derive(Debug, Clone, Copy, PartialEq, Eq, Structural)]
pub enum CompletionKind {
    ParamNames,
    ParamNamesWritable,
    LogNames,
    FlashTargets,
    ConfigKeys,
}

/// The list that a word of the completion scripts means.
pub open spec fn kind_named(name: Seq<char>) -> Option<CompletionKind> {
    if name == "param-names"@ {
        Some(CompletionKind::ParamNames)
    } else if name == "param-names-writable"@ {
        Some(CompletionKind::ParamNamesWritable)
    } else if name == "log-names"@ {
        Some(CompletionKind::LogNames)
    } else if name == "flash-targets"@ {
        Some(CompletionKind::FlashTargets)
    } else if name == "config-keys"@ {
        Some(CompletionKind::ConfigKeys)
    } else {
        None
    }
}

impl CompletionKind {
    /// The list that a word of the completion scripts means.
    pub fn from_name(name: &str) -> (kind: Option<CompletionKind>)
        ensures
            kind == kind_named(name@),
    {
        if same(name, "param-names") {
            Some(CompletionKind::ParamNames)
        } else if same(name, "param-names-writable") {
            Some(CompletionKind::ParamNamesWritable)
        } else if same(name, "log-names") {
            Some(CompletionKind::LogNames)
        } else if same(name, "flash-targets") {
            Some(CompletionKind::FlashTargets)
        } else if same(name, "config-keys") {
            Some(CompletionKind::ConfigKeys)
        } else {
            None
        }
    }
}

/// What the arguments of the program ask of completion.
#[derive(Debug, Clone, PartialEq, Eq)]
pub enum CompletionRequest {
    /// The program was not called for completion.
    NotRequested,
    /// The program was called for completion, but not for a known list.
    Nothing,
    /// A word is to be completed from a list.
    Word { kind: CompletionKind, partial: String },
}

/// Whether `r` is what the arguments of the program ask of completion.
pub open spec fn is_request(argv: Seq<Seq<char>>, r: CompletionRequest) -> bool {
    match r {
        CompletionRequest::NotRequested => !(argv.len() > 1 && argv[1] == "__complete"@),
        CompletionRequest::Nothing => argv.len() > 1 && argv[1] == "__complete"@ && !(argv.len() > 2
            && kind_named(argv[2]) is Some),
        CompletionRequest::Word { kind, partial } => {
            &&& argv.len() > 2
            &&& argv[1] == "__complete"@
            &&& kind_named(argv[2]) == Some(kind)
            &&& partial@ == (if argv.len() > 3 {
                argv[3]
            } else {
                Seq::<char>::empty()
            })
        },
    }
}

/// Reads the arguments of the program, the first of which is its own name. The
/// completion scripts call it with a fixed word, the list and the word to
/// complete, which may be missing.
pub fn completion_request(argv: &[String]) -> (r: CompletionRequest)
    ensures
        is_request(texts(argv@), r),
{
    assert(texts(argv@).len() == argv@.len());
    assert(forall|i: int| 0 <= i < argv@.len() ==> #[trigger] texts(argv@)[i] == argv@[i]@);
    if argv.len() <= 1 || !same(argv[1].as_str(), "__complete") {
        return CompletionRequest::NotRequested;
    }
    if argv.len() <= 2 {
        return CompletionRequest::Nothing;
    }
    match CompletionKind::from_name(argv[2].as_str()) {
        Some(kind) => {
            let partial = if argv.len() > 3 {
                argv[3].clone()
            } else {
                String::new()
            };
            CompletionRequest::Word { kind, partial }
        },
        None => CompletionRequest::Nothing,
    }
}

// ---- Candidates ------------------------------------------------------------

/// The keys that `config set` accepts.
pub open spec fn config_keys() -> Seq<Seq<char>> {
    seq!["channel"@, "address"@, "speed"@, "pitch_trim"@, "roll_trim"@]
}

/// The names of the parameters, in order.
pub open spec fn param_names(params: Seq<LatestCachedParameter>) -> Seq<Seq<char>> {
    params.map_values(|p: LatestCachedParameter| p.name@)
}

/// The list from which a word is completed.
pub open spec fn names_of(
    kind: CompletionKind,
    cache: LatestCache,
    flash_targets: Seq<Seq<char>>,
) -> Seq<Seq<char>> {
    match kind {
        CompletionKind::ParamNames => param_names(cache.param@),
        CompletionKind::ParamNamesWritable => param_names(
            cache.param@.filter(|p: LatestCachedParameter| !p.readonly),
        ),
        CompletionKind::LogNames => cache.log@.map_values(|l: LatestCachedLogVariable| l.name@),
        CompletionKind::FlashTargets => flash_targets,
        CompletionKind::ConfigKeys => config_keys(),
    }
}

/// The list from which a word is completed.
pub fn candidate_names(kind: CompletionKind, cache: &LatestCache, flash_targets: &[String]) -> (r: Vec<
    String,
>)
    ensures
        texts(r@) == names_of(kind, *cache, texts(flash_targets@)),
{
    let mut out: Vec<String> = Vec::new();
    let mut i: usize = 0;
    match kind {
        CompletionKind::ParamNames => {
            while i < cache.param.len()
                invariant
                    i <= cache.param.len(),
                    out.len() == i,
                    forall|j: int|
                        0 <= j < i ==> #[trigger] out@[j]@ == param_names(cache.param@)[j],
                decreases cache.param.len() - i,
            {
                out.push(cache.param[i].name.clone());
                i += 1;
            }
            assert(texts(out@) =~= param_names(cache.param@));
        },
        CompletionKind::ParamNamesWritable => {
            let ghost pred = |p: LatestCachedParameter| !p.readonly;
            assert(texts(out@) =~= param_names(cache.param@.take(0).filter(pred))) by {
                reveal(Seq::filter);
            }
            while i < cache.param.len()
                invariant
                    i <= cache.param.len(),
                    pred == |p: LatestCachedParameter| !p.readonly,
                    texts(out@) == param_names(cache.param@.take(i as int).filter(pred)),
                decreases cache.param.len() - i,
            {
                let ghost before = texts(out@);
                let ghost kept = cache.param@.take(i as int).filter(pred);
                proof {
                    reveal(Seq::filter);
                    assert(cache.param@.take(i + 1).drop_last() =~= cache.param@.take(i as int));
                }
                if !cache.param[i].readonly {
                    out.push(cache.param[i].name.clone());
                    assert(texts(out@) =~= before.push(cache.param@[i as int].name@));
                    assert(param_names(kept.push(cache.param@[i as int])) =~= param_names(
                        kept,
                    ).push(cache.param@[i as int].name@));
                }
                i += 1;
            }
            assert(cache.param@.take(i as int) =~= cache.param@);
        },
        CompletionKind::LogNames => {
            while i < cache.log.len()
                invariant
                    i <= cache.log.len(),
                    out.len() == i,
                    forall|j: int| 0 <= j < i ==> #[trigger] out@[j]@ == cache.log@[j].name@,
                decreases cache.log.len() - i,
            {
                out.push(cache.log[i].name.clone());
                i += 1;
            }
            assert(texts(out@) =~= cache.log@.map_values(|l: LatestCachedLogVariable| l.name@));
        },
        CompletionKind::FlashTargets => {
            while i < flash_targets.len()
                invariant
                    i <= flash_targets.len(),
                    out.len() == i,
                    forall|j: int| 0 <= j < i ==> #[trigger] out@[j]@ == flash_targets@[j]@,
                decreases flash_targets.len() - i,
            {
                out.push(flash_targets[i].clone());
                i += 1;
            }
            assert(texts(out@) =~= texts(flash_targets@));
        },
        CompletionKind::ConfigKeys => {
            out.push("channel".to_owned());
            out.push("address".to_owned());
            out.push("speed".to_owned());
            out.push("pitch_trim".to_owned());
            out.push("roll_trim".to_owned());
            assert(texts(out@) =~= config_keys());
        },
    }
    out
}

/// Where the last part of a comma separated word begins: after the last comma.
pub open spec fn fragment_start(word: Seq<char>) -> int
    decreases word.len(),
{
    if word.len() == 0 {
        0
    } else if word.last() == ',' {
        word.len() as int
    } else {
        fragment_start(word.drop_last())
    }
}

/// The part of a word that is settled: up to and including the last comma.
pub open spec fn settled(word: Seq<char>) -> Seq<char> {
    word.take(fragment_start(word))
}

/// The part of a word that is completed: after the last comma.
pub open spec fn fragment(word: Seq<char>) -> Seq<char> {
    word.skip(fragment_start(word))
}

/// What completes a word from a list of names: every name that begins with the
/// last part of the word, behind the settled part. After an equals sign stands
/// a file name, for which there are no names here.
pub open spec fn completions(word: Seq<char>, names: Seq<Seq<char>>) -> Seq<Seq<char>> {
    if fragment(word).contains('=') {
        Seq::empty()
    } else {
        names.filter(|n: Seq<char>| fragment(word).is_prefix_of(n)).map_values(
            |n: Seq<char>| settled(word) + n,
        )
    }
}

proof fn lemma_fragment_start(word: Seq<char>)
    ensures
        0 <= fragment_start(word) <= word.len(),
        fragment_start(word) > 0 ==> word[fragment_start(word) - 1] == ',',
        !fragment(word).contains(','),
    decreases word.len(),
{
    if word.len() > 0 {
        if word.last() != ',' {
            let front = word.drop_last();
            lemma_fragment_start(front);
            let f = fragment(word);
            assert forall|i: int| 0 <= i < f.len() implies f[i] != ',' by {
                if i < f.len() - 1 {
                    assert(fragment(front)[i] == f[i]);
                }
            }
        }
    }
}

fn find_fragment(word: &str) -> (start: usize)
    ensures
        start == fragment_start(word@),
{
    let chars = characters(word);
    let mut end: usize = chars.len();
    assert(word@.take(end as int) =~= word@);
    while end > 0 && chars[end - 1] != ','
        invariant
            chars@ == word@,
            end <= chars.len(),
            fragment_start(word@) == fragment_start(word@.take(end as int)),
        decreases end,
    {
        assert(word@.take(end as int).drop_last() =~= word@.take(end - 1));
        end -= 1;
    }
    end
}

/// The candidates that complete a word from one of the lists.
pub fn dynamic_completions(
    kind: CompletionKind,
    partial: &str,
    cache: &LatestCache,
    flash_targets: &[String],
) -> (r: Vec<String>)
    ensures
        texts(r@) == completions(
            partial@,
            names_of(kind, *cache, texts(flash_targets@)),
        ),
{
    let start = find_fragment(partial);
    proof {
        lemma_fragment_start(partial@);
    }
    let len = characters(partial).len();
    let prefix = slice(partial, 0, start);
    let last = slice(partial, start, len);
    assert(prefix@ =~= settled(partial@));
    assert(last@ =~= fragment(partial@));
    let mut out: Vec<String> = Vec::new();
    assert(texts(out@) =~= Seq::empty());
    if contains_char(last.as_str(), '=') {
        return out;
    }
    let names = candidate_names(kind, cache, flash_targets);
    let ghost all = texts(names@);
    let ghost pred = |n: Seq<char>| fragment(partial@).is_prefix_of(n);
    let ghost full = |n: Seq<char>| settled(partial@) + n;
    let mut i: usize = 0;
    assert(texts(out@) =~= all.take(0).filter(pred).map_values(full)) by {
        reveal(Seq::filter);
    }
    while i < names.len()
        invariant
            i <= names.len(),
            all == texts(names@),
            pred == |n: Seq<char>| fragment(partial@).is_prefix_of(n),
            full == |n: Seq<char>| settled(partial@) + n,
            prefix@ == settled(partial@),
            last@ == fragment(partial@),
            texts(out@) == all.take(i as int).filter(pred).map_values(full),
        decreases names.len() - i,
    {
        let ghost before = texts(out@);
        let ghost kept = all.take(i as int).filter(pred);
        proof {
            reveal(Seq::filter);
            assert(all.take(i + 1).drop_last() =~= all.take(i as int));
            assert(all[i as int] == names@[i as int]@);
        }
        if starts_with(names[i].as_str(), last.as_str()) {
            out.push(concat(prefix.as_str(), names[i].as_str()));
            assert(texts(out@) =~= before.push(full(all[i as int])));
            assert(kept.push(all[i as int]).map_values(full) =~= kept.map_values(full).push(
                full(all[i as int]),
            ));
        }
        i += 1;
    }
    assert(all.take(i as int) =~= all);
    out
}

// ---- Laws ------------------------------------------------------------------

/// The settled part and the part that is completed make up the word; the latter
/// holds no comma, and the former is empty or ends in one.
pub proof fn words_split_at_the_last_comma(word: Seq<char>)
    ensures
        settled(word) + fragment(word) == word,
        !fragment(word).contains(','),
        settled(word).len() > 0 ==> settled(word).last() == ',',
{
    lemma_fragment_start(word);
    assert(settled(word) + fragment(word) =~= word);
}

/// Every candidate extends the word that is completed, and is a name of the list
/// behind the settled part.
pub proof fn completions_extend_the_word(word: Seq<char>, names: Seq<Seq<char>>, i: int)
    requires
        0 <= i < completions(word, names).len(),
    ensures
        word.is_prefix_of(completions(word, names)[i]),
        exists|n: Seq<char>|
            names.contains(n) && completions(word, names)[i] == #[trigger] (settled(word) + n),
{
    let pred = |n: Seq<char>| fragment(word).is_prefix_of(n);
    let n = names.filter(pred)[i];
    assert(names.filter(pred).contains(n));
    lemma_filter(names, pred, n);
    words_split_at_the_last_comma(word);
    let c = settled(word) + n;
    assert(c == completions(word, names)[i]);
    let f = fragment(word);
    assert(f =~= n.subrange(0, f.len() as int));
    assert(word =~= c.subrange(0, word.len() as int));
}

/// No name that fits is left out.
pub proof fn fitting_names_are_offered(word: Seq<char>, names: Seq<Seq<char>>, name: Seq<char>)
    requires
        names.contains(name),
        fragment(word).is_prefix_of(name),
        !fragment(word).contains('='),
    ensures
        completions(word, names).contains(settled(word) + name),
{
    let pred = |n: Seq<char>| fragment(word).is_prefix_of(n);
    lemma_filter(names, pred, name);
    let kept = names.filter(pred);
    let i = choose|i: int| 0 <= i < kept.len() && kept[i] == name;
    assert(completions(word, names)[i] == settled(word) + name);
}

/// Read-only parameters are not offered where a parameter is to be written.
pub proof fn only_writable_parameters_are_offered(
    cache: LatestCache,
    flash_targets: Seq<Seq<char>>,
    name: Seq<char>,
)
    ensures
        names_of(CompletionKind::ParamNamesWritable, cache, flash_targets).contains(name)
            <==> exists|i: int|
            0 <= i < cache.param@.len() && (#[trigger] cache.param@[i]).name@ == name
                && !cache.param@[i].readonly,
{
    let pred = |p: LatestCachedParameter| !p.readonly;
    let kept = cache.param@.filter(pred);
    let names = param_names(kept);
    if names.contains(name) {
        let k = choose|k: int| 0 <= k < names.len() && names[k] == name;
        let p = kept[k];
        assert(kept.contains(p));
        lemma_filter(cache.param@, pred, p);
        let i = choose|i: int| 0 <= i < cache.param@.len() && cache.param@[i] == p;
        assert(cache.param@[i].name@ == name);
    }
    if exists|i: int|
        0 <= i < cache.param@.len() && (#[trigger] cache.param@[i]).name@ == name
            && !cache.param@[i].readonly {
        let i = choose|i: int|
            0 <= i < cache.param@.len() && (#[trigger] cache.param@[i]).name@ == name
                && !cache.param@[i].readonly;
        let p = cache.param@[i];
        assert(cache.param@.contains(p));
        lemma_filter(cache.param@, pred, p);
        let k = choose|k: int| 0 <= k < kept.len() && kept[k] == p;
        assert(names[k] == name);
    }
}

/// The keys that are offered for `config set` are exactly the ones it knows.
pub proof fn offered_config_keys_are_known(key: Seq<char>)
    ensures
        config_keys().contains(key) <==> is_setting(key),
{
    let keys = config_keys();
    assert(keys[0] == "channel"@);
    assert(keys[1] == "address"@);
    assert(keys[2] == "speed"@);
    assert(keys[3] == "pitch_trim"@);
    assert(keys[4] == "roll_trim"@);
}

/// Each list has a name of its own in the completion scripts, and no other word
/// means a list.
pub proof fn lists_have_their_names(name: Seq<char>)
    ensures
        kind_named(name) == Some(CompletionKind::ParamNames) <==> name == "param-names"@,
        kind_named(name) == Some(CompletionKind::ParamNamesWritable) <==> name
            == "param-names-writable"@,
        kind_named(name) == Some(CompletionKind::LogNames) <==> name == "log-names"@,
        kind_named(name) == Some(CompletionKind::FlashTargets) <==> name == "flash-targets"@,
        kind_named(name) == Some(CompletionKind::ConfigKeys) <==> name == "config-keys"@,
{
    reveal_strlit("param-names");
    reveal_strlit("param-names-writable");
    reveal_strlit("log-names");
    reveal_strlit("flash-targets");
    reveal_strlit("config-keys");
    assert("param-names"@.len() == 11 && "param-names-writable"@.len() == 20);
    assert("log-names"@.len() == 9 && "flash-targets"@.len() == 13);
    assert("config-keys"@.len() == 11 && "config-keys"@[0] == 'c' && "param-names"@[0] == 'p');
}

/// The program completes exactly where it was called with the fixed word, and
/// then the word in the fourth place, or an empty one, from the list in the
/// third.
pub proof fn completion_takes_the_last_word(argv: Seq<Seq<char>>, r: CompletionRequest)
    requires
        is_request(argv, r),
    ensures
        r is NotRequested <==> argv.len() < 2 || argv[1] != "__complete"@,
        argv.len() >= 3 && argv[1] == "__complete"@ && kind_named(argv[2]) is Some ==> r is Word,
        r matches CompletionRequest::Word { kind, partial } ==> kind_named(argv[2]) == Some(kind)
            && (argv.len() >= 4 ==> partial@ == argv[3]) && (argv.len() == 3 ==> partial@.len()
            == 0),
{
}

/// Candidates come from the lists one after the other, in their order: what
/// completes a word from two lists is what completes it from each. A single name
/// is a candidate exactly where it begins with the fragment, unless the fragment
/// is a file behind an equals sign.
pub proof fn names_are_completed_one_by_one(
    word: Seq<char>,
    a: Seq<Seq<char>>,
    b: Seq<Seq<char>>,
    name: Seq<char>,
)
    ensures
        completions(word, a + b) == completions(word, a) + completions(word, b),
        fragment(word).is_prefix_of(name) && !fragment(word).contains('=') ==> completions(
            word,
            seq![name],
        ) == seq![settled(word) + name],
        !fragment(word).is_prefix_of(name) || fragment(word).contains('=') ==> completions(
            word,
            seq![name],
        ) == Seq::<Seq<char>>::empty(),
{
    let pred = |n: Seq<char>| fragment(word).is_prefix_of(n);
    let full = |n: Seq<char>| settled(word) + n;
    lemma_filter_appends(a, b, pred);
    reveal(Seq::filter);
    assert(seq![name].drop_last() =~= Seq::empty());
    assert(Seq::<Seq<char>>::empty().filter(pred) =~= Seq::empty());
    assert((a.filter(pred) + b.filter(pred)).map_values(full) =~= a.filter(pred).map_values(full)
        + b.filter(pred).map_values(full));
    assert(completions(word, a + b) =~= completions(word, a) + completions(word, b));
    assert(fragment(word).is_prefix_of(name) ==> seq![name].filter(pred) =~= seq![name]);
    assert(!fragment(word).is_prefix_of(name) ==> seq![name].filter(pred) =~= Seq::empty());
    assert(seq![name].map_values(full) =~= seq![settled(word) + name]);
}

/// The names that are offered are those of the last Crazyflie, all of them and in
/// their order, or the targets that were handed in.
pub proof fn lists_hold_the_names_of_the_crazyflie(
    cache: LatestCache,
    params: Seq<(String, Option<bool>)>,
    logs: Seq<String>,
    flash_targets: Seq<Seq<char>>,
    i: int,
)
    requires
        describes(cache, params, logs),
    ensures
        names_of(CompletionKind::ParamNames, cache, flash_targets).len() == params.len(),
        0 <= i < params.len() ==> names_of(CompletionKind::ParamNames, cache, flash_targets)[i]
            == params[i].0@,
        names_of(CompletionKind::LogNames, cache, flash_targets).len() == logs.len(),
        0 <= i < logs.len() ==> names_of(CompletionKind::LogNames, cache, flash_targets)[i]
            == logs[i]@,
        names_of(CompletionKind::FlashTargets, cache, flash_targets) == flash_targets,
        // A parameter is offered for writing only if the Crazyflie said that it
        // can be written.
        0 <= i < params.len() && params[i].1 == Some(true) ==> names_of(
            CompletionKind::ParamNamesWritable,
            cache,
            flash_targets,
        ).contains(params[i].0@),
        0 <= i < params.len() && (forall|k: int|
            0 <= k < params.len() && (#[trigger] params[k]).0@ == params[i].0@ ==> params[k].1
                != Some(true)) ==> !names_of(
            CompletionKind::ParamNamesWritable,
            cache,
            flash_targets,
        ).contains(params[i].0@),
{
    if 0 <= i < params.len() {
        only_writable_parameters_are_offered(cache, flash_targets, params[i].0@);
        assert(cache.param@[i].name@ == params[i].0@);
        if (forall|k: int|
            0 <= k < params.len() && (#[trigger] params[k]).0@ == params[i].0@ ==> params[k].1
                != Some(true)) && names_of(
            CompletionKind::ParamNamesWritable,
            cache,
            flash_targets,
        ).contains(params[i].0@) {
            let k = choose|k: int|
                0 <= k < cache.param@.len() && (#[trigger] cache.param@[k]).name@ == params[i].0@
                    && !cache.param@[k].readonly;
            assert(params[k].0@ == params[i].0@);
        }
    }
    if 0 <= i < logs.len() {
        assert(cache.log@[i].name@ == logs[i]@);
    }
}

}
