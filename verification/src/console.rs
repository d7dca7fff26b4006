//! Console sources that a Crazyflie offers next to its own console.
use vstd::prelude::*;

use crate::error::{CliError, ErrorView};
use crate::text::{concat3, join, joined, same, texts};

verus! {

/// The message for a source that is not there. It names the sources that are.
pub open spec fn no_source(paths: Seq<Seq<char>>, wanted: Seq<char>) -> Seq<char> {
    "console source '"@ + wanted + "', available: "@ + joined(paths, ", "@)
}

/// Whether `r` is the position of the first source with the wanted path, or the
/// error where there is none.
pub open spec fn is_source(
    paths: Seq<Seq<char>>,
    wanted: Seq<char>,
    r: Result<usize, CliError>,
) -> bool {
    match r {
        Ok(i) => i < paths.len() && paths[i as int] == wanted && forall|j: int|
            0 <= j < i ==> #[trigger] paths[j] != wanted,
        Err(e) => !paths.contains(wanted) && e@ == ErrorView::NotFound(no_source(paths, wanted)),
    }
}

/// Finds a source by its exact path; letter case counts.
pub fn find_source(paths: &[String], wanted: &str) -> (r: Result<usize, CliError>)
    ensures
        is_source(texts(paths@), wanted@, r),
{
    let mut i: usize = 0;
    while i < paths.len()
        invariant
            i <= paths.len(),
            forall|j: int| 0 <= j < i ==> (#[trigger] texts(paths@)[j]) != wanted@,
        decreases paths.len() - i,
    {
        if same(paths[i].as_str(), wanted) {
            assert(texts(paths@)[i as int] == wanted@);
            return Ok(i);
        }
        i += 1;
    }
    let listed = join(paths, ", ");
    let text = concat3("console source '", wanted, "', available: ").concat(listed.as_str());
    Err(CliError::NotFound(text))
}

/// The lines that list the sources: their paths, in a table under a heading.
pub open spec fn listing(paths: Seq<Seq<char>>, table: bool) -> Seq<Seq<char>> {
    if table {
        seq!["path"@] + paths
    } else {
        paths
    }
}

/// The lines that list the sources.
pub fn source_lines(paths: &[String], table: bool) -> (lines: Vec<String>)
    ensures
        texts(lines@) == listing(texts(paths@), table),
{
    let mut lines: Vec<String> = Vec::new();
    if table {
        lines.push("path".to_owned());
    }
    let ghost head = texts(lines@);
    let mut i: usize = 0;
    assert(texts(lines@) =~= head + texts(paths@).take(0));
    while i < paths.len()
        invariant
            i <= paths.len(),
            texts(lines@) == head + texts(paths@).take(i as int),
        decreases paths.len() - i,
    {
        let ghost before = texts(lines@);
        lines.push(paths[i].clone());
        assert(texts(lines@) =~= before.push(paths@[i as int]@));
        assert(texts(paths@).take(i + 1) =~= texts(paths@).take(i as int).push(
            texts(paths@)[i as int],
        ));
        assert(texts(lines@) =~= head + texts(paths@).take(i + 1));
        i += 1;
    }
    assert(texts(paths@).take(i as int) =~= texts(paths@));
    assert(table ==> head =~= seq!["path"@]);
    assert(!table ==> head + texts(paths@) =~= texts(paths@));
    lines
}

// ---- Laws ------------------------------------------------------------------

/// Whether `part` stands somewhere in `whole`.
pub open spec fn stands_in(part: Seq<char>, whole: Seq<char>) -> bool {
    exists|before: Seq<char>, after: Seq<char>| whole == #[trigger] (before + part + after)
}

/// What stands in a text stands in every longer one, and a text stands in itself.
pub proof fn lemma_stands_in(part: Seq<char>, whole: Seq<char>, before: Seq<char>, after: Seq<char>)
    ensures
        stands_in(part, part),
        stands_in(part, whole) ==> stands_in(part, whole + after) && stands_in(
            part,
            before + whole,
        ),
{
    let none = Seq::<char>::empty();
    assert(part =~= none + part + none);
    if stands_in(part, whole) {
        let (x, y) = choose|x: Seq<char>, y: Seq<char>| whole == #[trigger] (x + part + y);
        assert(whole + after =~= x + part + (y + after));
        assert(before + whole =~= (before + x) + part + y);
    }
}

/// Two neighbours in a row of three texts stand in it together.
pub proof fn lemma_neighbours_stand_in(a: Seq<char>, b: Seq<char>, c: Seq<char>)
    ensures
        stands_in(b + c, a + b + c),
{
    assert(a + b + c =~= a + (b + c) + Seq::empty());
}

/// Every part of a joined list stands in it.
pub proof fn lemma_parts_stand_in_joined(parts: Seq<Seq<char>>, sep: Seq<char>, i: int)
    requires
        0 <= i < parts.len(),
    ensures
        stands_in(parts[i], joined(parts, sep)),
    decreases parts.len(),
{
    let whole = joined(parts, sep);
    if parts.len() == 1 {
        assert(whole =~= Seq::empty() + parts[i] + Seq::empty());
    } else if i == parts.len() - 1 {
        let before = joined(parts.drop_last(), sep) + sep;
        assert(whole =~= before + parts[i] + Seq::empty());
    } else {
        let front = parts.drop_last();
        lemma_parts_stand_in_joined(front, sep, i);
        assert(front[i] == parts[i]);
        let (before, after) = choose|before: Seq<char>, after: Seq<char>|
            joined(front, sep) == #[trigger] (before + parts[i] + after);
        assert(whole =~= before + parts[i] + (after + sep + parts.last()));
    }
}

/// A source that is not there is a missing resource, and the message tells every
/// source that is there.
pub proof fn missing_source_is_reported(paths: Seq<Seq<char>>, wanted: Seq<char>, err: CliError)
    requires
        err@ == ErrorView::NotFound(no_source(paths, wanted)),
    ensures
        err.code() == 20,
        stands_in(wanted, err->NotFound_0@),
        forall|i: int| 0 <= i < paths.len() ==> stands_in(#[trigger] paths[i], err->NotFound_0@),
{
    let text = no_source(paths, wanted);
    let listed = joined(paths, ", "@);
    let head = "console source '"@ + wanted + "', available: "@;
    assert(text =~= "console source '"@ + wanted + ("', available: "@ + listed));
    assert forall|i: int| 0 <= i < paths.len() implies stands_in(#[trigger] paths[i], text) by {
        lemma_parts_stand_in_joined(paths, ", "@, i);
        let (before, after) = choose|before: Seq<char>, after: Seq<char>|
            listed == #[trigger] (before + paths[i] + after);
        assert(text =~= (head + before) + paths[i] + after);
    }
}

/// A source that is there is found, by its exact path and nothing like it.
pub proof fn sources_are_found_by_their_path(
    paths: Seq<Seq<char>>,
    wanted: Seq<char>,
    r: Result<usize, CliError>,
)
    requires
        is_source(paths, wanted, r),
    ensures
        paths.contains(wanted) <==> r is Ok,
        r matches Ok(i) ==> i < paths.len() && paths[i as int] == wanted,
        r matches Err(e) ==> e.code() == 20,
{
    if let Ok(i) = r {
        assert(paths[i as int] == wanted);
    }
}

/// The list holds every path once and in order, and nothing else but the heading
/// of a table.
pub proof fn listings_hold_the_paths(paths: Seq<Seq<char>>, i: int)
    requires
        0 <= i < paths.len(),
    ensures
        listing(paths, false).len() == paths.len(),
        listing(paths, false)[i] == paths[i],
        listing(paths, true).len() == paths.len() + 1,
        listing(paths, true)[0] == "path"@,
        listing(paths, true)[i + 1] == paths[i],
{
}

}
