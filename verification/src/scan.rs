//! Finding Crazyflies and choosing one of them.
use vstd::prelude::*;

use crate::cli::{missing, require_arg};
use crate::config::Config;
use crate::error::{Cause, CauseView, CliError, ErrorView};
use crate::number::{decimal, decimal_of};
use crate::text::{
    concat, contains_text, lemma_filter, lemma_filter_single, lemma_filter_unique, opt_text,
    starts_with, texts,
};

verus! {

// ---- Scanning --------------------------------------------------------------

/// The addresses to scan: the one that was given, or the configured ones.
pub open spec fn scanned_addresses(
    given: Option<Seq<char>>,
    configured: Seq<Seq<char>>,
) -> Seq<Seq<char>> {
    match given {
        Some(address) => seq![address],
        None => configured,
    }
}

/// The addresses to scan.
pub fn addresses_to_scan(given: &Option<String>, config: &Config) -> (r: Vec<String>)
    ensures
        texts(r@) == scanned_addresses(opt_text(*given), texts(config.addresses@)),
{
    let mut list: Vec<String> = Vec::new();
    match given {
        Some(address) => {
            list.push(address.clone());
            assert(texts(list@) =~= seq![address@]);
        },
        None => {
            let mut i: usize = 0;
            while i < config.addresses.len()
                invariant
                    i <= config.addresses.len(),
                    list.len() == i,
                    forall|j: int|
                        0 <= j < i ==> #[trigger] list@[j]@ == config.addresses@[j]@,
                decreases config.addresses.len() - i,
            {
                list.push(config.addresses[i].clone());
                i += 1;
            }
            assert(texts(list@) =~= texts(config.addresses@));
        },
    }
    list
}

/// The links found so far with those of one more scan, each link once, where it
/// was first seen.
pub open spec fn merged(found: Seq<Seq<char>>, scanned: Seq<Seq<char>>) -> Seq<Seq<char>>
    decreases scanned.len(),
{
    if scanned.len() == 0 {
        found
    } else {
        let before = merged(found, scanned.drop_last());
        if before.contains(scanned.last()) {
            before
        } else {
            before.push(scanned.last())
        }
    }
}

/// Adds the links of one scan to those found so far.
pub fn merge_found(found: &mut Vec<String>, scanned: &[String])
    ensures
        texts(final(found)@) == merged(texts(old(found)@), texts(scanned@)),
{
    let ghost all = texts(scanned@);
    let ghost start = texts(found@);
    let mut i: usize = 0;
    assert(all.take(0) =~= Seq::empty());
    while i < scanned.len()
        invariant
            i <= scanned.len(),
            all == texts(scanned@),
            texts(found@) == merged(start, all.take(i as int)),
        decreases scanned.len() - i,
    {
        let ghost before = texts(found@);
        assert(all.take(i + 1).drop_last() =~= all.take(i as int));
        assert(all[i as int] == scanned@[i as int]@);
        if !contains_text(found.as_slice(), scanned[i].as_str()) {
            found.push(scanned[i].clone());
            assert(texts(found@) =~= before.push(all[i as int]));
        }
        i += 1;
    }
    assert(all.take(i as int) =~= all);
}

/// The lines that report the links that were found.
pub open spec fn scan_listing(found: Seq<Seq<char>>) -> Seq<Seq<char>> {
    found.map_values(|uri: Seq<char>| "> "@ + uri)
}

/// The lines that report the links that were found, unless they are shown as a
/// table.
pub fn scan_lines(found: &[String]) -> (lines: Vec<String>)
    ensures
        texts(lines@) == scan_listing(texts(found@)),
{
    let mut lines: Vec<String> = Vec::new();
    let mut i: usize = 0;
    while i < found.len()
        invariant
            i <= found.len(),
            lines.len() == i,
            forall|j: int| 0 <= j < i ==> #[trigger] lines@[j]@ == "> "@ + found@[j]@,
        decreases found.len() - i,
    {
        lines.push(concat("> ", found[i].as_str()));
        i += 1;
    }
    assert(texts(lines@) =~= scan_listing(texts(found@)));
    lines
}

// ---- Choosing --------------------------------------------------------------

/// The USB links among those found.
pub open spec fn usb_links(found: Seq<Seq<char>>) -> Seq<Seq<char>> {
    found.filter(|uri: Seq<char>| "usb://"@.is_prefix_of(uri))
}

/// The one Crazyflie on USB, which must be the only one there.
pub open spec fn usb_pick(found: Seq<Seq<char>>) -> Result<Seq<char>, CauseView> {
    let usb = usb_links(found);
    if usb.len() == 1 {
        Ok(usb[0])
    } else if usb.len() == 0 {
        Err(CauseView::Cli(ErrorView::Connection("no USB Crazyflies found"@)))
    } else {
        Err(
            CauseView::Other(
                "Expected exactly one Crazyflie on USB, found "@ + decimal_of(usb.len()),
            ),
        )
    }
}

/// The one Crazyflie on USB, which must be the only one there.
pub fn pick_usb(found: &[String]) -> (r: Result<String, Cause>)
    ensures
        (match r {
            Ok(uri) => Ok(uri@),
            Err(e) => Err(e@),
        }) == usb_pick(texts(found@)),
{
    let ghost all = texts(found@);
    let ghost pred = |uri: Seq<char>| "usb://"@.is_prefix_of(uri);
    let mut first: usize = 0;
    let mut count: usize = 0;
    let mut i: usize = 0;
    assert(all.take(0).filter(pred) =~= Seq::empty()) by {
        reveal(Seq::filter);
    }
    while i < found.len()
        invariant
            count <= i <= found.len(),
            all == texts(found@),
            pred == |uri: Seq<char>| "usb://"@.is_prefix_of(uri),
            count == all.take(i as int).filter(pred).len(),
            count > 0 ==> first < found.len() && all[first as int] == all.take(i as int).filter(
                pred,
            )[0],
        decreases found.len() - i,
    {
        proof {
            reveal(Seq::filter);
            assert(all.take(i + 1).drop_last() =~= all.take(i as int));
            assert(all[i as int] == found@[i as int]@);
        }
        if starts_with(found[i].as_str(), "usb://") {
            if count == 0 {
                first = i;
            }
            count += 1;
        }
        i += 1;
    }
    assert(all.take(i as int) =~= all);
    if count == 0 {
        Err(Cause::Cli(CliError::Connection("no USB Crazyflies found".to_owned())))
    } else if count == 1 {
        Ok(found[first].clone())
    } else {
        let number = decimal(count as u64);
        Err(Cause::Other(concat("Expected exactly one Crazyflie on USB, found ", number.as_str())))
    }
}

/// The link to select among those found: the only one where it is to be taken
/// without asking, and nothing where the user is to be asked.
pub open spec fn link_choice(found: Seq<Seq<char>>, auto: bool, non_interactive: bool) -> Result<
    Option<Seq<char>>,
    CauseView,
> {
    if found.len() == 0 {
        Err(CauseView::Cli(ErrorView::Connection("no Crazyflies found on configured addresses"@)))
    } else if auto {
        if found.len() == 1 {
            Ok(Some(found[0]))
        } else {
            Err(
                CauseView::Other(
                    "Expected exactly one Crazyflie, found "@ + decimal_of(found.len()),
                ),
            )
        }
    } else if non_interactive {
        Err(CauseView::Cli(missing("--auto"@)))
    } else {
        Ok(None)
    }
}

/// The link to select among those found, if that can be told without asking.
pub fn choose_link(found: &[String], auto: bool, non_interactive: bool) -> (r: Result<
    Option<String>,
    Cause,
>)
    ensures
        (match r {
            Ok(uri) => Ok(opt_text(uri)),
            Err(e) => Err(e@),
        }) == link_choice(texts(found@), auto, non_interactive),
{
    assert(texts(found@).len() == found@.len());
    if found.len() == 0 {
        return Err(
            Cause::Cli(
                CliError::Connection("no Crazyflies found on configured addresses".to_owned()),
            ),
        );
    }
    if auto {
        if found.len() != 1 {
            let number = decimal(found.len() as u64);
            return Err(
                Cause::Other(concat("Expected exactly one Crazyflie, found ", number.as_str())),
            );
        }
        return Ok(Some(found[0].clone()));
    }
    match require_arg(non_interactive, "--auto") {
        Ok(_) => Ok(None),
        Err(e) => Err(Cause::Cli(e)),
    }
}

// ---- Laws ------------------------------------------------------------------

/// Merging a scan keeps what was found, in its order, and adds exactly the links
/// of the scan.
pub proof fn merging_adds_exactly_the_scan(
    found: Seq<Seq<char>>,
    scanned: Seq<Seq<char>>,
    uri: Seq<char>,
)
    ensures
        found.is_prefix_of(merged(found, scanned)),
        merged(found, scanned).contains(uri) <==> found.contains(uri) || scanned.contains(uri),
    decreases scanned.len(),
{
    if scanned.len() == 0 {
        assert(found =~= found.subrange(0, found.len() as int));
    } else {
        let front = scanned.drop_last();
        let before = merged(found, front);
        merging_adds_exactly_the_scan(found, front, uri);
        assert(scanned.contains(uri) <==> front.contains(uri) || uri == scanned.last()) by {
            if front.contains(uri) {
                let i = choose|i: int| 0 <= i < front.len() && front[i] == uri;
                assert(scanned[i] == uri);
            }
            if uri == scanned.last() {
                assert(scanned[scanned.len() - 1] == uri);
            }
            if scanned.contains(uri) && uri != scanned.last() {
                let i = choose|i: int| 0 <= i < scanned.len() && scanned[i] == uri;
                assert(front[i] == uri);
            }
        }
        if !before.contains(scanned.last()) {
            let after = before.push(scanned.last());
            assert(found =~= after.subrange(0, found.len() as int));
            if before.contains(uri) {
                let i = choose|i: int| 0 <= i < before.len() && before[i] == uri;
                assert(after[i] == uri);
            }
            if uri == scanned.last() {
                assert(after[before.len() as int] == uri);
            }
            if after.contains(uri) && uri != scanned.last() {
                let i = choose|i: int| 0 <= i < after.len() && after[i] == uri;
                assert(before[i] == uri);
            }
        }
    }
}

/// Merging a scan lists no link twice.
pub proof fn no_link_is_listed_twice(found: Seq<Seq<char>>, scanned: Seq<Seq<char>>)
    requires
        found.no_duplicates(),
    ensures
        merged(found, scanned).no_duplicates(),
    decreases scanned.len(),
{
    if scanned.len() > 0 {
        no_link_is_listed_twice(found, scanned.drop_last());
    }
}

/// What is found by scanning one address after the other.
pub open spec fn found_by(scans: Seq<Seq<Seq<char>>>) -> Seq<Seq<char>>
    decreases scans.len(),
{
    if scans.len() == 0 {
        Seq::empty()
    } else {
        merged(found_by(scans.drop_last()), scans.last())
    }
}

/// However many addresses are scanned, every link that one of the scans gave is
/// listed, once, and nothing else is.
pub proof fn scans_list_every_link_once(scans: Seq<Seq<Seq<char>>>, uri: Seq<char>)
    ensures
        found_by(scans).no_duplicates(),
        found_by(scans).contains(uri) <==> exists|i: int|
            0 <= i < scans.len() && (#[trigger] scans[i]).contains(uri),
    decreases scans.len(),
{
    if scans.len() > 0 {
        let front = scans.drop_last();
        scans_list_every_link_once(front, uri);
        no_link_is_listed_twice(found_by(front), scans.last());
        merging_adds_exactly_the_scan(found_by(front), scans.last(), uri);
        if found_by(front).contains(uri) {
            let i = choose|i: int| 0 <= i < front.len() && (#[trigger] front[i]).contains(uri);
            assert(scans[i].contains(uri));
        }
        if scans.last().contains(uri) {
            assert(scans[scans.len() - 1].contains(uri));
        }
        if exists|i: int| 0 <= i < scans.len() && (#[trigger] scans[i]).contains(uri) {
            let i = choose|i: int| 0 <= i < scans.len() && (#[trigger] scans[i]).contains(uri);
            if i < front.len() {
                assert(front[i].contains(uri));
            }
        }
    }
}

/// The Crazyflie that is picked on USB is one of those found, and is on USB.
pub proof fn picked_link_is_on_usb(found: Seq<Seq<char>>)
    requires
        usb_links(found).len() == 1,
    ensures
        found.contains(usb_links(found)[0]),
        "usb://"@.is_prefix_of(usb_links(found)[0]),
{
    let usb = usb_links(found);
    assert(usb.contains(usb[0]));
    lemma_filter(found, |uri: Seq<char>| "usb://"@.is_prefix_of(uri), usb[0]);
}

/// The link that is picked for USB begins with `usb://`, is one of those found,
/// and is the only one found that does: no other position holds a USB link.
pub proof fn usb_pick_is_the_only_usb_link(found: Seq<Seq<char>>, i: int, j: int)
    requires
        0 <= i < found.len(),
        0 <= j < found.len(),
    ensures
        usb_pick(found) matches Ok(uri) ==> {
            &&& "usb://"@.is_prefix_of(uri)
            &&& found.contains(uri)
            &&& "usb://"@.is_prefix_of(found[i]) ==> found[i] == uri
            &&& "usb://"@.is_prefix_of(found[i]) && "usb://"@.is_prefix_of(found[j]) ==> i == j
        },
{
    let pred = |uri: Seq<char>| "usb://"@.is_prefix_of(uri);
    if usb_pick(found) is Ok {
        let k = lemma_filter_single(found, pred);
        assert(found[k] == usb_links(found)[0]);
        assert(pred(found[i]) ==> i == k);
        assert(pred(found[j]) ==> j == k);
    }
}

/// A USB link that is the only one among those found is picked, wherever it
/// stands.
pub proof fn lone_usb_link_is_picked(found: Seq<Seq<char>>, i: int)
    requires
        0 <= i < found.len(),
        "usb://"@.is_prefix_of(found[i]),
        forall|j: int|
            0 <= j < found.len() && "usb://"@.is_prefix_of(#[trigger] found[j]) ==> j == i,
    ensures
        usb_pick(found) == Ok::<Seq<char>, CauseView>(found[i]),
{
    lemma_filter_unique(found, |uri: Seq<char>| "usb://"@.is_prefix_of(uri), i);
}

/// Without a USB link the selection fails as a connection does, and with several
/// it fails without a class.
pub proof fn unclear_usb_links_are_refused(found: Seq<Seq<char>>)
    ensures
        (forall|i: int| 0 <= i < found.len() ==> !"usb://"@.is_prefix_of(#[trigger] found[i]))
            <==> usb_pick(found) matches Err(CauseView::Cli(ErrorView::Connection(_))),
        (exists|i: int, j: int|
            0 <= i < j < found.len() && "usb://"@.is_prefix_of(#[trigger] found[i])
                && "usb://"@.is_prefix_of(#[trigger] found[j])) ==> usb_pick(found)
            matches Err(CauseView::Other(_)),
{
    let pred = |uri: Seq<char>| "usb://"@.is_prefix_of(uri);
    let usb = usb_links(found);
    if usb.len() > 0 {
        assert(usb.contains(usb[0]));
        lemma_filter(found, pred, usb[0]);
        let i = choose|i: int| 0 <= i < found.len() && found[i] == usb[0];
        assert("usb://"@.is_prefix_of(found[i]));
    }
    if usb.len() == 0 {
        assert forall|i: int| 0 <= i < found.len() implies !"usb://"@.is_prefix_of(
            #[trigger] found[i],
        ) by {
            assert(found.contains(found[i]));
            lemma_filter(found, pred, found[i]);
        }
    }
    if usb.len() == 1 {
        let k = lemma_filter_single(found, pred);
        assert forall|i: int, j: int|
            0 <= i < j < found.len() && "usb://"@.is_prefix_of(#[trigger] found[i]) implies !(
        "usb://"@.is_prefix_of(#[trigger] found[j])) by {
            assert(pred(found[i]) ==> i == k);
            assert(pred(found[j]) ==> j == k);
        }
    }
}

/// Without USB, nothing found is a failed connection. Of several links one is
/// taken only by the user: where one must be taken without asking, or nobody can
/// be asked, the selection fails.
pub proof fn links_are_chosen_by_the_user(found: Seq<Seq<char>>, auto: bool, non_interactive: bool)
    ensures
        found.len() == 0 <==> link_choice(found, auto, non_interactive) matches Err(
            CauseView::Cli(ErrorView::Connection(_)),
        ),
        link_choice(found, auto, non_interactive) matches Ok(None) <==> found.len() > 0 && !auto
            && !non_interactive,
        link_choice(found, auto, non_interactive) matches Ok(Some(uri)) ==> auto && found
            == seq![uri],
        auto && found.len() == 1 ==> link_choice(found, auto, non_interactive) matches Ok(Some(_)),
        auto && found.len() > 1 ==> link_choice(found, auto, non_interactive) matches Err(
            CauseView::Other(_),
        ),
        !auto && non_interactive && found.len() > 0 ==> link_choice(found, auto, non_interactive)
            matches Err(CauseView::Cli(ErrorView::MissingArg(_))),
{
    if found.len() == 1 {
        assert(found =~= seq![found[0]]);
    }
}

/// An address that was given is scanned alone, and without one all configured
/// ones are, in their order.
pub proof fn given_addresses_go_first(given: Seq<char>, configured: Seq<Seq<char>>)
    ensures
        scanned_addresses(Some(given), configured).len() == 1,
        scanned_addresses(Some(given), configured)[0] == given,
        scanned_addresses(None, configured) == configured,
{
}

/// Scans are merged one after the other, link by link: a new link comes last, and
/// a known one changes nothing.
pub proof fn scans_are_merged_link_by_link(
    found: Seq<Seq<char>>,
    a: Seq<Seq<char>>,
    b: Seq<Seq<char>>,
    uri: Seq<char>,
)
    ensures
        merged(found, a + b) == merged(merged(found, a), b),
        found.contains(uri) ==> merged(found, seq![uri]) == found,
        !found.contains(uri) ==> merged(found, seq![uri]) == found.push(uri),
    decreases b.len(),
{
    if b.len() == 0 {
        assert(a + b =~= a);
    } else {
        scans_are_merged_link_by_link(found, a, b.drop_last(), uri);
        assert((a + b).drop_last() =~= a + b.drop_last());
    }
    assert(seq![uri].drop_last() =~= Seq::empty());
    assert(merged(found, seq![uri].drop_last()) == found);
}

/// Every link that was found has a line of its own, which ends in the link.
pub proof fn found_links_are_listed(found: Seq<Seq<char>>, i: int)
    requires
        0 <= i < found.len(),
    ensures
        scan_listing(found).len() == found.len(),
        scan_listing(found)[i].skip(2) == found[i],
        scan_listing(found)[i].take(2) == "> "@,
{
    reveal_strlit("> ");
    assert(("> "@ + found[i]).skip(2) =~= found[i]);
    assert(("> "@ + found[i]).take(2) =~= "> "@);
}

}
