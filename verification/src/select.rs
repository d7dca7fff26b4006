//! Selecting the Crazyflie for later commands, step by step. Each step is carried
//! out elsewhere and reported back.
use vstd::prelude::*;

use crate::config::{link_uri, Config};
use crate::eeprom::{
    config_memory_check, radio_links_name_their_settings, radio_speed_code, radio_uri, radio_uri_of,
    single_config_memory,
};
use crate::error::{chain_code, classified_code, device_code, Cause, CauseView};
use crate::number::{bytes_hex, decimal_of};
use crate::scan::{
    addresses_to_scan, choose_link, found_by, link_choice, lone_usb_link_is_picked, pick_usb,
    scanned_addresses, usb_pick, usb_pick_is_the_only_usb_link,
};
use crate::text::{opt_text, split, texts};

verus! {

/// How the Crazyflie is selected.
#[derive(Debug, Clone, Copy)]
pub struct SelectOptions {
    /// Take the radio settings from the Crazyflie on USB.
    pub from_usb: bool,
    /// Take the only Crazyflie without asking.
    pub auto: bool,
    pub non_interactive: bool,
}

/// The radio settings of a Crazyflie.
pub struct RadioSettings {
    pub channel: u8,
    pub speed: crazyflie_lib::subsystems::memory::RadioSpeed,
    pub address: [u8; 5],
}

/// What is done next.
pub enum SelectStep {
    /// Scan these addresses and merge what is found.
    Scan(Vec<String>),
    /// Connect to this link and count its configuration memories.
    Connect(String),
    /// Read the radio settings from the configuration memory.
    ReadRadio,
    /// Close the connection, which is no longer needed, before this link is kept.
    Release(String),
    /// Let the user pick one of these links.
    Ask(Vec<String>),
    /// Keep this link in the configuration.
    Keep(String),
    Fail(Cause),
}

/// What came of a step.
pub enum SelectEvent {
    /// The links that were found.
    Scanned(Vec<String>),
    /// How many configuration memories the Crazyflie has.
    Connected(usize),
    Radio(RadioSettings),
    Released,
    /// The link that the user picked, if any.
    Picked(Option<String>),
}

/// The addresses that are scanned for a selection. The Crazyflie on USB is found
/// whatever address is scanned.
pub open spec fn first_scan(
    from_usb: bool,
    address: Option<Seq<char>>,
    configured: Seq<Seq<char>>,
) -> Seq<Seq<char>> {
    if from_usb {
        seq!["E7E7E7E7E7"@]
    } else {
        scanned_addresses(address, configured)
    }
}

/// The first step of a selection.
pub fn select_start(options: SelectOptions, address: &Option<String>, config: &Config) -> (step:
    SelectStep)
    ensures
        step matches SelectStep::Scan(list) && texts(list@) == first_scan(
            options.from_usb,
            opt_text(*address),
            texts(config.addresses@),
        ),
{
    if options.from_usb {
        let mut list: Vec<String> = Vec::new();
        list.push("E7E7E7E7E7".to_owned());
        assert(texts(list@) =~= seq!["E7E7E7E7E7"@]);
        SelectStep::Scan(list)
    } else {
        SelectStep::Scan(addresses_to_scan(address, config))
    }
}

/// The step that follows. A step is followed only by a report on itself;
/// otherwise it stands.
pub fn select_next(step: SelectStep, event: SelectEvent, options: SelectOptions) -> (next: SelectStep)
    ensures
        select_follows(step, event, options, next),
{
    match (step, event) {
        (SelectStep::Scan(_), SelectEvent::Scanned(found)) => if options.from_usb {
            match pick_usb(found.as_slice()) {
                Ok(uri) => SelectStep::Connect(uri),
                Err(e) => SelectStep::Fail(e),
            }
        } else {
            match choose_link(found.as_slice(), options.auto, options.non_interactive) {
                Ok(Some(uri)) => SelectStep::Keep(uri),
                Ok(None) => SelectStep::Ask(found),
                Err(e) => SelectStep::Fail(e),
            }
        },
        (SelectStep::Connect(_), SelectEvent::Connected(count)) => {
            match single_config_memory(count, false) {
                Ok(_) => SelectStep::ReadRadio,
                Err(e) => SelectStep::Fail(e),
            }
        },
        (SelectStep::ReadRadio, SelectEvent::Radio(r)) => {
            SelectStep::Release(radio_uri(r.channel, &r.speed, &r.address))
        },
        (SelectStep::Release(uri), SelectEvent::Released) => SelectStep::Keep(uri),
        (SelectStep::Ask(_), SelectEvent::Picked(pick)) => match pick {
            Some(uri) => SelectStep::Keep(uri),
            None => SelectStep::Fail(Cause::Other("No Crazyflie selected".to_owned())),
        },
        (step, _) => step,
    }
}

/// Whether `next` is the step that follows.
pub open spec fn select_follows(
    step: SelectStep,
    event: SelectEvent,
    options: SelectOptions,
    next: SelectStep,
) -> bool {
    match (step, event) {
        (SelectStep::Scan(_), SelectEvent::Scanned(found)) => if options.from_usb {
            match usb_pick(texts(found@)) {
                Ok(usb) => next matches SelectStep::Connect(uri) && uri@ == usb,
                Err(why) => next matches SelectStep::Fail(e) && e@ == why,
            }
        } else {
            match link_choice(texts(found@), options.auto, options.non_interactive) {
                Ok(Some(link)) => next matches SelectStep::Keep(uri) && uri@ == link,
                Ok(None) => next == SelectStep::Ask(found),
                Err(why) => next matches SelectStep::Fail(e) && e@ == why,
            }
        },
        (SelectStep::Connect(_), SelectEvent::Connected(count)) => match config_memory_check(
            count as nat,
            false,
        ) {
            Ok(_) => next is ReadRadio,
            Err(why) => next matches SelectStep::Fail(e) && e@ == why,
        },
        (SelectStep::ReadRadio, SelectEvent::Radio(r)) => {
            next matches SelectStep::Release(uri) && uri@ == radio_uri_of(
                r.channel,
                radio_speed_code(r.speed),
                r.address@,
            )
        },
        (SelectStep::Release(uri), SelectEvent::Released) => next == SelectStep::Keep(uri),
        (SelectStep::Ask(_), SelectEvent::Picked(Some(uri))) => next == SelectStep::Keep(uri),
        (SelectStep::Ask(_), SelectEvent::Picked(None)) => next matches SelectStep::Fail(e)
            && e@ == CauseView::Other("No Crazyflie selected"@),
        (step, _) => next == step,
    }
}

/// What a step leaves to be done.
pub enum SelectEnd {
    /// This link was kept; the configuration is to be written out.
    Kept(String),
    Failed(Cause),
    /// The selection goes on with this step.
    Open(SelectStep),
}

/// What a step makes of the configuration: it changes where a link is kept, and
/// nowhere else.
pub open spec fn concluded(step: SelectStep, before: Config, end: SelectEnd, after: Config) -> bool {
    match step {
        SelectStep::Keep(uri) => (end matches SelectEnd::Kept(kept) && kept@ == uri@)
            && before.keeps(uri, after),
        SelectStep::Fail(cause) => end == SelectEnd::Failed(cause) && after == before,
        open => end == SelectEnd::Open(open) && after == before,
    }
}

/// Ends a selection at its last step, and hands back any other step.
pub fn conclude(step: SelectStep, config: &mut Config) -> (end: SelectEnd)
    ensures
        concluded(step, *old(config), end, *final(config)),
{
    match step {
        SelectStep::Keep(uri) => {
            let kept = uri.clone();
            config.keep_link(uri);
            SelectEnd::Kept(kept)
        },
        SelectStep::Fail(cause) => SelectEnd::Failed(cause),
        open => SelectEnd::Open(open),
    }
}

// ---- Laws ------------------------------------------------------------------

/// Whether the connection that is made on USB is in use.
pub open spec fn holds_connection(step: SelectStep) -> bool {
    step is ReadRadio || step is Release
}

/// A link is kept only when no connection is open: the radio settings are read,
/// then the connection is released, then the link that they make is kept.
pub proof fn links_are_kept_after_release(
    step: SelectStep,
    event: SelectEvent,
    options: SelectOptions,
    next: SelectStep,
)
    requires
        select_follows(step, event, options, next),
    ensures
        next is Keep && !(step is Keep) ==> match step {
            SelectStep::Release(uri) => event is Released && next->Keep_0 == uri,
            SelectStep::Ask(_) => event matches SelectEvent::Picked(Some(uri)) && next->Keep_0
                == uri,
            _ => step is Scan && !options.from_usb,
        },
        next is Release && !(step is Release) ==> step is ReadRadio && event is Radio,
        holds_connection(step) ==> holds_connection(next) || next is Keep,
{
}

/// Where the Crazyflie on USB is asked, the user is not.
pub proof fn usb_selection_asks_nothing(
    step: SelectStep,
    event: SelectEvent,
    options: SelectOptions,
    next: SelectStep,
)
    requires
        options.from_usb,
        !(step is Ask),
        select_follows(step, event, options, next),
    ensures
        !(next is Ask),
{
}

/// Nothing is asked of a user who is not there.
pub proof fn unattended_selection_asks_nothing(
    step: SelectStep,
    event: SelectEvent,
    options: SelectOptions,
    next: SelectStep,
)
    requires
        options.non_interactive,
        !(step is Ask),
        select_follows(step, event, options, next),
    ensures
        !(next is Ask),
{
}

/// A link that is kept without asking and without USB is the only one that was
/// found.
pub proof fn automatic_selection_is_unambiguous(
    found: Seq<Seq<char>>,
    non_interactive: bool,
)
    ensures
        link_choice(found, true, non_interactive) matches Ok(Some(uri)) ==> found == seq![uri],
        !(link_choice(found, true, non_interactive) matches Ok(None)),
{
    if link_choice(found, true, non_interactive) is Ok {
        assert(found =~= seq![found[0]]);
    }
}

/// An automatic selection over any number of scanned addresses. Where they gave
/// one link, that link is kept, the rest of the configuration stays, and later
/// commands connect to it; where they gave none, the exit code is 10, where they
/// gave several, it is 1, and the configuration stays as it is.
pub proof fn automatic_selection_is_kept(
    scanned: Vec<String>,
    scans: Seq<Seq<Seq<char>>>,
    found: Vec<String>,
    options: SelectOptions,
    next: SelectStep,
    before: Config,
    end: SelectEnd,
    after: Config,
)
    requires
        !options.from_usb,
        options.auto,
        texts(found@) == found_by(scans),
        select_follows(SelectStep::Scan(scanned), SelectEvent::Scanned(found), options, next),
        concluded(next, before, end, after),
    ensures
        found_by(scans).len() == 1 ==> {
            &&& end is Kept
            &&& before.keeps(after.uri, after)
            &&& after.uri@ == found_by(scans)[0]
            &&& after.link(None) == link_uri(found_by(scans)[0], before.timeout_ms)
        },
        found_by(scans).len() == 0 ==> (end matches SelectEnd::Failed(cause) && chain_code(
            seq![cause],
        ) == 10 && after == before),
        found_by(scans).len() > 1 ==> (end matches SelectEnd::Failed(cause) && chain_code(
            seq![cause],
        ) == 1 && after == before),
{
    if let SelectEnd::Failed(cause) = end {
        reveal_with_fuel(classified_code, 2);
        reveal_with_fuel(device_code, 2);
        assert(seq![cause].skip(1) =~= Seq::empty());
    }
}

/// A selection that fails, or has not come to its end, leaves the configuration
/// as it is; one that keeps a link changes nothing else.
pub proof fn only_kept_links_change_the_configuration(
    step: SelectStep,
    before: Config,
    end: SelectEnd,
    after: Config,
)
    requires
        concluded(step, before, end, after),
    ensures
        end is Kept <==> step is Keep,
        !(end is Kept) ==> after == before,
        end matches SelectEnd::Kept(uri) ==> before.keeps(after.uri, after) && after.uri@ == uri@
            && after.link(None) == link_uri(uri@, before.timeout_ms),
{
}

/// What a selection from USB connects to is on USB, was found, and is the only
/// link found that is on USB.
pub proof fn usb_selection_connects_to_usb(
    scanned: Vec<String>,
    found: Vec<String>,
    options: SelectOptions,
    next: SelectStep,
    i: int,
)
    requires
        options.from_usb,
        select_follows(SelectStep::Scan(scanned), SelectEvent::Scanned(found), options, next),
        0 <= i < found@.len(),
    ensures
        !(next is Keep),
        next matches SelectStep::Connect(uri) ==> {
            &&& "usb://"@.is_prefix_of(uri@)
            &&& texts(found@).contains(uri@)
            &&& "usb://"@.is_prefix_of(texts(found@)[i]) ==> texts(found@)[i] == uri@
        },
        "usb://"@.is_prefix_of(texts(found@)[i]) && (forall|j: int|
            0 <= j < found@.len() && "usb://"@.is_prefix_of(#[trigger] texts(found@)[j]) ==> j
                == i) ==> (next matches SelectStep::Connect(uri) && uri@ == texts(found@)[i]),
{
    usb_pick_is_the_only_usb_link(texts(found@), i, i);
    if "usb://"@.is_prefix_of(texts(found@)[i]) && (forall|j: int|
        0 <= j < found@.len() && "usb://"@.is_prefix_of(#[trigger] texts(found@)[j]) ==> j == i) {
        lone_usb_link_is_picked(texts(found@), i);
    }
}

/// A selection that is not from USB connects to nothing.
pub proof fn selection_without_usb_connects_to_nothing(
    scanned: Vec<String>,
    event: SelectEvent,
    options: SelectOptions,
    next: SelectStep,
)
    requires
        !options.from_usb,
        select_follows(SelectStep::Scan(scanned), event, options, next),
    ensures
        !(next is Connect) && !(next is ReadRadio) && !(next is Release),
{
}

/// The link that is kept after a selection from USB has the channel and the
/// address that were read from the Crazyflie.
pub proof fn radio_settings_make_the_link(
    radio: RadioSettings,
    options: SelectOptions,
    released: SelectStep,
    kept: SelectStep,
)
    requires
        select_follows(SelectStep::ReadRadio, SelectEvent::Radio(radio), options, released),
        select_follows(released, SelectEvent::Released, options, kept),
    ensures
        kept matches SelectStep::Keep(uri) && {
            let parts = split(uri@, '/');
            &&& parts.len() == 6
            &&& parts[0] == "radio:"@
            &&& parts[2] == "0"@
            &&& parts[3] == decimal_of(radio.channel as nat)
            &&& parts[5] == bytes_hex(radio.address@, true)
        },
{
    radio_links_name_their_settings(radio.channel, radio_speed_code(radio.speed), radio.address@);
}

/// The user picks among all links that were found, and what the user picks is
/// kept.
pub proof fn picked_links_are_kept(
    scanned: Vec<String>,
    found: Vec<String>,
    pick: String,
    options: SelectOptions,
    asked: SelectStep,
    next: SelectStep,
)
    requires
        !options.from_usb,
        !options.auto,
        !options.non_interactive,
        found@.len() > 0,
        select_follows(SelectStep::Scan(scanned), SelectEvent::Scanned(found), options, asked),
        select_follows(asked, SelectEvent::Picked(Some(pick)), options, next),
    ensures
        asked == SelectStep::Ask(found),
        next == SelectStep::Keep(pick),
{
    assert(texts(found@).len() == found@.len());
}

/// One address is scanned for USB; otherwise the given one, or the configured
/// ones.
pub proof fn selection_scans_the_wanted_addresses(
    given: Seq<char>,
    configured: Seq<Seq<char>>,
    address: Option<Seq<char>>,
)
    ensures
        first_scan(true, address, configured).len() == 1,
        first_scan(false, Some(given), configured).len() == 1,
        first_scan(false, Some(given), configured)[0] == given,
        first_scan(false, None, configured) == configured,
{
}

/// The radio settings are read exactly where the Crazyflie on USB has one
/// configuration memory.
pub proof fn radio_settings_need_one_memory(
    uri: String,
    count: usize,
    options: SelectOptions,
    next: SelectStep,
)
    requires
        select_follows(SelectStep::Connect(uri), SelectEvent::Connected(count), options, next),
    ensures
        next is ReadRadio <==> count == 1,
        next is Fail <==> count != 1,
{
}

}
