//! Flashing the controller of an expansion deck through a debug probe.
use vstd::prelude::*;

use crate::cli::{missing, require_arg};
use crate::console::stands_in;
use crate::error::{caused, Cause, CauseView};
use crate::memory::{offered_number, offered_number_is_read_back};
use crate::number::{bounded_value, decimal, decimal_of, unsigned_value};
use crate::text::bracketed;

verus! {

/// Where the deck description is stored in the flash of the deck controller.
pub const DECK_BINARY_ADDRESS: u64 = 0x0800_0000 + 1024 * 30;

/// A debug probe that is connected to the computer.
#[derive(Debug, Clone, PartialEq, Eq)]
pub struct ProbeInfo {
    pub identifier: String,
    pub vendor_id: u16,
    pub product_id: u16,
    pub serial_number: Option<String>,
}

/// The probe to use out of `count`: the one that was asked for, or the only one.
/// Nothing where the user is to be asked.
pub open spec fn probe_pick(count: usize, index: Option<usize>, non_interactive: bool) -> Result<
    Option<usize>,
    CauseView,
> {
    if count == 0 {
        Err(CauseView::Other("No probes found, cannot flash deck"@))
    } else {
        match index {
            Some(i) => if i < count {
                Ok(Some(i))
            } else {
                Err(CauseView::Other("Invalid probe index"@))
            },
            None => if count == 1 {
                Ok(Some(0usize))
            } else if non_interactive {
                Err(CauseView::Cli(missing("--probe-idx"@)))
            } else {
                Ok(None)
            },
        }
    }
}

/// The probe to use out of `count`, if that can be told without asking.
pub fn pick_probe(count: usize, index: Option<usize>, non_interactive: bool) -> (r: Result<
    Option<usize>,
    Cause,
>)
    ensures
        caused(r) == probe_pick(count, index, non_interactive),
{
    if count == 0 {
        return Err(Cause::Other("No probes found, cannot flash deck".to_owned()));
    }
    match index {
        Some(i) => if i < count {
            Ok(Some(i))
        } else {
            Err(Cause::Other("Invalid probe index".to_owned()))
        },
        None => if count == 1 {
            Ok(Some(0))
        } else {
            match require_arg(non_interactive, "--probe-idx") {
                Ok(_) => Ok(None),
                Err(e) => Err(Cause::Cli(e)),
            }
        },
    }
}

/// The line under which a probe is offered.
pub open spec fn probe_label_of(index: nat, p: ProbeInfo) -> Seq<char> {
    "["@ + decimal_of(index) + "] "@ + p.identifier@ + " ("@ + decimal_of(p.vendor_id as nat)
        + ":"@ + decimal_of(p.product_id as nat) + "-"@ + (match p.serial_number {
        Some(s) => s@,
        None => "N/A"@,
    }) + ")"@
}

/// The line under which a probe is offered.
pub fn probe_label(index: usize, p: &ProbeInfo) -> (label: String)
    ensures
        label@ == probe_label_of(index as nat, *p),
{
    let serial = match &p.serial_number {
        Some(s) => s.as_str(),
        None => "N/A",
    };
    "[".to_owned().concat(decimal(index as u64).as_str()).concat("] ").concat(
        p.identifier.as_str(),
    ).concat(" (").concat(decimal(p.vendor_id as u64).as_str()).concat(":").concat(
        decimal(p.product_id as u64).as_str(),
    ).concat("-").concat(serial).concat(")")
}

/// The position of the probe that an offered line leads to.
pub open spec fn probe_choice(line: Seq<char>) -> Result<usize, CauseView> {
    match bounded_value(bracketed(line), 10, usize::MAX as nat) {
        Some(n) => Ok(n as usize),
        None => Err(CauseView::Other("Failed to parse probe index"@)),
    }
}

/// The position of the probe that the user picked by its offered line.
pub fn chosen_probe(line: &str) -> (r: Result<usize, Cause>)
    ensures
        caused(r) == probe_choice(line@),
{
    match offered_number(line, usize::MAX as u64) {
        Some(n) => Ok(n as usize),
        None => Err(Cause::Other("Failed to parse probe index".to_owned())),
    }
}

// ---- Laws ------------------------------------------------------------------

/// Picking the line under which a probe is offered gives the probe's position.
pub proof fn picked_line_gives_its_probe(index: usize, p: ProbeInfo)
    ensures
        bounded_value(bracketed(probe_label_of(index as nat, p)), 10, usize::MAX as nat) == Some(
            index as nat,
        ),
{
    reveal_strlit("] ");
    reveal_strlit("]");
    reveal_strlit(" ");
    let rest = " "@ + p.identifier@ + " ("@ + decimal_of(p.vendor_id as nat) + ":"@ + decimal_of(
        p.product_id as nat,
    ) + "-"@ + (match p.serial_number {
        Some(s) => s@,
        None => "N/A"@,
    }) + ")"@;
    assert("] "@ =~= "]"@ + " "@);
    assert(probe_label_of(index as nat, p) =~= "["@ + decimal_of(index as nat) + "]"@ + rest);
    offered_number_is_read_back(index as nat, rest);
}

/// A probe that was asked for is used where there is one at its position, and
/// nothing else is then; the only probe is used where none was asked for; of
/// several one is used only after asking.
pub proof fn probes_are_used_as_asked(count: usize, index: Option<usize>, non_interactive: bool)
    ensures
        probe_pick(count, index, non_interactive) matches Ok(Some(i)) ==> i < count,
        index matches Some(i) ==> (i < count <==> probe_pick(count, index, non_interactive) == Ok::<
            Option<usize>,
            CauseView,
        >(Some(i))) && (i >= count <==> probe_pick(count, index, non_interactive) is Err),
        index is None && count == 1 ==> probe_pick(count, index, non_interactive) == Ok::<
            Option<usize>,
            CauseView,
        >(Some(0usize)),
        probe_pick(count, index, non_interactive) matches Ok(None) <==> index is None && count > 1
            && !non_interactive,
        index is None && count > 1 && non_interactive ==> (probe_pick(
            count,
            index,
            non_interactive,
        ) matches Err(CauseView::Cli(e)) && e is MissingArg),
        count == 0 ==> probe_pick(count, index, non_interactive) is Err,
{
}

/// The line of a probe leads back to it, and a line without a number in front
/// leads nowhere.
pub proof fn lines_lead_to_their_probes(index: usize, p: ProbeInfo, line: Seq<char>)
    ensures
        probe_choice(probe_label_of(index as nat, p)) == Ok::<usize, CauseView>(index),
        probe_choice(line) matches Ok(n) ==> unsigned_value(bracketed(line), 10) == Some(n as nat),
        unsigned_value(bracketed(line), 10) is None ==> probe_choice(line) is Err,
{
    picked_line_gives_its_probe(index, p);
}

/// The line of a probe tells what the probe is.
pub proof fn lines_tell_the_probe(index: nat, p: ProbeInfo)
    ensures
        stands_in(p.identifier@, probe_label_of(index, p)),
        stands_in(
            decimal_of(p.vendor_id as nat) + ":"@ + decimal_of(p.product_id as nat),
            probe_label_of(index, p),
        ),
        p.serial_number matches Some(s) ==> stands_in(s@, probe_label_of(index, p)),
{
    let head = "["@ + decimal_of(index) + "] "@;
    let ids = decimal_of(p.vendor_id as nat) + ":"@ + decimal_of(p.product_id as nat);
    let serial = match p.serial_number {
        Some(s) => s@,
        None => "N/A"@,
    };
    let label = probe_label_of(index, p);
    assert(label =~= head + p.identifier@ + (" ("@ + ids + "-"@ + serial + ")"@));
    assert(label =~= (head + p.identifier@ + " ("@) + ids + ("-"@ + serial + ")"@));
    assert(label =~= (head + p.identifier@ + " ("@ + ids + "-"@) + serial + ")"@);
}

}
