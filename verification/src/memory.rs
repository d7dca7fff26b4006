//! Memories of a Crazyflie: their types, how the command line refers to them and
//! how they are listed.
use vstd::prelude::*;

use crate::console::{lemma_neighbours_stand_in, lemma_stands_in, stands_in};
use crate::error::{caused, Cause, CauseView, CliError, ErrorView};
use crate::number::{
    bounded_value, bytes_are_two_digits_each, bytes_hex, decimal, decimal_of, digit_value, hex,
    hex_of, lemma_digits, parse_bounded, reading_undoes_writing, unsigned_value, write_bytes,
};
use crate::text::{
    bracketed, bracketed_chars, concat, lemma_filter, lemma_filter_appends, lemma_filter_index,
    lemma_filter_one, opt_text, split_first_piece, texts, without_brackets,
};

verus! {

// ---- Types of memory -------------------------------------------------------

/// The memory types that a Crazyflie reports.
#[derive(Debug, Clone, Copy, PartialEq, Eq, Structural)]
pub enum MemoryKind {
    EEPROMConfig,
    OneWire,
    DriverLed,
    Loco,
    Trajectory,
    Loco2,
    Lighthouse,
    MemoryTester,
    MicroSD,
    DriverLedTiming,
    App,
    DeckMemory,
    DeckMultiranger,
    DeckPaa3905,
    DeckCtrlDFU,
    DeckCtrl,
    /// A type that is not known here.
    UNKNOWN,
}

/// `MemoryType` of `crazyflie_lib`, of which nothing is seen inside.
#[verifier::external_type_specification]
#[verifier::external_body]
pub struct ExDeviceMemoryType(crazyflie_lib::subsystems::memory::MemoryType);

/// The number by which a Crazyflie reports a memory type.
pub uninterp spec fn memory_type_code(t: crazyflie_lib::subsystems::memory::MemoryType) -> u8;

/// The discriminant of `crazyflie_lib::subsystems::memory::MemoryType`. Claims
/// that it is the number by which the type is reported.
#[verifier::external_body]
fn code_of(t: &crazyflie_lib::subsystems::memory::MemoryType) -> (code: u8)
    ensures
        code == memory_type_code(*t),
{
    *t as u8
}

/// `MemoryType::try_from` of `crazyflie_lib`. Claims that it never fails, that a
/// number of a known type gives the type with that number, and that any other
/// number gives the type that stands for unknown ones.
#[verifier::external_body]
fn device_memory_type(code: u8) -> (t: Result<
    crazyflie_lib::subsystems::memory::MemoryType,
    crazyflie_lib::Error,
>)
    ensures
        t matches Ok(t) && memory_type_code(t) == MemoryKind::of_code(code).code(),
{
    crazyflie_lib::subsystems::memory::MemoryType::try_from(code)
}

impl MemoryKind {
    /// The number by which a Crazyflie reports this type.
    pub open spec fn code(self) -> u8 {
        match self {
            MemoryKind::EEPROMConfig => 0x00,
            MemoryKind::OneWire => 0x01,
            MemoryKind::DriverLed => 0x10,
            MemoryKind::Loco => 0x11,
            MemoryKind::Trajectory => 0x12,
            MemoryKind::Loco2 => 0x13,
            MemoryKind::Lighthouse => 0x14,
            MemoryKind::MemoryTester => 0x15,
            MemoryKind::MicroSD => 0x16,
            MemoryKind::DriverLedTiming => 0x17,
            MemoryKind::App => 0x18,
            MemoryKind::DeckMemory => 0x19,
            MemoryKind::DeckMultiranger => 0x1a,
            MemoryKind::DeckPaa3905 => 0x1b,
            MemoryKind::DeckCtrlDFU => 0x20,
            MemoryKind::DeckCtrl => 0x21,
            MemoryKind::UNKNOWN => 0xff,
        }
    }

    /// The type that a Crazyflie reports by the number `code`.
    pub open spec fn of_code(code: u8) -> MemoryKind {
        match code {
            0x00 => MemoryKind::EEPROMConfig,
            0x01 => MemoryKind::OneWire,
            0x10 => MemoryKind::DriverLed,
            0x11 => MemoryKind::Loco,
            0x12 => MemoryKind::Trajectory,
            0x13 => MemoryKind::Loco2,
            0x14 => MemoryKind::Lighthouse,
            0x15 => MemoryKind::MemoryTester,
            0x16 => MemoryKind::MicroSD,
            0x17 => MemoryKind::DriverLedTiming,
            0x18 => MemoryKind::App,
            0x19 => MemoryKind::DeckMemory,
            0x1a => MemoryKind::DeckMultiranger,
            0x1b => MemoryKind::DeckPaa3905,
            0x20 => MemoryKind::DeckCtrlDFU,
            0x21 => MemoryKind::DeckCtrl,
            _ => MemoryKind::UNKNOWN,
        }
    }

    /// The type that a Crazyflie reports by the number `code`.
    pub fn from_code(code: u8) -> (t: MemoryKind)
        ensures
            t == MemoryKind::of_code(code),
    {
        match code {
            0x00 => MemoryKind::EEPROMConfig,
            0x01 => MemoryKind::OneWire,
            0x10 => MemoryKind::DriverLed,
            0x11 => MemoryKind::Loco,
            0x12 => MemoryKind::Trajectory,
            0x13 => MemoryKind::Loco2,
            0x14 => MemoryKind::Lighthouse,
            0x15 => MemoryKind::MemoryTester,
            0x16 => MemoryKind::MicroSD,
            0x17 => MemoryKind::DriverLedTiming,
            0x18 => MemoryKind::App,
            0x19 => MemoryKind::DeckMemory,
            0x1a => MemoryKind::DeckMultiranger,
            0x1b => MemoryKind::DeckPaa3905,
            0x20 => MemoryKind::DeckCtrlDFU,
            0x21 => MemoryKind::DeckCtrl,
            _ => MemoryKind::UNKNOWN,
        }
    }

    /// The type of a memory as the device library gives it.
    pub fn of_device(t: &crazyflie_lib::subsystems::memory::MemoryType) -> (r: MemoryKind)
        ensures
            r == MemoryKind::of_code(memory_type_code(*t)),
    {
        MemoryKind::from_code(code_of(t))
    }

    /// The name under which the type is listed.
    pub open spec fn name_of(self) -> Seq<char> {
        match self {
            MemoryKind::EEPROMConfig => "EEPROMConfig"@,
            MemoryKind::OneWire => "OneWire"@,
            MemoryKind::DriverLed => "DriverLed"@,
            MemoryKind::Loco => "Loco"@,
            MemoryKind::Trajectory => "Trajectory"@,
            MemoryKind::Loco2 => "Loco2"@,
            MemoryKind::Lighthouse => "Lighthouse"@,
            MemoryKind::MemoryTester => "MemoryTester"@,
            MemoryKind::MicroSD => "MicroSD"@,
            MemoryKind::DriverLedTiming => "DriverLedTiming"@,
            MemoryKind::App => "App"@,
            MemoryKind::DeckMemory => "DeckMemory"@,
            MemoryKind::DeckMultiranger => "DeckMultiranger"@,
            MemoryKind::DeckPaa3905 => "DeckPaa3905"@,
            MemoryKind::DeckCtrlDFU => "DeckCtrlDFU"@,
            MemoryKind::DeckCtrl => "DeckCtrl"@,
            MemoryKind::UNKNOWN => "UNKNOWN"@,
        }
    }

    /// The name under which the type is listed.
    pub fn name(&self) -> (name: &'static str)
        ensures
            name@ == self.name_of(),
    {
        match self {
            MemoryKind::EEPROMConfig => "EEPROMConfig",
            MemoryKind::OneWire => "OneWire",
            MemoryKind::DriverLed => "DriverLed",
            MemoryKind::Loco => "Loco",
            MemoryKind::Trajectory => "Trajectory",
            MemoryKind::Loco2 => "Loco2",
            MemoryKind::Lighthouse => "Lighthouse",
            MemoryKind::MemoryTester => "MemoryTester",
            MemoryKind::MicroSD => "MicroSD",
            MemoryKind::DriverLedTiming => "DriverLedTiming",
            MemoryKind::App => "App",
            MemoryKind::DeckMemory => "DeckMemory",
            MemoryKind::DeckMultiranger => "DeckMultiranger",
            MemoryKind::DeckPaa3905 => "DeckPaa3905",
            MemoryKind::DeckCtrlDFU => "DeckCtrlDFU",
            MemoryKind::DeckCtrl => "DeckCtrl",
            MemoryKind::UNKNOWN => "UNKNOWN",
        }
    }
}

/// The memory types that the command line accepts.
#[derive(Debug, Clone, Copy, PartialEq, Eq, Structural)]
pub enum MemoryTypeArg {
    EepromConfig,
    OneWire,
    DriverLed,
    Loco,
    Trajectory,
    Loco2,
    Lighthouse,
    MemoryTester,
    MicroSd,
    DriverLedTiming,
    App,
    DeckMemory,
    DeckCtrlDfu,
    DeckCtrl,
    DeckMultiranger,
    DeckPaa3905,
}

impl MemoryTypeArg {
    /// The memory type that is meant.
    pub open spec fn meant(self) -> MemoryKind {
        match self {
            MemoryTypeArg::EepromConfig => MemoryKind::EEPROMConfig,
            MemoryTypeArg::OneWire => MemoryKind::OneWire,
            MemoryTypeArg::DriverLed => MemoryKind::DriverLed,
            MemoryTypeArg::Loco => MemoryKind::Loco,
            MemoryTypeArg::Trajectory => MemoryKind::Trajectory,
            MemoryTypeArg::Loco2 => MemoryKind::Loco2,
            MemoryTypeArg::Lighthouse => MemoryKind::Lighthouse,
            MemoryTypeArg::MemoryTester => MemoryKind::MemoryTester,
            MemoryTypeArg::MicroSd => MemoryKind::MicroSD,
            MemoryTypeArg::DriverLedTiming => MemoryKind::DriverLedTiming,
            MemoryTypeArg::App => MemoryKind::App,
            MemoryTypeArg::DeckMemory => MemoryKind::DeckMemory,
            MemoryTypeArg::DeckCtrlDfu => MemoryKind::DeckCtrlDFU,
            MemoryTypeArg::DeckCtrl => MemoryKind::DeckCtrl,
            MemoryTypeArg::DeckMultiranger => MemoryKind::DeckMultiranger,
            MemoryTypeArg::DeckPaa3905 => MemoryKind::DeckPaa3905,
        }
    }

    /// The device library's value for the memory type.
    pub fn to_lib(self) -> (t: crazyflie_lib::subsystems::memory::MemoryType)
        ensures
            memory_type_code(t) == self.meant().code(),
    {
        let code: u8 = match self {
            MemoryTypeArg::EepromConfig => 0x00,
            MemoryTypeArg::OneWire => 0x01,
            MemoryTypeArg::DriverLed => 0x10,
            MemoryTypeArg::Loco => 0x11,
            MemoryTypeArg::Trajectory => 0x12,
            MemoryTypeArg::Loco2 => 0x13,
            MemoryTypeArg::Lighthouse => 0x14,
            MemoryTypeArg::MemoryTester => 0x15,
            MemoryTypeArg::MicroSd => 0x16,
            MemoryTypeArg::DriverLedTiming => 0x17,
            MemoryTypeArg::App => 0x18,
            MemoryTypeArg::DeckMemory => 0x19,
            MemoryTypeArg::DeckCtrlDfu => 0x20,
            MemoryTypeArg::DeckCtrl => 0x21,
            MemoryTypeArg::DeckMultiranger => 0x1a,
            MemoryTypeArg::DeckPaa3905 => 0x1b,
        };
        device_memory_type(code).unwrap()
    }

    /// The name under which messages speak of the type.
    pub open spec fn name_of(self) -> Seq<char> {
        match self {
            MemoryTypeArg::EepromConfig => "EepromConfig"@,
            MemoryTypeArg::OneWire => "OneWire"@,
            MemoryTypeArg::DriverLed => "DriverLed"@,
            MemoryTypeArg::Loco => "Loco"@,
            MemoryTypeArg::Trajectory => "Trajectory"@,
            MemoryTypeArg::Loco2 => "Loco2"@,
            MemoryTypeArg::Lighthouse => "Lighthouse"@,
            MemoryTypeArg::MemoryTester => "MemoryTester"@,
            MemoryTypeArg::MicroSd => "MicroSd"@,
            MemoryTypeArg::DriverLedTiming => "DriverLedTiming"@,
            MemoryTypeArg::App => "App"@,
            MemoryTypeArg::DeckMemory => "DeckMemory"@,
            MemoryTypeArg::DeckCtrlDfu => "DeckCtrlDfu"@,
            MemoryTypeArg::DeckCtrl => "DeckCtrl"@,
            MemoryTypeArg::DeckMultiranger => "DeckMultiranger"@,
            MemoryTypeArg::DeckPaa3905 => "DeckPaa3905"@,
        }
    }

    /// The name under which messages speak of the type.
    pub fn name(&self) -> (name: &'static str)
        ensures
            name@ == self.name_of(),
    {
        match self {
            MemoryTypeArg::EepromConfig => "EepromConfig",
            MemoryTypeArg::OneWire => "OneWire",
            MemoryTypeArg::DriverLed => "DriverLed",
            MemoryTypeArg::Loco => "Loco",
            MemoryTypeArg::Trajectory => "Trajectory",
            MemoryTypeArg::Loco2 => "Loco2",
            MemoryTypeArg::Lighthouse => "Lighthouse",
            MemoryTypeArg::MemoryTester => "MemoryTester",
            MemoryTypeArg::MicroSd => "MicroSd",
            MemoryTypeArg::DriverLedTiming => "DriverLedTiming",
            MemoryTypeArg::App => "App",
            MemoryTypeArg::DeckMemory => "DeckMemory",
            MemoryTypeArg::DeckCtrlDfu => "DeckCtrlDfu",
            MemoryTypeArg::DeckCtrl => "DeckCtrl",
            MemoryTypeArg::DeckMultiranger => "DeckMultiranger",
            MemoryTypeArg::DeckPaa3905 => "DeckPaa3905",
        }
    }
}

// ---- Memories --------------------------------------------------------------

/// A memory that a Crazyflie reports.
#[derive(Debug, Clone, PartialEq, Eq)]
pub struct MemoryDevice {
    pub memory_id: u8,
    pub memory_type: MemoryKind,
    /// The size in bytes.
    pub size: u32,
    pub serial: Option<Vec<u8>>,
}

/// How the command line refers to a memory.
#[derive(Debug, Clone, Copy, PartialEq, Eq)]
pub enum MemoryRef {
    /// By its number.
    Id(u8),
    /// By its type, and by the position among the memories of that type.
    Type(MemoryTypeArg, Option<usize>),
}

/// The memories with the number `id`, in order.
pub open spec fn with_id(memories: Seq<MemoryDevice>, id: u8) -> Seq<MemoryDevice> {
    memories.filter(|m: MemoryDevice| m.memory_id == id)
}

/// The memories of type `t`, in order.
pub open spec fn of_type(memories: Seq<MemoryDevice>, t: MemoryKind) -> Seq<MemoryDevice> {
    memories.filter(|m: MemoryDevice| m.memory_type == t)
}

/// The memory that a reference means, or the error for a reference that means
/// none or more than one.
pub open spec fn resolution(memories: Seq<MemoryDevice>, reference: MemoryRef) -> Result<
    MemoryDevice,
    ErrorView,
> {
    match reference {
        MemoryRef::Id(id) => {
            let found = with_id(memories, id);
            if found.len() > 0 {
                Ok(found[0])
            } else {
                Err(ErrorView::NotFound("memory with ID "@ + decimal_of(id as nat)))
            }
        },
        MemoryRef::Type(t, instance) => {
            let found = of_type(memories, t.meant());
            if found.len() == 0 {
                Err(ErrorView::NotFound("memory of type "@ + t.name_of()))
            } else {
                match instance {
                    Some(i) => if i < found.len() {
                        Ok(found[i as int])
                    } else {
                        Err(ErrorView::InvalidValue(no_such_instance(i as nat, t, found.len())))
                    },
                    None => if found.len() == 1 {
                        Ok(found[0])
                    } else {
                        Err(ErrorView::InvalidValue(several_instances(t, found.len())))
                    },
                }
            }
        },
    }
}

/// The message for a position past the memories of a type.
pub open spec fn no_such_instance(i: nat, t: MemoryTypeArg, found: nat) -> Seq<char> {
    "instance "@ + decimal_of(i) + " of type "@ + t.name_of() + " out of range ("@ + decimal_of(
        found,
    ) + " found)"@
}

/// The message for a type with several memories and no position given.
pub open spec fn several_instances(t: MemoryTypeArg, found: nat) -> Seq<char> {
    "multiple memories of type "@ + t.name_of() + " ("@ + decimal_of(found)
        + " found), specify an instance with '"@ + t.name_of() + ":0'..'"@ + t.name_of() + ":"@
        + decimal_of((found - 1) as nat) + "'"@
}

/// The position of the first memory with the number `id`.
fn find_id(memories: &[MemoryDevice], id: u8) -> (found: Option<usize>)
    ensures
        found is Some <==> with_id(memories@, id).len() > 0,
        found matches Some(i) ==> i < memories@.len() && memories@[i as int] == with_id(
            memories@,
            id,
        )[0],
{
    let ghost pred = |m: MemoryDevice| m.memory_id == id;
    let mut found: Option<usize> = None;
    let mut i: usize = 0;
    assert(memories@.take(0).filter(pred) =~= Seq::empty()) by {
        reveal(Seq::filter);
    }
    while i < memories.len()
        invariant
            i <= memories.len(),
            pred == |m: MemoryDevice| m.memory_id == id,
            found is Some <==> memories@.take(i as int).filter(pred).len() > 0,
            found matches Some(k) ==> k < i && memories@[k as int] == memories@.take(
                i as int,
            ).filter(pred)[0],
        decreases memories.len() - i,
    {
        proof {
            reveal(Seq::filter);
            assert(memories@.take(i + 1).drop_last() =~= memories@.take(i as int));
        }
        if found.is_none() && memories[i].memory_id == id {
            found = Some(i);
        }
        i += 1;
    }
    assert(memories@.take(i as int) =~= memories@);
    found
}

/// How many memories of type `t` there are, and the position of the one that
/// has `n` of them in front.
fn find_type(memories: &[MemoryDevice], t: MemoryKind, n: usize) -> (r: (usize, Option<usize>))
    ensures
        r.0 == of_type(memories@, t).len(),
        r.1 is Some <==> n < of_type(memories@, t).len(),
        r.1 matches Some(i) ==> i < memories@.len() && memories@[i as int] == of_type(memories@, t)[
            n as int
        ],
{
    let ghost pred = |m: MemoryDevice| m.memory_type == t;
    let mut count: usize = 0;
    let mut found: Option<usize> = None;
    let mut i: usize = 0;
    assert(memories@.take(0).filter(pred) =~= Seq::empty()) by {
        reveal(Seq::filter);
    }
    while i < memories.len()
        invariant
            count <= i <= memories.len(),
            pred == |m: MemoryDevice| m.memory_type == t,
            count == memories@.take(i as int).filter(pred).len(),
            found is Some <==> n < count,
            found matches Some(k) ==> k < i && memories@[k as int] == memories@.take(
                i as int,
            ).filter(pred)[n as int],
        decreases memories.len() - i,
    {
        proof {
            reveal(Seq::filter);
            assert(memories@.take(i + 1).drop_last() =~= memories@.take(i as int));
        }
        if memories[i].memory_type == t {
            if count == n {
                found = Some(i);
            }
            count += 1;
        }
        i += 1;
    }
    assert(memories@.take(i as int) =~= memories@);
    (count, found)
}

/// Finds the memory that a reference means.
pub fn resolve_memory_ref<'a>(memories: &'a [MemoryDevice], reference: &MemoryRef) -> (r: Result<
    &'a MemoryDevice,
    CliError,
>)
    ensures
        (match r {
            Ok(m) => Ok(*m),
            Err(e) => Err(e@),
        }) == resolution(memories@, *reference),
{
    match reference {
        MemoryRef::Id(id) => match find_id(memories, *id) {
            Some(i) => Ok(&memories[i]),
            None => {
                let number = decimal(*id as u64);
                Err(CliError::NotFound(concat("memory with ID ", number.as_str())))
            },
        },
        MemoryRef::Type(t, instance) => {
            let kind = MemoryKind::of_device(&t.to_lib());
            assert(kind == t.meant());
            let wanted: usize = match instance {
                Some(i) => *i,
                None => 0,
            };
            let (count, found) = find_type(memories, kind, wanted);
            if count == 0 {
                return Err(CliError::NotFound(concat("memory of type ", t.name())));
            }
            match (found, instance) {
                (Some(i), Some(_)) => Ok(&memories[i]),
                (None, Some(wanted)) => {
                    let text = "instance ".to_owned().concat(
                        decimal(*wanted as u64).as_str(),
                    ).concat(" of type ").concat(t.name()).concat(" out of range (").concat(
                        decimal(count as u64).as_str(),
                    ).concat(" found)");
                    Err(CliError::InvalidValue(text))
                },
                (_, None) => {
                    if count == 1 {
                        Ok(&memories[found.unwrap()])
                    } else {
                        let text = "multiple memories of type ".to_owned().concat(t.name()).concat(
                            " (",
                        ).concat(decimal(count as u64).as_str()).concat(
                            " found), specify an instance with '",
                        ).concat(t.name()).concat(":0'..'").concat(t.name()).concat(":").concat(
                            decimal((count - 1) as u64).as_str(),
                        ).concat("'");
                        Err(CliError::InvalidValue(text))
                    }
                },
            }
        },
    }
}

// ---- Listing ---------------------------------------------------------------

/// The line under which a memory is offered.
pub open spec fn label_of(m: MemoryDevice) -> Seq<char> {
    "["@ + decimal_of(m.memory_id as nat) + "] "@ + m.memory_type.name_of() + " size="@
        + decimal_of(m.size as nat / 1024) + "k (0x"@ + hex_of(m.size as nat) + "/"@ + decimal_of(
        m.size as nat,
    ) + ")"@
}

/// The line under which a memory is offered.
pub fn memory_label(m: &MemoryDevice) -> (label: String)
    ensures
        label@ == label_of(*m),
{
    "[".to_owned().concat(decimal(m.memory_id as u64).as_str()).concat("] ").concat(
        m.memory_type.name(),
    ).concat(" size=").concat(decimal((m.size / 1024) as u64).as_str()).concat("k (0x").concat(
        hex(m.size as u64).as_str(),
    ).concat("/").concat(decimal(m.size as u64).as_str()).concat(")")
}

/// The serial number of a memory in upper case hexadecimal; nothing where it
/// has none.
pub open spec fn serial_of(m: MemoryDevice) -> Seq<char> {
    match m.serial {
        Some(s) => bytes_hex(s@, true),
        None => Seq::empty(),
    }
}

/// The line of a memory in the list of memories.
pub open spec fn listing_of(m: MemoryDevice) -> Seq<char> {
    match m.serial {
        Some(_) => label_of(m) + " (0x"@ + serial_of(m) + ")"@,
        None => label_of(m),
    }
}

/// The line of a memory in the list of memories.
pub fn memory_listing(m: &MemoryDevice) -> (line: String)
    ensures
        line@ == listing_of(*m),
{
    let label = memory_label(m);
    match &m.serial {
        Some(s) => label.concat(" (0x").concat(write_bytes(s.as_slice(), true).as_str()).concat(
            ")",
        ),
        None => label,
    }
}

/// The fields of a memory in the table of memories: number, type, size, serial.
pub open spec fn row_of(m: MemoryDevice) -> Seq<Seq<char>> {
    seq![
        decimal_of(m.memory_id as nat),
        m.memory_type.name_of(),
        decimal_of(m.size as nat),
        serial_of(m),
    ]
}

/// The fields of a memory in the table of memories.
pub fn memory_row(m: &MemoryDevice) -> (row: Vec<String>)
    ensures
        texts(row@) == row_of(*m),
{
    let serial = match &m.serial {
        Some(s) => write_bytes(s.as_slice(), true),
        None => String::new(),
    };
    let mut row: Vec<String> = Vec::new();
    row.push(decimal(m.memory_id as u64));
    row.push(m.memory_type.name().to_owned());
    row.push(decimal(m.size as u64));
    row.push(serial);
    assert(texts(row@) =~= row_of(*m));
    row
}

/// The number in the square brackets at the start of an offered line, if it is
/// at most `max`.
pub fn offered_number(line: &str, max: u64) -> (r: Option<u64>)
    ensures
        r == (match bounded_value(bracketed(line@), 10, max as nat) {
            Some(n) => Some(n as u64),
            None => None,
        }),
{
    let chars = bracketed_chars(line);
    parse_bounded(chars.as_slice(), 10, max)
}

/// The memory that an offered line leads to.
pub open spec fn choice_of(memories: Seq<MemoryDevice>, line: Seq<char>) -> Result<
    MemoryDevice,
    CauseView,
> {
    match bounded_value(bracketed(line), 10, 255) {
        Some(id) => {
            let found = with_id(memories, id as u8);
            if found.len() > 0 {
                Ok(found[0])
            } else {
                Err(CauseView::Other("No memory with ID "@ + decimal_of(id)))
            }
        },
        None => Err(CauseView::Other("Failed to parse memory ID"@)),
    }
}

/// The memory that the user picked by its offered line.
pub fn chosen_memory<'a>(memories: &'a [MemoryDevice], line: &str) -> (r: Result<
    &'a MemoryDevice,
    Cause,
>)
    ensures
        (match r {
            Ok(m) => Ok(*m),
            Err(e) => Err(e@),
        }) == choice_of(memories@, line@),
{
    match offered_number(line, 255) {
        Some(id) => match find_id(memories, id as u8) {
            Some(i) => Ok(&memories[i]),
            None => {
                let number = decimal(id);
                Err(Cause::Other(concat("No memory with ID ", number.as_str())))
            },
        },
        None => Err(Cause::Other("Failed to parse memory ID".to_owned())),
    }
}

// ---- Reading and writing ---------------------------------------------------

/// The report on a transfer of bytes.
pub open spec fn transfer(verb: Seq<char>, length: nat, way: Seq<char>, id: u8, offset: nat) -> Seq<
    char,
> {
    verb + decimal_of(length) + way + decimal_of(id as nat) + " at offset 0x"@ + hex_of(offset)
}

/// The report on bytes that were read.
pub open spec fn read_told(length: nat, memory_id: u8, offset: nat) -> Seq<char> {
    transfer("Read "@, length, " bytes from memory ID="@, memory_id, offset)
}

/// The report on bytes that were written.
pub open spec fn written_told(length: nat, memory_id: u8, offset: nat) -> Seq<char> {
    transfer("Wrote "@, length, " bytes to memory ID="@, memory_id, offset)
}

/// The report on bytes that were read.
pub fn read_report(length: usize, memory_id: u8, offset: usize) -> (line: String)
    ensures
        line@ == read_told(length as nat, memory_id, offset as nat),
{
    "Read ".to_owned().concat(decimal(length as u64).as_str()).concat(
        " bytes from memory ID=",
    ).concat(decimal(memory_id as u64).as_str()).concat(" at offset 0x").concat(
        hex(offset as u64).as_str(),
    )
}

/// The report on bytes that were written.
pub fn write_report(length: usize, memory_id: u8, offset: usize) -> (line: String)
    ensures
        line@ == written_told(length as nat, memory_id, offset as nat),
{
    "Wrote ".to_owned().concat(decimal(length as u64).as_str()).concat(
        " bytes to memory ID=",
    ).concat(decimal(memory_id as u64).as_str()).concat(" at offset 0x").concat(
        hex(offset as u64).as_str(),
    )
}

/// What is said of a memory that could not be opened for raw access.
pub open spec fn not_opened(memory_id: u8, reason: Option<Seq<char>>) -> Seq<char> {
    match reason {
        Some(detail) => "Could not access memory ID="@ + decimal_of(memory_id as nat)
            + " as raw memory: "@ + detail,
        None => "Memory ID="@ + decimal_of(memory_id as nat) + " not found"@,
    }
}

/// The failure to open a memory for raw access: with the reason, if the memory
/// is there at all.
pub fn open_failure(memory_id: u8, reason: &Option<String>) -> (cause: Cause)
    ensures
        cause@ == CauseView::Other(not_opened(memory_id, opt_text(*reason))),
{
    let id = decimal(memory_id as u64);
    match reason {
        Some(detail) => Cause::Other(
            concat("Could not access memory ID=", id.as_str()).concat(
                " as raw memory: ",
            ).concat(detail.as_str()),
        ),
        None => Cause::Other(concat("Memory ID=", id.as_str()).concat(" not found")),
    }
}

/// Where the bytes come from that are written or sent.
#[derive(Debug, Clone, PartialEq, Eq)]
pub enum Payload {
    Bytes(Vec<u8>),
    File(String),
}

/// The bytes that were given, else the file that holds them.
pub open spec fn payload_of(
    data: Option<Vec<u8>>,
    input: Option<String>,
    purpose: Seq<char>,
) -> Result<Payload, CauseView> {
    match (data, input) {
        (Some(bytes), _) => Ok(Payload::Bytes(bytes)),
        (None, Some(file)) => Ok(Payload::File(file)),
        (None, None) => Err(
            CauseView::Other(
                "No data provided"@ + purpose + ", please provide data via --data or --input"@,
            ),
        ),
    }
}

/// The bytes that were given, else the file that holds them. `purpose` completes
/// the message where neither was given.
pub fn payload(data: Option<Vec<u8>>, input: Option<String>, purpose: &str) -> (r: Result<
    Payload,
    Cause,
>)
    ensures
        caused(r) == payload_of(data, input, purpose@),
{
    match (data, input) {
        (Some(bytes), _) => Ok(Payload::Bytes(bytes)),
        (None, Some(file)) => Ok(Payload::File(file)),
        (None, None) => Err(
            Cause::Other(
                concat("No data provided", purpose).concat(
                    ", please provide data via --data or --input",
                ),
            ),
        ),
    }
}

// ---- Laws ------------------------------------------------------------------

/// A resolved memory is one of the memories, and is what the reference asks for.
pub proof fn resolved_memory_matches(memories: Seq<MemoryDevice>, reference: MemoryRef)
    ensures
        resolution(memories, reference) matches Ok(m) ==> memories.contains(m) && match reference {
            MemoryRef::Id(id) => m.memory_id == id,
            MemoryRef::Type(t, _) => m.memory_type == t.meant(),
        },
{
    if let Ok(m) = resolution(memories, reference) {
        match reference {
            MemoryRef::Id(id) => {
                let found = with_id(memories, id);
                assert(found.contains(found[0]));
                lemma_filter(memories, |m: MemoryDevice| m.memory_id == id, m);
            },
            MemoryRef::Type(t, instance) => {
                let found = of_type(memories, t.meant());
                let i = match instance {
                    Some(i) => i as int,
                    None => 0,
                };
                assert(found.contains(found[i]));
                lemma_filter(memories, |m: MemoryDevice| m.memory_type == t.meant(), m);
            },
        }
    }
}

/// Where several memories have a type, each position that the message offers
/// leads to the memory at that position among them.
pub proof fn offered_instances_are_found(memories: Seq<MemoryDevice>, t: MemoryTypeArg, i: usize)
    requires
        resolution(memories, MemoryRef::Type(t, None)) == Err::<MemoryDevice, ErrorView>(
            ErrorView::InvalidValue(several_instances(t, of_type(memories, t.meant()).len())),
        ),
        i < of_type(memories, t.meant()).len(),
    ensures
        resolution(memories, MemoryRef::Type(t, Some(i))) == Ok::<MemoryDevice, ErrorView>(
            of_type(memories, t.meant())[i as int],
        ),
{
}

/// Every memory type of the command line has a number of its own, from which
/// the type is found again.
pub proof fn memory_types_are_told_apart(a: MemoryTypeArg, b: MemoryTypeArg)
    ensures
        MemoryKind::of_code(a.meant().code()) == a.meant(),
        a.meant().code() == b.meant().code() ==> a == b,
{
}

/// A number in square brackets in front of a line is read back, whatever
/// follows it.
pub proof fn offered_number_is_read_back(n: nat, rest: Seq<char>)
    ensures
        bracketed("["@ + decimal_of(n) + "]"@ + rest) == decimal_of(n),
        bounded_value(bracketed("["@ + decimal_of(n) + "]"@ + rest), 10, n) == Some(n),
{
    reveal_strlit("[");
    reveal_strlit("]");
    lemma_digits(n, 10, false);
    let number = decimal_of(n);
    let head = "["@ + number;
    assert forall|i: int| 0 <= i < head.len() implies head[i] != ']' by {
        if i > 0 {
            assert(head[i] == number[i - 1]);
        }
    }
    assert("["@ + number + "]"@ + rest =~= head + seq![']'] + rest);
    split_first_piece(head, ']', rest);
    assert(head.skip(1) =~= number);
    assert(number[0] != '[');
    assert(without_brackets(number) == number);
    assert(without_brackets(head) == number);
}

/// The line under which a memory is offered leads back to the memory's number.
pub proof fn label_leads_back(m: MemoryDevice)
    ensures
        bounded_value(bracketed(label_of(m)), 10, 255) == Some(m.memory_id as nat),
{
    reveal_strlit("] ");
    reveal_strlit("]");
    reveal_strlit(" ");
    let n = m.memory_id as nat;
    let rest = " "@ + m.memory_type.name_of() + " size="@ + decimal_of(m.size as nat / 1024)
        + "k (0x"@ + hex_of(m.size as nat) + "/"@ + decimal_of(m.size as nat) + ")"@;
    assert("] "@ =~= "]"@ + " "@);
    assert(label_of(m) =~= "["@ + decimal_of(n) + "]"@ + rest);
    offered_number_is_read_back(n, rest);
}

/// Picking the line under which a memory is offered gives that memory, as long as
/// no other memory has its number.
pub proof fn picked_line_gives_its_memory(memories: Seq<MemoryDevice>, m: MemoryDevice)
    requires
        memories.contains(m),
        forall|i: int|
            0 <= i < memories.len() && (#[trigger] memories[i]).memory_id == m.memory_id
                ==> memories[i] == m,
    ensures
        choice_of(memories, label_of(m)) == Ok::<MemoryDevice, CauseView>(m),
{
    label_leads_back(m);
    let pred = |x: MemoryDevice| x.memory_id == m.memory_id;
    let found = with_id(memories, m.memory_id);
    lemma_filter(memories, pred, m);
    assert(found.len() > 0);
    assert(found.contains(found[0]));
    lemma_filter(memories, pred, found[0]);
}

/// Every known type has a number of its own, from which it is found again; a
/// number without a type means the unknown one.
pub proof fn memory_types_have_their_numbers(a: MemoryKind, b: MemoryKind, code: u8)
    ensures
        MemoryKind::of_code(a.code()) == a,
        a.code() == b.code() ==> a == b,
        MemoryKind::of_code(code).code() == code || MemoryKind::of_code(code) is UNKNOWN,
{
}

/// Memories are looked up one by one: those with a number, and those of a type,
/// among two lists are those among each, and a single memory is among them
/// exactly where its own number, or type, is the wanted one.
pub proof fn memories_are_looked_up_one_by_one(
    a: Seq<MemoryDevice>,
    b: Seq<MemoryDevice>,
    m: MemoryDevice,
    id: u8,
    t: MemoryKind,
)
    ensures
        with_id(a + b, id) == with_id(a, id) + with_id(b, id),
        of_type(a + b, t) == of_type(a, t) + of_type(b, t),
        m.memory_id == id ==> with_id(seq![m], id) == seq![m],
        m.memory_id != id ==> with_id(seq![m], id) == Seq::<MemoryDevice>::empty(),
        m.memory_type == t ==> of_type(seq![m], t) == seq![m],
        m.memory_type != t ==> of_type(seq![m], t) == Seq::<MemoryDevice>::empty(),
{
    let by_id = |x: MemoryDevice| x.memory_id == id;
    let by_type = |x: MemoryDevice| x.memory_type == t;
    lemma_filter_appends(a, b, by_id);
    lemma_filter_appends(a, b, by_type);
    lemma_filter_one(m, by_id);
    lemma_filter_one(m, by_type);
}

/// A number leads to the first memory that has it.
pub proof fn numbers_lead_to_their_memories(memories: Seq<MemoryDevice>, id: u8, k: int)
    requires
        0 <= k < memories.len(),
        memories[k].memory_id == id,
        with_id(memories.take(k), id).len() == 0,
    ensures
        resolution(memories, MemoryRef::Id(id)) == Ok::<MemoryDevice, ErrorView>(memories[k]),
{
    lemma_filter_index(memories, |x: MemoryDevice| x.memory_id == id, k);
}

/// A number that no memory has is a missing resource, and a number that one has is
/// not.
pub proof fn unused_numbers_are_refused(memories: Seq<MemoryDevice>, id: u8, m: MemoryDevice)
    ensures
        memories.contains(m) && m.memory_id == id ==> resolution(memories, MemoryRef::Id(id)) is Ok,
        resolution(memories, MemoryRef::Id(id)) matches Ok(found) ==> memories.contains(found)
            && found.memory_id == id,
        resolution(memories, MemoryRef::Id(id)) matches Err(e) ==> e is NotFound,
{
    let pred = |x: MemoryDevice| x.memory_id == id;
    lemma_filter(memories, pred, m);
    resolved_memory_matches(memories, MemoryRef::Id(id));
}

/// A memory is found by its type and by how many memories of that type stand
/// before it.
pub proof fn positions_count_memories_of_the_type(
    memories: Seq<MemoryDevice>,
    t: MemoryTypeArg,
    i: usize,
    k: int,
)
    requires
        0 <= k < memories.len(),
        memories[k].memory_type == t.meant(),
        of_type(memories.take(k), t.meant()).len() == i,
    ensures
        resolution(memories, MemoryRef::Type(t, Some(i))) == Ok::<MemoryDevice, ErrorView>(
            memories[k],
        ),
        of_type(memories, t.meant()).len() == 1 ==> resolution(memories, MemoryRef::Type(t, None))
            == Ok::<MemoryDevice, ErrorView>(memories[k]),
{
    let kind = t.meant();
    lemma_filter_index(memories, |x: MemoryDevice| x.memory_type == kind, k);
}

/// A type without a memory is a missing resource; a position behind the last
/// memory of the type, and several memories without a position, are invalid
/// values. Nothing else fails.
pub proof fn unclear_references_are_refused(
    memories: Seq<MemoryDevice>,
    t: MemoryTypeArg,
    instance: Option<usize>,
)
    ensures
        ({
            let count = of_type(memories, t.meant()).len();
            let r = resolution(memories, MemoryRef::Type(t, instance));
            &&& count == 0 <==> (r is Err && r->Err_0 is NotFound)
            &&& (r is Err && r->Err_0 is InvalidValue) <==> count > 0 && match instance {
                Some(i) => i >= count,
                None => count > 1,
            }
            &&& r is Err ==> r->Err_0 is NotFound || r->Err_0 is InvalidValue
        }),
{
}

/// What the command line names is the type of the same name.
pub proof fn named_types_are_meant(t: MemoryTypeArg)
    ensures
        t is EepromConfig <==> t.meant() is EEPROMConfig,
        t is MicroSd <==> t.meant() is MicroSD,
        t is DeckCtrlDfu <==> t.meant() is DeckCtrlDFU,
        !(t is EepromConfig) && !(t is MicroSd) && !(t is DeckCtrlDfu) ==> t.meant().name_of()
            == t.name_of(),
        !(t.meant() is UNKNOWN),
{
}

/// The line of a memory tells its type and its size, in kilobytes, in hexadecimal
/// and in decimal, and the list adds the serial number of a memory that has one.
pub proof fn lines_tell_type_and_size(m: MemoryDevice)
    ensures
        stands_in("] "@ + m.memory_type.name_of(), label_of(m)),
        stands_in(" size="@ + decimal_of(m.size as nat / 1024), label_of(m)),
        stands_in("k (0x"@ + hex_of(m.size as nat), label_of(m)),
        stands_in("/"@ + decimal_of(m.size as nat), label_of(m)),
        stands_in(label_of(m), listing_of(m)),
        m.serial is None ==> listing_of(m) == label_of(m),
        m.serial matches Some(s) ==> stands_in(" (0x"@ + bytes_hex(s@, true), listing_of(m)),
{
    let none = Seq::<char>::empty();
    let name = m.memory_type.name_of();
    let kilo = decimal_of(m.size as nat / 1024);
    let hexa = hex_of(m.size as nat);
    let deci = decimal_of(m.size as nat);
    let t1 = "["@ + decimal_of(m.memory_id as nat);
    let t2 = t1 + "] "@ + name;
    let t3 = t2 + " size="@ + kilo;
    let t4 = t3 + "k (0x"@ + hexa;
    let t5 = t4 + "/"@ + deci;
    lemma_neighbours_stand_in(t1, "] "@, name);
    lemma_neighbours_stand_in(t2, " size="@, kilo);
    lemma_neighbours_stand_in(t3, "k (0x"@, hexa);
    lemma_neighbours_stand_in(t4, "/"@, deci);
    lemma_stands_in("] "@ + name, t2, none, " size="@);
    lemma_stands_in("] "@ + name, t2 + " size="@, none, kilo);
    lemma_stands_in("] "@ + name, t3, none, "k (0x"@);
    lemma_stands_in("] "@ + name, t3 + "k (0x"@, none, hexa);
    lemma_stands_in("] "@ + name, t4, none, "/"@);
    lemma_stands_in("] "@ + name, t4 + "/"@, none, deci);
    lemma_stands_in("] "@ + name, t5, none, ")"@);
    lemma_stands_in(" size="@ + kilo, t3, none, "k (0x"@);
    lemma_stands_in(" size="@ + kilo, t3 + "k (0x"@, none, hexa);
    lemma_stands_in(" size="@ + kilo, t4, none, "/"@);
    lemma_stands_in(" size="@ + kilo, t4 + "/"@, none, deci);
    lemma_stands_in(" size="@ + kilo, t5, none, ")"@);
    lemma_stands_in("k (0x"@ + hexa, t4, none, "/"@);
    lemma_stands_in("k (0x"@ + hexa, t4 + "/"@, none, deci);
    lemma_stands_in("k (0x"@ + hexa, t5, none, ")"@);
    lemma_stands_in("/"@ + deci, t5, none, ")"@);
    let label = label_of(m);
    lemma_stands_in(label, label, none, " (0x"@);
    lemma_stands_in(label, label + " (0x"@, none, serial_of(m));
    lemma_stands_in(label, label + " (0x"@ + serial_of(m), none, ")"@);
    lemma_neighbours_stand_in(label, " (0x"@, serial_of(m));
    lemma_stands_in(" (0x"@ + serial_of(m), label + " (0x"@ + serial_of(m), none, ")"@);
}

/// The row of a memory in the table reads back as its number, its type, its size
/// and its serial number.
pub proof fn rows_read_back(m: MemoryDevice, i: int)
    ensures
        row_of(m).len() == 4,
        unsigned_value(row_of(m)[0], 10) == Some(m.memory_id as nat),
        row_of(m)[1] == m.memory_type.name_of(),
        unsigned_value(row_of(m)[2], 10) == Some(m.size as nat),
        m.serial is None ==> row_of(m)[3] == Seq::<char>::empty(),
        m.serial matches Some(s) ==> (0 <= i < s@.len() ==> row_of(m)[3].len() == 2 * s@.len()
            && digit_value(row_of(m)[3][2 * i]) * 16 + digit_value(row_of(m)[3][2 * i + 1])
            == s@[i]),
{
    reading_undoes_writing(m.memory_id as nat, 10, false);
    reading_undoes_writing(m.size as nat, 10, false);
    if let Some(s) = m.serial {
        if 0 <= i < s@.len() {
            bytes_are_two_digits_each(s@, true, i);
        }
    }
}

/// A line that was not offered leads to no memory: without a number in front, or
/// with a number that no memory has, the choice fails.
pub proof fn foreign_lines_lead_nowhere(memories: Seq<MemoryDevice>, line: Seq<char>)
    ensures
        choice_of(memories, line) matches Ok(m) ==> memories.contains(m) && unsigned_value(
            bracketed(line),
            10,
        ) == Some(m.memory_id as nat),
        unsigned_value(bracketed(line), 10) is None ==> choice_of(memories, line) is Err,
{
    if let Ok(m) = choice_of(memories, line) {
        let id = bounded_value(bracketed(line), 10, 255)->0 as u8;
        let found = with_id(memories, id);
        assert(found.contains(found[0]));
        lemma_filter(memories, |x: MemoryDevice| x.memory_id == id, m);
    }
}

/// The reports on transfers tell which way the bytes went, how many they were, and
/// from where in which memory.
pub proof fn transfers_are_told(length: nat, memory_id: u8, offset: nat)
    ensures
        stands_in("Read "@ + decimal_of(length), read_told(length, memory_id, offset)),
        stands_in(
            " bytes from memory ID="@ + decimal_of(memory_id as nat),
            read_told(length, memory_id, offset),
        ),
        stands_in(" at offset 0x"@ + hex_of(offset), read_told(length, memory_id, offset)),
        stands_in("Wrote "@ + decimal_of(length), written_told(length, memory_id, offset)),
        stands_in(
            " bytes to memory ID="@ + decimal_of(memory_id as nat),
            written_told(length, memory_id, offset),
        ),
        stands_in(" at offset 0x"@ + hex_of(offset), written_told(length, memory_id, offset)),
{
    lemma_transfer("Read "@, length, " bytes from memory ID="@, memory_id, offset);
    lemma_transfer("Wrote "@, length, " bytes to memory ID="@, memory_id, offset);
}

proof fn lemma_transfer(verb: Seq<char>, length: nat, way: Seq<char>, id: u8, offset: nat)
    ensures
        stands_in(verb + decimal_of(length), transfer(verb, length, way, id, offset)),
        stands_in(way + decimal_of(id as nat), transfer(verb, length, way, id, offset)),
        stands_in(" at offset 0x"@ + hex_of(offset), transfer(verb, length, way, id, offset)),
{
    let none = Seq::<char>::empty();
    let at = " at offset 0x"@;
    let o = hex_of(offset);
    let n = decimal_of(id as nat);
    let t1 = verb + decimal_of(length);
    let t2 = t1 + way + n;
    lemma_stands_in(t1, t1, none, way);
    lemma_stands_in(t1, t1 + way, none, n);
    lemma_stands_in(t1, t2, none, at);
    lemma_stands_in(t1, t2 + at, none, o);
    lemma_neighbours_stand_in(t1, way, n);
    lemma_stands_in(way + n, t2, none, at);
    lemma_stands_in(way + n, t2 + at, none, o);
    lemma_neighbours_stand_in(t2, at, o);
}

/// Bytes that were given are used, whether or not a file was given too; the file
/// is used where no bytes were given; and one of the two must be given.
pub proof fn given_bytes_go_before_files(bytes: Vec<u8>, input: Option<String>, purpose: Seq<char>)
    ensures
        payload_of(Some(bytes), input, purpose) == Ok::<Payload, CauseView>(Payload::Bytes(bytes)),
        input matches Some(file) ==> payload_of(None, input, purpose) == Ok::<Payload, CauseView>(
            Payload::File(file),
        ),
        payload_of(None, None, purpose) is Err,
{
}

/// The failure to open a memory tells which one, and why where that is known.
pub proof fn failures_to_open_tell_the_memory(memory_id: u8, detail: Seq<char>)
    ensures
        stands_in(decimal_of(memory_id as nat), not_opened(memory_id, None)),
        stands_in(decimal_of(memory_id as nat), not_opened(memory_id, Some(detail))),
        stands_in(detail, not_opened(memory_id, Some(detail))),
{
    let id = decimal_of(memory_id as nat);
    let head = "Could not access memory ID="@;
    let mid = " as raw memory: "@;
    let text = not_opened(memory_id, Some(detail));
    assert(text =~= head + id + (mid + detail));
    assert(text =~= (head + id + mid) + detail + Seq::empty());
    assert(not_opened(memory_id, None) == "Memory ID="@ + id + " not found"@);
}

}
