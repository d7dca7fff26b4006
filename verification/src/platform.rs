//! What is told of the platform of a Crazyflie.
use vstd::prelude::*;

use crate::console::stands_in;
use crate::number::{decimal, decimal_of, reading_undoes_writing, unsigned_value};
use crate::text::{concat, texts};

verus! {

/// The lines that tell the platform, the firmware and the protocol version.
pub open spec fn told(device: Seq<char>, firmware: Seq<char>, protocol: u8) -> Seq<Seq<char>> {
    seq![
        "Platform\t: "@ + device,
        "Firmware\t: "@ + firmware,
        "CRTP protocol\t: "@ + decimal_of(protocol as nat),
    ]
}

/// The same as the rows of a table of fields and values.
pub open spec fn tabled(device: Seq<char>, firmware: Seq<char>, protocol: u8) -> Seq<
    (Seq<char>, Seq<char>),
> {
    seq![
        ("platform"@, device),
        ("firmware"@, firmware),
        ("crtp_protocol"@, decimal_of(protocol as nat)),
    ]
}

/// The lines that tell the platform, the firmware and the protocol version.
pub fn platform_lines(device: &str, firmware: &str, protocol: u8) -> (lines: Vec<String>)
    ensures
        texts(lines@) == told(device@, firmware@, protocol),
{
    let number = decimal(protocol as u64);
    let mut lines: Vec<String> = Vec::new();
    lines.push(concat("Platform\t: ", device));
    lines.push(concat("Firmware\t: ", firmware));
    lines.push(concat("CRTP protocol\t: ", number.as_str()));
    assert(texts(lines@) =~= told(device@, firmware@, protocol));
    lines
}

/// The same as the rows of a table of fields and values.
pub fn platform_rows(device: &str, firmware: &str, protocol: u8) -> (rows: Vec<(String, String)>)
    ensures
        rows@.map_values(|r: (String, String)| (r.0@, r.1@)) == tabled(
            device@,
            firmware@,
            protocol,
        ),
{
    let mut rows: Vec<(String, String)> = Vec::new();
    rows.push(("platform".to_owned(), device.to_owned()));
    rows.push(("firmware".to_owned(), firmware.to_owned()));
    rows.push(("crtp_protocol".to_owned(), decimal(protocol as u64)));
    assert(rows@.map_values(|r: (String, String)| (r.0@, r.1@)) =~= tabled(
        device@,
        firmware@,
        protocol,
    ));
    rows
}

// ---- Laws ------------------------------------------------------------------

/// The table has the platform, the firmware and the protocol version in their own
/// fields, and each line holds the value of its field.
pub proof fn values_stand_in_their_fields(device: Seq<char>, firmware: Seq<char>, protocol: u8)
    ensures
        tabled(device, firmware, protocol).len() == 3,
        tabled(device, firmware, protocol)[0] == ("platform"@, device),
        tabled(device, firmware, protocol)[1] == ("firmware"@, firmware),
        unsigned_value(tabled(device, firmware, protocol)[2].1, 10) == Some(protocol as nat),
        told(device, firmware, protocol).len() == 3,
        stands_in(device, told(device, firmware, protocol)[0]),
        stands_in(firmware, told(device, firmware, protocol)[1]),
        stands_in(decimal_of(protocol as nat), told(device, firmware, protocol)[2]),
{
    let none = Seq::<char>::empty();
    let lines = told(device, firmware, protocol);
    reading_undoes_writing(protocol as nat, 10, false);
    assert(lines[0] =~= "Platform\t: "@ + device + none);
    assert(lines[1] =~= "Firmware\t: "@ + firmware + none);
    assert(lines[2] =~= "CRTP protocol\t: "@ + decimal_of(protocol as nat) + none);
}

}
