//! The radio settings in the configuration memory of a Crazyflie: how they are
//! set from the command line and what link they make.
use vstd::prelude::*;

use crate::address::{
    address_bytes_are_unique, address_value, big_endian, decoding_undoes_encoding, encode_address,
    parse_address, ten_digits_are_five_bytes,
};
use crate::config::link_uri;
use crate::console::stands_in;
use crate::error::{caused, device_error, Cause, CauseView, CliError, DeviceError, ErrorView};
use crate::number::{
    bounded_value, byte_hex, bytes_hex, decimal, decimal_of, digit_value, lemma_bytes_hex,
    lemma_digits, parse_bounded, unsigned_value, write_bytes,
};
use crate::text::{
    characters, concat, concat3, opt_text, same, split, split_without_separator,
    splitting_goes_piece_by_piece,
};

verus! {

// ---- Radio speed -----------------------------------------------------------

/// `RadioSpeed` of `crazyflie_lib`, of which nothing is seen inside.
#[verifier::external_type_specification]
#[verifier::external_body]
pub struct ExRadioSpeed(crazyflie_lib::subsystems::memory::RadioSpeed);

/// The number by which a radio speed is stored.
pub uninterp spec fn radio_speed_code(speed: crazyflie_lib::subsystems::memory::RadioSpeed) -> u8;

/// The discriminant of `crazyflie_lib::subsystems::memory::RadioSpeed`. Claims
/// that it is the number by which the speed is stored, which is 0, 1 or 2.
#[verifier::external_body]
fn speed_code(speed: &crazyflie_lib::subsystems::memory::RadioSpeed) -> (code: u8)
    ensures
        code == radio_speed_code(*speed),
        code <= 2,
{
    speed.clone() as u8
}

/// `RadioSpeed::try_from` of `crazyflie_lib`. Claims that the numbers 0, 1 and 2
/// give the speed with that number and that any other number is refused with
/// the library's memory error.
#[verifier::external_body]
fn device_radio_speed(code: u8) -> (r: Result<
    crazyflie_lib::subsystems::memory::RadioSpeed,
    crazyflie_lib::Error,
>)
    ensures
        r is Ok <==> code <= 2,
        r matches Ok(speed) ==> radio_speed_code(speed) == code,
        r matches Err(e) ==> device_error(e) == DeviceError::Memory,
{
    crazyflie_lib::subsystems::memory::RadioSpeed::try_from(code)
}

/// A radio speed as the device library shows it.
pub open spec fn speed_shown(code: u8) -> Seq<char> {
    if code == 0 {
        "250 kbps"@
    } else if code == 1 {
        "1 Mbps"@
    } else {
        "2 Mbps"@
    }
}

/// The `Display` text of `RadioSpeed` of `crazyflie_lib`. Claims the three texts
/// that it has for the three speeds.
#[verifier::external_body]
fn speed_display(speed: &crazyflie_lib::subsystems::memory::RadioSpeed) -> (text: String)
    ensures
        text@ == speed_shown(radio_speed_code(*speed)),
{
    speed.to_string()
}

/// The radio speed with a number that the command line gave.
pub fn radio_speed(code: u8) -> (r: Result<crazyflie_lib::subsystems::memory::RadioSpeed, Cause>)
    ensures
        r is Ok <==> code <= 2,
        r matches Ok(speed) ==> radio_speed_code(speed) == code,
        r matches Err(e) ==> e == Cause::Device(DeviceError::Memory),
{
    match device_radio_speed(code) {
        Ok(speed) => Ok(speed),
        Err(e) => Err(Cause::device(&e)),
    }
}

// ---- The radio link --------------------------------------------------------

/// A radio speed in a link address.
pub open spec fn speed_in_uri(code: u8) -> Seq<char> {
    if code == 0 {
        "250K"@
    } else if code == 1 {
        "1M"@
    } else {
        "2M"@
    }
}

/// The link address of a Crazyflie with these radio settings.
pub open spec fn radio_uri_of(channel: u8, speed: u8, address: Seq<u8>) -> Seq<char> {
    "radio://0/"@ + decimal_of(channel as nat) + "/"@ + speed_in_uri(speed) + "/"@ + bytes_hex(
        address,
        true,
    )
}

/// The link address of a Crazyflie with these radio settings.
pub fn radio_uri(
    channel: u8,
    speed: &crazyflie_lib::subsystems::memory::RadioSpeed,
    address: &[u8; 5],
) -> (uri: String)
    ensures
        uri@ == radio_uri_of(channel, radio_speed_code(*speed), address@),
{
    let code = speed_code(speed);
    let label = if code == 0 {
        "250K"
    } else if code == 1 {
        "1M"
    } else {
        "2M"
    };
    "radio://0/".to_owned().concat(decimal(channel as u64).as_str()).concat("/").concat(
        label,
    ).concat("/").concat(encode_address(address).as_str())
}

/// The line that tells which radio settings were read.
pub open spec fn radio_told(channel: u8, speed: u8, address: Seq<u8>) -> Seq<char> {
    "Read radio config: channel="@ + decimal_of(channel as nat) + ", speed="@ + speed_shown(speed)
        + ", address="@ + bytes_hex(address, true)
}

/// The line that tells which radio settings were read.
pub fn radio_report(
    channel: u8,
    speed: &crazyflie_lib::subsystems::memory::RadioSpeed,
    address: &[u8; 5],
) -> (line: String)
    ensures
        line@ == radio_told(channel, radio_speed_code(*speed), address@),
{
    "Read radio config: channel=".to_owned().concat(decimal(channel as u64).as_str()).concat(
        ", speed=",
    ).concat(speed_display(speed).as_str()).concat(", address=").concat(
        encode_address(address).as_str(),
    )
}

/// What is said of a Crazyflie that has not exactly one configuration memory.
/// Where the memory is what the command is about, the message says that it stops.
pub open spec fn config_memory_check(count: nat, exiting: bool) -> Result<(), CauseView> {
    if count == 1 {
        Ok(())
    } else {
        Err(
            CauseView::Other(
                "No EEPROMConfig memory found or more than one ("@ + decimal_of(count) + (
                if exiting {
                    "), exiting!"@
                } else {
                    ")"@
                }),
            ),
        )
    }
}

/// Fails unless there is exactly one configuration memory.
pub fn single_config_memory(count: usize, exiting: bool) -> (r: Result<(), Cause>)
    ensures
        caused(r) == config_memory_check(count as nat, exiting),
{
    if count == 1 {
        return Ok(());
    }
    let number = decimal(count as u64);
    let end = if exiting {
        "), exiting!"
    } else {
        ")"
    };
    Err(
        Cause::Other(
            concat3(
                "No EEPROMConfig memory found or more than one (",
                number.as_str(),
                end,
            ),
        ),
    )
}

// ---- Changing settings -----------------------------------------------------

/// A setting that the command line changes.
#[derive(Debug, Clone, Copy, PartialEq, Eq)]
pub enum Setting {
    Channel(u8),
    Address([u8; 5]),
    /// The speed by its number.
    Speed(u8),
    /// The value is a decimal fraction, which is parsed by the caller.
    PitchTrim,
    /// As for the pitch.
    RollTrim,
    /// A key that is not known; it is reported and skipped.
    Unknown,
}

/// The largest radio channel.
pub const CHANNEL_MAX: u64 = 125;

/// The message for a value that a setting does not take.
pub open spec fn refused(before: Seq<char>, value: Seq<char>, after: Seq<char>) -> ErrorView {
    ErrorView::InvalidValue(before + value + after)
}

/// Why a `key=value` pair is refused, if it is. `trim_fits` tells whether the
/// value is a number that a trim takes; it counts for trims only. A key that is
/// not known is not refused.
pub open spec fn refusal(key: Seq<char>, value: Seq<char>, trim_fits: bool) -> Option<ErrorView> {
    if key == "channel"@ {
        if bounded_value(value, 10, CHANNEL_MAX as nat) is Some {
            None
        } else {
            Some(refused("channel '"@, value, "' must be an integer between 0 and 125"@))
        }
    } else if key == "address"@ {
        if address_value(value) is Some {
            None
        } else {
            Some(
                refused(
                    "address '"@,
                    value,
                    "' must be a 5-byte hexadecimal value (e.g. E7E7E7E7E7)"@,
                ),
            )
        }
    } else if key == "speed"@ {
        if bounded_value(value, 10, 2) is Some {
            None
        } else {
            Some(refused("speed '"@, value, "' must be 0 (250Kbps), 1 (1Mbps) or 2 (2Mbps)"@))
        }
    } else if (key == "pitch_trim"@ || key == "roll_trim"@) && !trim_fits {
        Some(refused(key + " '"@, value, "' must be a float between -20.0 and 20.0"@))
    } else {
        None
    }
}

/// Whether a `key=value` pair that is not refused means `setting`.
pub open spec fn reads_as(key: Seq<char>, value: Seq<char>, setting: Setting) -> bool {
    if key == "channel"@ {
        setting matches Setting::Channel(n) && bounded_value(value, 10, CHANNEL_MAX as nat) == Some(
            n as nat,
        )
    } else if key == "address"@ {
        setting matches Setting::Address(a) && address_value(value) == Some(big_endian(a@))
    } else if key == "speed"@ {
        setting matches Setting::Speed(n) && bounded_value(value, 10, 2) == Some(n as nat)
    } else if key == "pitch_trim"@ {
        setting is PitchTrim
    } else if key == "roll_trim"@ {
        setting is RollTrim
    } else {
        setting is Unknown
    }
}

/// Reads one `key=value` pair of the settings. The values of trims are left to
/// the caller.
pub fn parse_setting(key: &str, value: &str) -> (r: Result<Setting, CliError>)
    ensures
        match refusal(key@, value@, true) {
            Some(why) => r matches Err(e) && e@ == why,
            None => r matches Ok(setting) && reads_as(key@, value@, setting),
        },
{
    if same(key, "channel") {
        let chars = characters(value);
        match parse_bounded(chars.as_slice(), 10, CHANNEL_MAX) {
            Some(n) => Ok(Setting::Channel(n as u8)),
            None => Err(
                CliError::InvalidValue(
                    concat3("channel '", value, "' must be an integer between 0 and 125"),
                ),
            ),
        }
    } else if same(key, "address") {
        match parse_address(value) {
            Some(a) => Ok(Setting::Address(a)),
            None => Err(
                CliError::InvalidValue(
                    concat3(
                        "address '",
                        value,
                        "' must be a 5-byte hexadecimal value (e.g. E7E7E7E7E7)",
                    ),
                ),
            ),
        }
    } else if same(key, "speed") {
        let chars = characters(value);
        match parse_bounded(chars.as_slice(), 10, 2) {
            Some(n) => Ok(Setting::Speed(n as u8)),
            None => Err(
                CliError::InvalidValue(
                    concat3("speed '", value, "' must be 0 (250Kbps), 1 (1Mbps) or 2 (2Mbps)"),
                ),
            ),
        }
    } else if same(key, "pitch_trim") {
        Ok(Setting::PitchTrim)
    } else if same(key, "roll_trim") {
        Ok(Setting::RollTrim)
    } else {
        Ok(Setting::Unknown)
    }
}

/// Whether `key` is the name of a setting.
pub open spec fn is_setting(key: Seq<char>) -> bool {
    ||| key == "channel"@
    ||| key == "address"@
    ||| key == "speed"@
    ||| key == "pitch_trim"@
    ||| key == "roll_trim"@
}

/// The error for a trim that is no number or out of its range.
pub fn trim_error(key: &str, value: &str) -> (err: CliError)
    ensures
        err@ == refused(
            key@ + " '"@,
            value@,
            "' must be a float between -20.0 and 20.0"@,
        ),
{
    CliError::InvalidValue(
        concat(key, " '").concat(value).concat("' must be a float between -20.0 and 20.0"),
    )
}

/// Why the pair at `i` is refused, if it is. `trims` tells for each pair whether
/// its value is a number from -20 to 20.
pub open spec fn refusal_at(settings: Seq<(String, String)>, trims: Seq<bool>, i: int) -> Option<
    ErrorView,
> {
    refusal(settings[i].0@, settings[i].1@, i < trims.len() && trims[i])
}

/// What a list of pairs comes to: all of them, where none is refused, else the
/// refusal of the first one that is.
pub open spec fn settings_read(
    settings: Seq<(String, String)>,
    trims: Seq<bool>,
    r: Result<Vec<Setting>, CliError>,
) -> bool {
    match r {
        Ok(list) => {
            &&& list@.len() == settings.len()
            &&& forall|i: int|
                #![trigger list@[i]]
                0 <= i < settings.len() ==> refusal_at(settings, trims, i) is None && reads_as(
                    settings[i].0@,
                    settings[i].1@,
                    list@[i],
                )
        },
        Err(e) => exists|i: int|
            0 <= i < settings.len() && #[trigger] refusal_at(settings, trims, i) == Some(e@)
                && forall|j: int| 0 <= j < i ==> #[trigger] refusal_at(settings, trims, j) is None,
    }
}

/// Reads the `key=value` pairs of the settings. They are to be changed together:
/// one that is refused refuses them all.
pub fn parse_settings(settings: &[(String, String)], trims: &[bool]) -> (r: Result<
    Vec<Setting>,
    CliError,
>)
    ensures
        settings_read(settings@, trims@, r),
{
    let mut list: Vec<Setting> = Vec::new();
    let mut i: usize = 0;
    while i < settings.len()
        invariant
            i <= settings.len(),
            list.len() == i,
            forall|j: int| 0 <= j < i ==> #[trigger] refusal_at(settings@, trims@, j) is None,
            forall|j: int|
                #![trigger list@[j]]
                0 <= j < i ==> reads_as(settings@[j].0@, settings@[j].1@, list@[j]),
        decreases settings.len() - i,
    {
        let key = settings[i].0.as_str();
        let value = settings[i].1.as_str();
        let ghost why = refusal_at(settings@, trims@, i as int);
        let fits = i < trims.len() && trims[i];
        match parse_setting(key, value) {
            Ok(setting) => {
                let is_trim = match setting {
                    Setting::PitchTrim | Setting::RollTrim => true,
                    _ => false,
                };
                if is_trim && !fits {
                    let e = trim_error(key, value);
                    assert(why == Some(e@));
                    return Err(e);
                }
                assert(why is None);
                list.push(setting);
            },
            Err(e) => {
                assert(why == Some(e@));
                return Err(e);
            },
        }
        i += 1;
    }
    assert forall|j: int| 0 <= j < settings@.len() implies refusal_at(settings@, trims@, j) is None
        && reads_as(settings@[j].0@, settings@[j].1@, #[trigger] list@[j]) by {
        assert(refusal_at(settings@, trims@, j) is None);
    }
    Ok(list)
}

/// The bytes of an address as a list of two hexadecimal digits each.
pub open spec fn address_list(a: Seq<u8>) -> Seq<char> {
    "["@ + byte_hex(a[0], true) + ", "@ + byte_hex(a[1], true) + ", "@ + byte_hex(a[2], true)
        + ", "@ + byte_hex(a[3], true) + ", "@ + byte_hex(a[4], true) + "]"@
}

fn one_byte(b: u8) -> (r: String)
    ensures
        r@ == byte_hex(b, true),
{
    let mut bytes: Vec<u8> = Vec::new();
    bytes.push(b);
    let r = write_bytes(bytes.as_slice(), true);
    assert(bytes@.drop_last() =~= Seq::empty());
    assert(bytes_hex(bytes@.drop_last(), true) =~= Seq::empty());
    assert(r@ =~= byte_hex(b, true));
    r
}

/// The line that confirms a setting, where its value is known here.
pub open spec fn report_of(setting: Setting, key: Seq<char>) -> Option<Seq<char>> {
    match setting {
        Setting::Channel(n) => Some("Set radio channel to "@ + decimal_of(n as nat)),
        Setting::Address(a) => Some("Set radio address to "@ + address_list(a@)),
        Setting::Speed(n) => Some("Set radio speed to "@ + decimal_of(n as nat)),
        Setting::Unknown => Some("Unknown setting: "@ + key),
        _ => None,
    }
}

/// The line that confirms a setting, where its value is known here.
pub fn setting_report(setting: &Setting, key: &str) -> (line: Option<String>)
    ensures
        opt_text(line) == report_of(*setting, key@),
{
    match setting {
        Setting::Channel(n) => Some(
            concat("Set radio channel to ", decimal(*n as u64).as_str()),
        ),
        Setting::Address(a) => Some(
            "Set radio address to ".to_owned().concat(
                "[".to_owned().concat(one_byte(a[0]).as_str()).concat(", ").concat(
                    one_byte(a[1]).as_str(),
                ).concat(", ").concat(one_byte(a[2]).as_str()).concat(", ").concat(
                    one_byte(a[3]).as_str(),
                ).concat(", ").concat(one_byte(a[4]).as_str()).concat("]").as_str(),
            ),
        ),
        Setting::Speed(n) => Some(concat("Set radio speed to ", decimal(*n as u64).as_str())),
        Setting::Unknown => Some(concat("Unknown setting: ", key)),
        _ => None,
    }
}

// ---- Laws ------------------------------------------------------------------

proof fn lemma_no_question_mark(a: Seq<char>, b: Seq<char>)
    requires
        !a.contains('?'),
        !b.contains('?'),
    ensures
        !(a + b).contains('?'),
{
    assert forall|i: int| 0 <= i < (a + b).len() implies (a + b)[i] != '?' by {
        if i < a.len() {
            assert(a[i] == (a + b)[i]);
        } else {
            assert(b[i - a.len()] == (a + b)[i]);
        }
    }
}

/// Settings are changed together or not at all: where one of them is refused,
/// there is nothing to commit, however many others are in order, and the exit
/// code is 30.
pub proof fn one_refused_setting_refuses_all(
    settings: Seq<(String, String)>,
    trims: Seq<bool>,
    i: int,
    r: Result<Vec<Setting>, CliError>,
)
    requires
        settings_read(settings, trims, r),
        0 <= i < settings.len(),
        refusal_at(settings, trims, i) is Some,
    ensures
        r matches Err(e) && e.code() == 30 && e is InvalidValue,
{
    if let Ok(list) = r {
        assert(reads_as(settings[i].0@, settings[i].1@, list@[i]));
    }
}

/// Keys that are not known refuse nothing: the settings are read as long as the
/// values of the known keys are in order.
pub proof fn unknown_settings_refuse_nothing(
    settings: Seq<(String, String)>,
    trims: Seq<bool>,
    r: Result<Vec<Setting>, CliError>,
)
    requires
        settings_read(settings, trims, r),
        forall|i: int|
            0 <= i < settings.len() && is_setting((#[trigger] settings[i]).0@) ==> refusal_at(
                settings,
                trims,
                i,
            ) is None,
    ensures
        r matches Ok(list) && forall|i: int|
            0 <= i < settings.len() && !is_setting((#[trigger] settings[i]).0@) ==> list@[i]
                == Setting::Unknown,
{
    if let Err(e) = r {
        let i = choose|i: int|
            0 <= i < settings.len() && #[trigger] refusal_at(settings, trims, i) == Some(e@);
        assert(is_setting(settings[i].0@));
    }
    if let Ok(list) = r {
        assert forall|i: int|
            0 <= i < settings.len() && !is_setting((#[trigger] settings[i]).0@) implies list@[i]
            == Setting::Unknown by {
            assert(reads_as(settings[i].0@, settings[i].1@, list@[i]));
        }
    }
}

/// A radio link is never taken for a USB link: a configured timeout is its first
/// and only query parameter.
pub proof fn radio_links_take_the_timeout(channel: u8, speed: u8, address: Seq<u8>, ms: u32)
    ensures
        link_uri(radio_uri_of(channel, speed, address), Some(ms)) == radio_uri_of(
            channel,
            speed,
            address,
        ) + "?timeout="@ + decimal_of(ms as nat),
{
    reveal_strlit("radio://0/");
    reveal_strlit("usb://");
    reveal_strlit("/");
    reveal_strlit("250K");
    reveal_strlit("1M");
    reveal_strlit("2M");
    let number = decimal_of(channel as nat);
    let digits = bytes_hex(address, true);
    let uri = radio_uri_of(channel, speed, address);
    assert(uri[0] == 'r');
    assert("usb://"@[0] == 'u');
    lemma_digits(channel as nat, 10, false);
    lemma_bytes_hex(address, true);
    assert(!number.contains('?'));
    assert(!digits.contains('?'));
    lemma_no_question_mark("radio://0/"@, number);
    lemma_no_question_mark("radio://0/"@ + number, "/"@);
    lemma_no_question_mark("radio://0/"@ + number + "/"@, speed_in_uri(speed));
    lemma_no_question_mark("radio://0/"@ + number + "/"@ + speed_in_uri(speed), "/"@);
    lemma_no_question_mark("radio://0/"@ + number + "/"@ + speed_in_uri(speed) + "/"@, digits);
}

proof fn lemma_keys_differ()
    ensures
        "channel"@ != "address"@,
        "channel"@ != "speed"@,
        "channel"@ != "pitch_trim"@,
        "channel"@ != "roll_trim"@,
        "address"@ != "speed"@,
        "address"@ != "pitch_trim"@,
        "address"@ != "roll_trim"@,
        "speed"@ != "pitch_trim"@,
        "speed"@ != "roll_trim"@,
        "pitch_trim"@ != "roll_trim"@,
{
    reveal_strlit("channel");
    reveal_strlit("address");
    reveal_strlit("speed");
    reveal_strlit("pitch_trim");
    reveal_strlit("roll_trim");
    assert("channel"@[0] == 'c');
    assert("address"@[0] == 'a');
    assert("speed"@[0] == 's');
    assert("pitch_trim"@[0] == 'p');
    assert("roll_trim"@[0] == 'r');
}

/// An address that is set is the address that decoding the same text gives, byte
/// by byte; a text that cannot be decoded is refused, and no other is.
pub proof fn set_address_is_the_decoded_one(
    value: Seq<char>,
    trim_fits: bool,
    setting: Setting,
    decoded: [u8; 5],
)
    ensures
        refusal("address"@, value, trim_fits) is None <==> address_value(value) is Some,
        reads_as("address"@, value, setting) && address_value(value) == Some(big_endian(decoded@))
            ==> (setting matches Setting::Address(a) && a@ == decoded@),
{
    lemma_keys_differ();
    if let Setting::Address(a) = setting {
        if big_endian(a@) == big_endian(decoded@) {
            address_bytes_are_unique(a, decoded);
        }
    }
}

/// Setting the ten digits that are written for an address sets that address.
pub proof fn written_address_is_set(address: [u8; 5], trim_fits: bool, setting: Setting)
    ensures
        refusal("address"@, bytes_hex(address@, true), trim_fits) is None,
        reads_as("address"@, bytes_hex(address@, true), setting) ==> (
        setting matches Setting::Address(a) && a@ == address@),
{
    decoding_undoes_encoding(address);
    set_address_is_the_decoded_one(bytes_hex(address@, true), trim_fits, setting, address);
}

/// Of ten hexadecimal digits, each pair is the byte at its place in the address
/// that is set.
pub proof fn digits_are_set_in_their_order(value: Seq<char>, address: [u8; 5], i: int)
    requires
        value.len() == 10,
        forall|k: int| 0 <= k < 10 ==> digit_value(#[trigger] value[k]) < 16,
        reads_as("address"@, value, Setting::Address(address)),
        0 <= i < 5,
    ensures
        address@[i] == digit_value(value[2 * i]) * 16 + digit_value(value[2 * i + 1]),
{
    lemma_keys_differ();
    ten_digits_are_five_bytes(value, address@, i);
}

/// A channel is set exactly where the value is a decimal number up to 125, and
/// then that channel is.
pub proof fn channels_are_set_as_written(
    value: Seq<char>,
    trim_fits: bool,
    setting: Setting,
    n: nat,
)
    ensures
        refusal("channel"@, value, trim_fits) is None <==> (unsigned_value(value, 10) matches Some(
            c,
        ) && c <= 125),
        reads_as("channel"@, value, setting) && unsigned_value(value, 10) == Some(n) ==> (
        setting matches Setting::Channel(c) && c == n),
{
}

/// A speed is set exactly where the value is 0, 1 or 2 in decimal, and then that
/// speed is.
pub proof fn speeds_are_set_as_written(value: Seq<char>, trim_fits: bool, setting: Setting, n: nat)
    ensures
        refusal("speed"@, value, trim_fits) is None <==> (unsigned_value(value, 10) matches Some(
            s,
        ) && s <= 2),
        reads_as("speed"@, value, setting) && unsigned_value(value, 10) == Some(n) ==> (
        setting matches Setting::Speed(s) && s == n),
{
    lemma_keys_differ();
}

/// A trim is set exactly where its value fits, the one that was named, and any
/// other key sets nothing.
pub proof fn trims_are_set_where_they_fit(
    key: Seq<char>,
    value: Seq<char>,
    trim_fits: bool,
    setting: Setting,
)
    ensures
        refusal("pitch_trim"@, value, trim_fits) is None <==> trim_fits,
        refusal("roll_trim"@, value, trim_fits) is None <==> trim_fits,
        reads_as("pitch_trim"@, value, setting) <==> setting is PitchTrim,
        reads_as("roll_trim"@, value, setting) <==> setting is RollTrim,
        !is_setting(key) ==> refusal(key, value, trim_fits) is None && (reads_as(
            key,
            value,
            setting,
        ) <==> setting is Unknown),
        is_setting(key) ==> !reads_as(key, value, Setting::Unknown),
{
    lemma_keys_differ();
}

/// A value that is refused is invalid, and the message repeats it.
pub proof fn refusals_repeat_the_value(key: Seq<char>, value: Seq<char>, trim_fits: bool)
    ensures
        refusal(key, value, trim_fits) matches Some(why) ==> (why matches ErrorView::InvalidValue(
            text,
        ) && stands_in(value, text)),
{
}

/// There must be exactly one configuration memory; the message tells how many
/// there are.
pub proof fn configuration_needs_one_memory(count: nat, exiting: bool)
    ensures
        config_memory_check(count, exiting) is Ok <==> count == 1,
        config_memory_check(count, exiting) matches Err(why) ==> (why matches CauseView::Other(text)
            && stands_in(decimal_of(count), text)),
{
    let end = if exiting {
        "), exiting!"@
    } else {
        ")"@
    };
    let text = "No EEPROMConfig memory found or more than one ("@ + decimal_of(count) + end;
    assert(stands_in(decimal_of(count), text));
}

proof fn lemma_no_slash(s: Seq<char>)
    requires
        forall|i: int| 0 <= i < s.len() ==> digit_value(#[trigger] s[i]) < 36,
    ensures
        split(s, '/') == seq![s],
{
    assert forall|i: int| 0 <= i < s.len() implies s[i] != '/' by {
        assert(digit_value(s[i]) < 36);
    }
    split_without_separator(s, '/');
}

/// The link address of a Crazyflie names, between slashes, the radio, the channel
/// in decimal, the speed and the address in ten digits, and nothing else. Each
/// speed has a text of its own.
pub proof fn radio_links_name_their_settings(channel: u8, speed: u8, address: Seq<u8>)
    ensures
        split(radio_uri_of(channel, speed, address), '/') == seq![
            "radio:"@,
            Seq::empty(),
            "0"@,
            decimal_of(channel as nat),
            speed_in_uri(speed),
            bytes_hex(address, true),
        ],
        speed == 0 ==> speed_in_uri(speed) == "250K"@,
        speed == 1 ==> speed_in_uri(speed) == "1M"@,
        speed == 2 ==> speed_in_uri(speed) == "2M"@,
{
    reveal_strlit("radio://0/");
    reveal_strlit("radio:");
    reveal_strlit("0");
    reveal_strlit("/");
    reveal_strlit("250K");
    reveal_strlit("1M");
    reveal_strlit("2M");
    let number = decimal_of(channel as nat);
    let rate = speed_in_uri(speed);
    let digits = bytes_hex(address, true);
    let slash = seq!['/'];
    let none = Seq::<char>::empty();
    lemma_digits(channel as nat, 10, false);
    lemma_bytes_hex(address, true);
    lemma_no_slash(number);
    lemma_no_slash(rate);
    lemma_no_slash(digits);
    lemma_no_slash("0"@);
    lemma_no_slash(none);
    assert forall|i: int| 0 <= i < "radio:"@.len() implies "radio:"@[i] != '/' by {}
    split_without_separator("radio:"@, '/');
    let t4 = rate + slash + digits;
    let t3 = number + slash + t4;
    let t2 = "0"@ + slash + t3;
    let t1 = none + slash + t2;
    let t0 = "radio:"@ + slash + t1;
    splitting_goes_piece_by_piece(rate, digits, '/');
    splitting_goes_piece_by_piece(number, t4, '/');
    splitting_goes_piece_by_piece("0"@, t3, '/');
    splitting_goes_piece_by_piece(none, t2, '/');
    splitting_goes_piece_by_piece("radio:"@, t1, '/');
    assert("radio://0/"@ =~= "radio:"@ + slash + none + slash + "0"@ + slash);
    assert("/"@ =~= slash);
    assert(radio_uri_of(channel, speed, address) =~= t0);
    assert(split(t0, '/') =~= seq!["radio:"@, none, "0"@, number, rate, digits]);
}

/// The report on what was read, and the one on what was set, tell the values.
pub proof fn reports_tell_the_values(channel: u8, speed: u8, address: [u8; 5], key: Seq<char>)
    ensures
        stands_in(decimal_of(channel as nat), radio_told(channel, speed, address@)),
        stands_in(speed_shown(speed), radio_told(channel, speed, address@)),
        stands_in(bytes_hex(address@, true), radio_told(channel, speed, address@)),
        report_of(Setting::Channel(channel), key) matches Some(t) && stands_in(
            decimal_of(channel as nat),
            t,
        ),
        report_of(Setting::Speed(speed), key) matches Some(t) && stands_in(
            decimal_of(speed as nat),
            t,
        ),
        report_of(Setting::Address(address), key) matches Some(t) && stands_in(
            address_list(address@),
            t,
        ),
        report_of(Setting::Unknown, key) matches Some(t) && stands_in(key, t),
        report_of(Setting::PitchTrim, key) is None,
        report_of(Setting::RollTrim, key) is None,
{
    let none = Seq::<char>::empty();
    let head = "Read radio config: channel="@;
    let c = decimal_of(channel as nat);
    let s = speed_shown(speed);
    let a = bytes_hex(address@, true);
    let told = radio_told(channel, speed, address@);
    assert(told =~= head + c + (", speed="@ + s + ", address="@ + a));
    assert(told =~= (head + c + ", speed="@) + s + (", address="@ + a));
    assert(told =~= (head + c + ", speed="@ + s + ", address="@) + a + none);
    assert("Set radio channel to "@ + c =~= "Set radio channel to "@ + c + none);
    let n = decimal_of(speed as nat);
    assert("Set radio speed to "@ + n =~= "Set radio speed to "@ + n + none);
    let l = address_list(address@);
    assert("Set radio address to "@ + l =~= "Set radio address to "@ + l + none);
    assert("Unknown setting: "@ + key =~= "Unknown setting: "@ + key + none);
}

/// In the list of the bytes of an address, every byte stands at its place with
/// its two digits.
pub proof fn listed_bytes_stand_in_their_order(address: Seq<u8>, i: int)
    requires
        address.len() == 5,
        0 <= i < 5,
    ensures
        address_list(address).len() == 20,
        digit_value(address_list(address)[4 * i + 1]) * 16 + digit_value(
            address_list(address)[4 * i + 2],
        ) == address[i],
{
    reveal_strlit("[");
    reveal_strlit(", ");
    reveal_strlit("]");
    let list = address_list(address);
    assert(list[4 * i + 1] == byte_hex(address[i], true)[0] && list[4 * i + 2] == byte_hex(
        address[i],
        true,
    )[1]) by {
        if i == 0 {
        } else if i == 1 {
        } else if i == 2 {
        } else if i == 3 {
        } else {
        }
    }
}

}
