//! Classified failures and the exit codes that callers may rely on.
use vstd::prelude::*;

use crate::text::concat;

verus! {

/// Classified errors that map to non-zero exit codes the program promises to
/// its callers (humans and scripts). The exit code is the contract; the
/// human-readable message is best-effort and can change.
#[derive(Debug, Clone, PartialEq, Eq)]
pub enum CliError {
    Connection(String),
    NotFound(String),
    /// A required argument wasn't supplied and the program is non-interactive.
    /// Shares its exit code with `InvalidValue`: both are the caller's
    /// responsibility to fix.
    MissingArg(String),
    InvalidValue(String),
    Timeout(String),
    Interrupted,
    Terminated,
}

/// A classified error with the characters of its text.
pub enum ErrorView {
    Connection(Seq<char>),
    NotFound(Seq<char>),
    MissingArg(Seq<char>),
    InvalidValue(Seq<char>),
    Timeout(Seq<char>),
    Interrupted,
    Terminated,
}

impl View for CliError {
    type V = ErrorView;

    open spec fn view(&self) -> ErrorView {
        match *self {
            CliError::Connection(s) => ErrorView::Connection(s@),
            CliError::NotFound(s) => ErrorView::NotFound(s@),
            CliError::MissingArg(s) => ErrorView::MissingArg(s@),
            CliError::InvalidValue(s) => ErrorView::InvalidValue(s@),
            CliError::Timeout(s) => ErrorView::Timeout(s@),
            CliError::Interrupted => ErrorView::Interrupted,
            CliError::Terminated => ErrorView::Terminated,
        }
    }
}

/// A result whose error is seen by its characters.
pub open spec fn checked<T>(r: Result<T, CliError>) -> Result<T, ErrorView> {
    match r {
        Ok(t) => Ok(t),
        Err(e) => Err(e@),
    }
}

impl CliError {
    /// The exit code of the program when it ends with this error.
    pub open spec fn code(self) -> i32 {
        match self {
            CliError::Connection(_) => 10,
            CliError::NotFound(_) => 20,
            CliError::MissingArg(_) => 30,
            CliError::InvalidValue(_) => 30,
            CliError::Timeout(_) => 40,
            CliError::Interrupted => 130,
            CliError::Terminated => 143,
        }
    }

    /// What is shown to the user.
    pub open spec fn shown(self) -> Seq<char> {
        match self {
            CliError::Connection(s) => "connection error: "@ + s@,
            CliError::NotFound(s) => "not found: "@ + s@,
            CliError::MissingArg(s) => "missing argument: "@ + s@,
            CliError::InvalidValue(s) => "invalid value: "@ + s@,
            CliError::Timeout(s) => "timeout: "@ + s@,
            CliError::Interrupted => "interrupted"@,
            CliError::Terminated => "terminated"@,
        }
    }

    /// The exit code that this error stands for.
    pub fn exit_code(&self) -> (code: i32)
        ensures
            code == self.code(),
    {
        match self {
            CliError::Connection(_) => 10,
            CliError::NotFound(_) => 20,
            CliError::MissingArg(_) | CliError::InvalidValue(_) => 30,
            CliError::Timeout(_) => 40,
            CliError::Interrupted => 130,
            CliError::Terminated => 143,
        }
    }

    /// The text that is shown for this error.
    pub fn message(&self) -> (text: String)
        ensures
            text@ == self.shown(),
    {
        match self {
            CliError::Connection(s) => concat("connection error: ", s.as_str()),
            CliError::NotFound(s) => concat("not found: ", s.as_str()),
            CliError::MissingArg(s) => concat("missing argument: ", s.as_str()),
            CliError::InvalidValue(s) => concat("invalid value: ", s.as_str()),
            CliError::Timeout(s) => concat("timeout: ", s.as_str()),
            CliError::Interrupted => "interrupted".to_owned(),
            CliError::Terminated => "terminated".to_owned(),
        }
    }
}

// ---- Errors of the device library ------------------------------------------

/// Which error the device library reported, one variant for each of its own.
#[derive(Debug, Clone, Copy, PartialEq, Eq, Structural)]
pub enum DeviceError {
    ProtocolVersionNotSupported,
    Protocol,
    Param,
    Log,
    Conversion,
    Link,
    Disconnected,
    VariableNotFound,
    System,
    AppchannelPacketTooLarge,
    InvalidArgument,
    Timeout,
    Memory,
    InvalidParameter,
}

/// `crazyflie_lib::Error`, of which nothing is seen inside.
#[verifier::external_type_specification]
#[verifier::external_body]
pub struct ExDeviceLibError(crazyflie_lib::Error);

/// The variant of an error value of the device library.
pub uninterp spec fn device_error(err: crazyflie_lib::Error) -> DeviceError;

/// Tells the variants of `crazyflie_lib::Error` apart. Claims that the result is
/// the variant of the error value and nothing about the text it carries.
#[verifier::external_body]
fn device_error_of(err: &crazyflie_lib::Error) -> (kind: DeviceError)
    ensures
        kind == device_error(*err),
{
    match err {
        crazyflie_lib::Error::ProtocolVersionNotSupported { .. } => DeviceError::ProtocolVersionNotSupported,
        crazyflie_lib::Error::ProtocolError(_) => DeviceError::Protocol,
        crazyflie_lib::Error::ParamError(_) => DeviceError::Param,
        crazyflie_lib::Error::LogError(_) => DeviceError::Log,
        crazyflie_lib::Error::ConversionError(_) => DeviceError::Conversion,
        crazyflie_lib::Error::LinkError(_) => DeviceError::Link,
        crazyflie_lib::Error::Disconnected => DeviceError::Disconnected, crazyflie_lib::Error::Timeout => DeviceError::Timeout,
        crazyflie_lib::Error::VariableNotFound => DeviceError::VariableNotFound,
        crazyflie_lib::Error::SystemError(_) => DeviceError::System,
        crazyflie_lib::Error::AppchannelPacketTooLarge => DeviceError::AppchannelPacketTooLarge,
        crazyflie_lib::Error::InvalidArgument(_) => DeviceError::InvalidArgument,
        crazyflie_lib::Error::MemoryError(_) => DeviceError::Memory,
        crazyflie_lib::Error::InvalidParameter(_) => DeviceError::InvalidParameter,
    }
}

impl DeviceError {
    /// The exit code of a device error, where it has one of its own.
    pub open spec fn code(self) -> Option<i32> {
        match self {
            DeviceError::VariableNotFound => Some(20i32),
            DeviceError::Link => Some(10i32),
            DeviceError::Disconnected => Some(10i32),
            DeviceError::InvalidArgument => Some(30i32),
            DeviceError::InvalidParameter => Some(30i32),
            DeviceError::Conversion => Some(30i32),
            _ => None,
        }
    }

    /// The exit code of a device error. Errors that carry only free-form text
    /// have none: whoever raises them names the cause in front of them.
    pub fn exit_code(&self) -> (code: Option<i32>)
        ensures
            code == self.code(),
    {
        match self {
            DeviceError::VariableNotFound => Some(20),
            DeviceError::Link | DeviceError::Disconnected => Some(10),
            DeviceError::InvalidArgument
            | DeviceError::InvalidParameter
            | DeviceError::Conversion => Some(30),
            _ => None,
        }
    }
}

// ---- Chains of causes ------------------------------------------------------

/// One link in the chain of causes of a failure.
#[derive(Debug, Clone, PartialEq, Eq)]
pub enum Cause {
    /// A classified error of this program.
    Cli(CliError),
    /// An error of the device library.
    Device(DeviceError),
    /// Anything else, with its text.
    Other(String),
}

/// A cause with the characters of its text.
pub enum CauseView {
    Cli(ErrorView),
    Device(DeviceError),
    Other(Seq<char>),
}

impl View for Cause {
    type V = CauseView;

    open spec fn view(&self) -> CauseView {
        match *self {
            Cause::Cli(e) => CauseView::Cli(e@),
            Cause::Device(e) => CauseView::Device(e),
            Cause::Other(s) => CauseView::Other(s@),
        }
    }
}

/// A result whose cause of failure is seen by its characters.
pub open spec fn caused<T>(r: Result<T, Cause>) -> Result<T, CauseView> {
    match r {
        Ok(t) => Ok(t),
        Err(e) => Err(e@),
    }
}

impl Cause {
    /// The exit code that this cause decides, if it decides one.
    pub open spec fn code(self) -> Option<i32> {
        match self {
            Cause::Cli(e) => Some(e.code()),
            Cause::Device(e) => e.code(),
            Cause::Other(_) => None,
        }
    }

    /// The cause that an error of the device library is.
    pub fn device(err: &crazyflie_lib::Error) -> (cause: Cause)
        ensures
            cause == Cause::Device(device_error(*err)),
    {
        Cause::Device(device_error_of(err))
    }
}

/// The exit code of the first classified error in a chain of causes.
pub open spec fn classified_code(chain: Seq<Cause>) -> Option<i32>
    decreases chain.len(),
{
    if chain.len() == 0 {
        None
    } else {
        match chain[0] {
            Cause::Cli(e) => Some(e.code()),
            _ => classified_code(chain.skip(1)),
        }
    }
}

/// The exit code of the first device error in a chain of causes that has one.
pub open spec fn device_code(chain: Seq<Cause>) -> Option<i32>
    decreases chain.len(),
{
    if chain.len() == 0 {
        None
    } else {
        match chain[0] {
            Cause::Device(e) => match e.code() {
                Some(code) => Some(code),
                None => device_code(chain.skip(1)),
            },
            _ => device_code(chain.skip(1)),
        }
    }
}

/// The exit code of a chain of causes: that of the first classified error, else
/// that of the first device error that has one, else 1.
pub open spec fn chain_code(chain: Seq<Cause>) -> i32 {
    match classified_code(chain) {
        Some(code) => code,
        None => match device_code(chain) {
            Some(code) => code,
            None => 1,
        },
    }
}

/// Walks a chain of causes from the outermost inwards and returns the most
/// specific exit code it holds. Classified errors win; otherwise known device
/// errors decide. Unclassified failures return 1.
pub fn classify_exit_code(chain: &[Cause]) -> (code: i32)
    ensures
        code == chain_code(chain@),
{
    let mut from_device: Option<i32> = None;
    let mut i: usize = 0;
    assert(chain@.skip(0) =~= chain@);
    while i < chain.len()
        invariant
            i <= chain.len(),
            classified_code(chain@) == classified_code(chain@.skip(i as int)),
            device_code(chain@) == (match from_device {
                Some(code) => Some(code),
                None => device_code(chain@.skip(i as int)),
            }),
        decreases chain.len() - i,
    {
        assert(chain@.skip(i as int).skip(1) =~= chain@.skip(i + 1));
        match &chain[i] {
            Cause::Cli(e) => return e.exit_code(),
            Cause::Device(e) => {
                if from_device.is_none() {
                    from_device = e.exit_code();
                }
            },
            Cause::Other(_) => {},
        }
        i += 1;
    }
    match from_device {
        Some(code) => code,
        None => 1,
    }
}

/// The exit code of the whole program: 0 on success, else that of the failure.
pub open spec fn status_of(result: Result<(), Vec<Cause>>) -> i32 {
    match result {
        Ok(_) => 0,
        Err(chain) => chain_code(chain@),
    }
}

/// The exit code of the whole program: 0 on success, else that of the failure.
pub fn exit_status(result: &Result<(), Vec<Cause>>) -> (code: i32)
    ensures
        code == status_of(*result),
{
    match result {
        Ok(_) => 0,
        Err(chain) => classify_exit_code(chain.as_slice()),
    }
}

// ---- Laws ------------------------------------------------------------------

proof fn lemma_codes(chain: Seq<Cause>)
    ensures
        classified_code(chain) matches Some(c) ==> set![10i32, 20, 30, 40, 130, 143].contains(c),
        device_code(chain) matches Some(c) ==> set![10i32, 20, 30].contains(c),
    decreases chain.len(),
{
    if chain.len() > 0 {
        lemma_codes(chain.skip(1));
    }
}

/// A failure never ends with exit code 0, and its exit code is one of the
/// documented ones.
pub proof fn failures_are_visible(chain: Seq<Cause>)
    ensures
        chain_code(chain) != 0,
        set![1i32, 10, 20, 30, 40, 130, 143].contains(chain_code(chain)),
{
    lemma_codes(chain);
}

proof fn lemma_context(context: Seq<Cause>, chain: Seq<Cause>)
    requires
        forall|i: int| 0 <= i < context.len() ==> !((#[trigger] context[i]) is Cli),
    ensures
        classified_code(context + chain) == classified_code(chain),
        (forall|i: int| 0 <= i < context.len() ==> (#[trigger] context[i]).code() is None)
            ==> device_code(context + chain) == device_code(chain),
    decreases context.len(),
{
    if context.len() == 0 {
        assert(context + chain =~= chain);
    } else {
        let rest = context.skip(1);
        assert((context + chain).skip(1) =~= rest + chain);
        assert forall|i: int| 0 <= i < rest.len() implies !((#[trigger] rest[i]) is Cli) by {
            assert(rest[i] == context[i + 1]);
        }
        if forall|i: int| 0 <= i < context.len() ==> (#[trigger] context[i]).code() is None {
            assert forall|i: int| 0 <= i < rest.len() implies (#[trigger] rest[i]).code()
                is None by {
                assert(rest[i] == context[i + 1]);
            }
        }
        lemma_context(rest, chain);
    }
}

/// Causes that decide nothing do not change the exit code, wherever a context
/// wraps them around a failure.
pub proof fn context_keeps_the_code(context: Seq<Cause>, chain: Seq<Cause>)
    requires
        forall|i: int| 0 <= i < context.len() ==> (#[trigger] context[i]).code() is None,
    ensures
        chain_code(context + chain) == chain_code(chain),
{
    lemma_context(context, chain);
}

/// A classified error decides the exit code, whatever caused it and whatever
/// stands in front of it, unless that is classified itself.
pub proof fn classified_error_wins(context: Seq<Cause>, err: CliError, causes: Seq<Cause>)
    requires
        forall|i: int| 0 <= i < context.len() ==> !((#[trigger] context[i]) is Cli),
    ensures
        chain_code(context + seq![Cause::Cli(err)] + causes) == err.code(),
{
    let chain = seq![Cause::Cli(err)] + causes;
    assert(chain[0] == Cause::Cli(err));
    assert(context + seq![Cause::Cli(err)] + causes =~= context + chain);
    lemma_context(context, chain);
}

/// Each class of errors has the exit code that callers rely on, whatever its
/// text. A missing argument and an invalid value share theirs.
pub proof fn classes_have_their_exit_codes(text: String)
    ensures
        CliError::Connection(text).code() == 10,
        CliError::NotFound(text).code() == 20,
        CliError::MissingArg(text).code() == 30,
        CliError::InvalidValue(text).code() == 30,
        CliError::Timeout(text).code() == 40,
        CliError::Interrupted.code() == 130,
        CliError::Terminated.code() == 143,
{
}

/// What is shown for an error names its class and then gives its text in full.
pub proof fn messages_name_the_class(text: String)
    ensures
        CliError::Connection(text).shown() == "connection error: "@ + text@,
        CliError::NotFound(text).shown() == "not found: "@ + text@,
        CliError::MissingArg(text).shown() == "missing argument: "@ + text@,
        CliError::InvalidValue(text).shown() == "invalid value: "@ + text@,
        CliError::Timeout(text).shown() == "timeout: "@ + text@,
        CliError::Interrupted.shown() == "interrupted"@,
        CliError::Terminated.shown() == "terminated"@,
{
}

/// An error seen by its characters keeps its class and its text.
pub proof fn views_keep_class_and_text(err: CliError, text: Seq<char>)
    ensures
        err@ == ErrorView::Connection(text) <==> (err matches CliError::Connection(s) && s@ == text),
        err@ == ErrorView::NotFound(text) <==> (err matches CliError::NotFound(s) && s@ == text),
        err@ == ErrorView::MissingArg(text) <==> (err matches CliError::MissingArg(s) && s@ == text),
        err@ == ErrorView::InvalidValue(text) <==> (err matches CliError::InvalidValue(s) && s@
            == text),
        err@ == ErrorView::Timeout(text) <==> (err matches CliError::Timeout(s) && s@ == text),
        err@ == ErrorView::Interrupted <==> err is Interrupted,
        err@ == ErrorView::Terminated <==> err is Terminated,
        Cause::Cli(err)@ == CauseView::Cli(err@),
{
}

/// A broken link is a failed connection, a variable that is not there a missing
/// resource, and a value that the device does not take an invalid value. All
/// other device errors decide nothing.
pub proof fn device_errors_fall_into_classes(err: DeviceError, text: String)
    ensures
        err is Link || err is Disconnected <==> err.code() == Some(
            CliError::Connection(text).code(),
        ),
        err is VariableNotFound <==> err.code() == Some(CliError::NotFound(text).code()),
        err is InvalidArgument || err is InvalidParameter || err is Conversion <==> err.code()
            == Some(CliError::InvalidValue(text).code()),
        err is ProtocolVersionNotSupported || err is Protocol || err is Param || err is Log
            || err is System || err is AppchannelPacketTooLarge || err is Timeout || err is Memory
            <==> err.code() is None,
{
}

proof fn lemma_no_classified(chain: Seq<Cause>)
    requires
        forall|i: int| 0 <= i < chain.len() ==> !((#[trigger] chain[i]) is Cli),
    ensures
        classified_code(chain) is None,
    decreases chain.len(),
{
    if chain.len() > 0 {
        let rest = chain.skip(1);
        assert forall|i: int| 0 <= i < rest.len() implies !((#[trigger] rest[i]) is Cli) by {
            assert(rest[i] == chain[i + 1]);
        }
        assert(!(chain[0] is Cli));
        lemma_no_classified(rest);
    }
}

/// Where nothing is classified, the outermost device error that has an exit code
/// decides.
pub proof fn device_errors_decide_next(
    context: Seq<Cause>,
    err: DeviceError,
    code: i32,
    causes: Seq<Cause>,
)
    requires
        forall|i: int| 0 <= i < context.len() ==> (#[trigger] context[i]).code() is None,
        err.code() == Some(code),
        forall|i: int| 0 <= i < causes.len() ==> !((#[trigger] causes[i]) is Cli),
    ensures
        chain_code(context + seq![Cause::Device(err)] + causes) == code,
{
    let chain = seq![Cause::Device(err)] + causes;
    assert(chain[0] == Cause::Device(err));
    assert(context + seq![Cause::Device(err)] + causes =~= context + chain);
    assert forall|i: int| 0 <= i < chain.len() implies !((#[trigger] chain[i]) is Cli) by {
        if i > 0 {
            assert(chain[i] == causes[i - 1]);
        }
    }
    lemma_no_classified(chain);
    context_keeps_the_code(context, chain);
}

/// A failure of which nothing is known has exit code 1.
pub proof fn unclassified_failures_exit_with_1(chain: Seq<Cause>)
    requires
        forall|i: int| 0 <= i < chain.len() ==> (#[trigger] chain[i]).code() is None,
    ensures
        chain_code(chain) == 1,
{
    let none = Seq::<Cause>::empty();
    context_keeps_the_code(chain, none);
    assert(chain + none =~= chain);
}

/// The program exits with 0 exactly where the command succeeded, and a failure
/// exits with the code of its causes.
pub proof fn only_success_exits_with_0(result: Result<(), Vec<Cause>>)
    ensures
        status_of(result) == 0 <==> result is Ok,
        result matches Err(chain) ==> status_of(result) == chain_code(chain@),
{
    if let Err(chain) = result {
        failures_are_visible(chain@);
    }
}

}
