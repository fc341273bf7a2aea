//! The SCPI directives that the client sends, and the order in which each
//! operation sends them.

use vstd::prelude::*;
use vstd::string::*;

verus! {

/// Asks the instrument who it is.
pub const IDENTITY_QUERY: &'static str = "*IDN?";

/// Switches the ink saver off, so that a screen image keeps its colours.
pub const INK_SAVER_OFF: &'static str = ":HARDcopy:INKSaver OFF";

/// Asks for the screen as a colour PNG image.
pub const SCREEN_IMAGE_QUERY: &'static str = ":DISP:DATA? PNG, COLor";

/// Selects the raw acquisition memory as the source of waveform points.
pub const POINTS_MODE_RAW: &'static str = ":WAVeform:POINts:MODE RAW";

/// Sets the number of waveform points to transfer.
pub const POINTS_COUNT: &'static str = ":WAVeform:POINts 10240";

/// Selects the channel to read; the channel number follows.
pub const SOURCE_CHANNEL: &'static str = ":WAVeform:SOURce CHANnel";

/// Selects one byte per sample.
pub const FORMAT_BYTE: &'static str = ":WAVeform:FORMat BYTE";

/// Asks for the preamble that scales the samples.
pub const PREAMBLE_QUERY: &'static str = ":WAVeform:PREamble?";

/// Asks for the samples.
pub const DATA_QUERY: &'static str = ":WAVeform:DATA?";

/// What the instrument sends back for a directive.
#[derive(Debug, Clone, Copy, PartialEq, Eq, Structural)]
pub enum Reply {
    /// An action: nothing comes back and nothing is read.
    Nothing,
    /// A line of text.
    Text,
    /// A definite-length block.
    Block,
}

/// One directive: the bytes to send and the reply to expect.
#[derive(Debug, PartialEq, Eq)]
pub struct Command {
    pub bytes: Vec<u8>,
    pub reply: Reply,
}

/// A directive as contracts see it.
pub struct CommandModel {
    pub bytes: Seq<u8>,
    pub reply: Reply,
}

impl View for Command {
    type V = CommandModel;

    open spec fn view(&self) -> CommandModel {
        CommandModel { bytes: self.bytes@, reply: self.reply }
    }
}

/// The directive that sends `text` and expects `reply`.
pub open spec fn directive(text: &str, reply: Reply) -> CommandModel {
    CommandModel { bytes: text.spec_bytes(), reply }
}

/// The decimal digits of `n` as ASCII bytes, most significant first, without
/// leading zeros.
pub open spec fn decimal_digits(n: nat) -> Seq<u8>
    decreases n,
{
    if n < 10 {
        seq![(48 + n) as u8]
    } else {
        decimal_digits(n / 10).push((48 + n % 10) as u8)
    }
}

/// The number that decimal digits stand for.
pub open spec fn decimal_value(digits: Seq<u8>) -> nat
    decreases digits.len(),
{
    if digits.len() == 0 {
        0
    } else {
        (decimal_value(digits.drop_last()) * 10 + (digits.last() - 48)) as nat
    }
}

/// The digits of a number are ASCII digits that stand for that number, and
/// they start with a zero only where the number is zero.
pub proof fn lemma_decimal_digits(n: nat)
    ensures
        decimal_digits(n).len() >= 1,
        forall|i: int| 0 <= i < decimal_digits(n).len() ==> 48 <= #[trigger] decimal_digits(n)[i] <= 57,
        decimal_value(decimal_digits(n)) == n,
        decimal_digits(n)[0] == 48 <==> n == 0,
    decreases n,
{
    if n < 10 {
        assert(decimal_digits(n).drop_last() =~= Seq::<u8>::empty());
        assert(decimal_value(Seq::<u8>::empty()) == 0);
    } else {
        lemma_decimal_digits(n / 10);
        assert(decimal_digits(n).drop_last() =~= decimal_digits(n / 10));
    }
}

/// The directive that selects channel `channel` as the waveform source.
pub open spec fn source_directive(channel: u64) -> CommandModel {
    CommandModel {
        bytes: SOURCE_CHANNEL.spec_bytes() + decimal_digits(channel as nat),
        reply: Reply::Nothing,
    }
}

/// The directives of the identity query.
pub open spec fn identity_steps() -> Seq<CommandModel> {
    seq![directive(IDENTITY_QUERY, Reply::Text)]
}

/// The directives of the screen capture.
pub open spec fn screenshot_steps() -> Seq<CommandModel> {
    seq![directive(INK_SAVER_OFF, Reply::Nothing), directive(SCREEN_IMAGE_QUERY, Reply::Block)]
}

/// The directives of the waveform transfer from channel `channel`.
pub open spec fn waveform_steps(channel: u64) -> Seq<CommandModel> {
    seq![
        directive(POINTS_MODE_RAW, Reply::Nothing),
        directive(POINTS_COUNT, Reply::Nothing),
        source_directive(channel),
        directive(FORMAT_BYTE, Reply::Nothing),
        directive(PREAMBLE_QUERY, Reply::Text),
        directive(DATA_QUERY, Reply::Block),
    ]
}

/// A sequence of directives as contracts see it.
pub open spec fn steps_of(plan: Seq<Command>) -> Seq<CommandModel> {
    plan.map_values(|c: Command| c@)
}

impl Command {
    /// The directive that sends the bytes of `text` and expects `reply`.
    pub fn new(text: &str, reply: Reply) -> (c: Command)
        ensures
            c@ == directive(text, reply),
    {
        Command { bytes: text.as_bytes_vec(), reply }
    }

    /// The directive that selects the channel to read.
    pub fn source(channel: u64) -> (c: Command)
        ensures
            c@ == source_directive(channel),
    {
        let mut bytes: Vec<u8> = SOURCE_CHANNEL.as_bytes_vec();
        push_decimal(&mut bytes, channel);
        Command { bytes, reply: Reply::Nothing }
    }
}

/// Appends the decimal digits of `n` to `out`.
pub fn push_decimal(out: &mut Vec<u8>, n: u64)
    ensures
        final(out)@ == old(out)@ + decimal_digits(n as nat),
    decreases n,
{
    if n >= 10 {
        push_decimal(out, n / 10);
    }
    let digit: u8 = (n % 10) as u8;
    out.push(48 + digit);
}

/// The identity query: one directive, answered by a line of text.
pub fn identity_plan() -> (plan: Vec<Command>)
    ensures
        steps_of(plan@) == identity_steps(),
{
    let mut plan: Vec<Command> = Vec::new();
    plan.push(Command::new(IDENTITY_QUERY, Reply::Text));
    assert(steps_of(plan@) =~= identity_steps());
    plan
}

/// The screen capture: the ink saver goes off, then the image is asked for.
pub fn screenshot_plan() -> (plan: Vec<Command>)
    ensures
        steps_of(plan@) == screenshot_steps(),
{
    let mut plan: Vec<Command> = Vec::new();
    plan.push(Command::new(INK_SAVER_OFF, Reply::Nothing));
    plan.push(Command::new(SCREEN_IMAGE_QUERY, Reply::Block));
    assert(steps_of(plan@) =~= screenshot_steps());
    plan
}

/// The waveform transfer: four directives set the acquisition up, then the
/// preamble and the samples are asked for.
pub fn waveform_plan(channel: u64) -> (plan: Vec<Command>)
    ensures
        steps_of(plan@) == waveform_steps(channel),
{
    let mut plan: Vec<Command> = Vec::new();
    plan.push(Command::new(POINTS_MODE_RAW, Reply::Nothing));
    plan.push(Command::new(POINTS_COUNT, Reply::Nothing));
    plan.push(Command::source(channel));
    plan.push(Command::new(FORMAT_BYTE, Reply::Nothing));
    plan.push(Command::new(PREAMBLE_QUERY, Reply::Text));
    plan.push(Command::new(DATA_QUERY, Reply::Block));
    assert(steps_of(plan@) =~= waveform_steps(channel));
    plan
}

} // verus!
