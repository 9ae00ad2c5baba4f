//! Named video inputs and their protocol codes.

use vstd::prelude::*;
use crate::capabilities::{CapabilitiesView, MonitorCapabilities};
use crate::errors::MonitorError;
use crate::mccs::{lemma_command_view, CommandView};
use crate::text::same_text;

verus! {

/// A selectable video input of a monitor, as named by the MCCS standard for
/// the "Input Source" feature.
#[derive(Debug, Clone, Copy, PartialEq, Eq)]
pub enum MonitorInput {
    AnalogVideo1,
    AnalogVideo2,
    DVI1,
    DVI2,
    CompositeVideo1,
    CompositeVideo2,
    SVideo1,
    SVideo2,
    Tuner1,
    Tuner2,
    Tuner3,
    ComponentVideo1,
    ComponentVideo2,
    ComponentVideo3,
    DisplayPort1,
    DisplayPort2,
    HDMI1,
    HDMI2,
    Unknown,
    Reserved,
}

impl MonitorInput {
    /// The number that stands for this input on the wire.
    pub open spec fn spec_value(self) -> u16 {
        match self {
            MonitorInput::AnalogVideo1 => 1,
            MonitorInput::AnalogVideo2 => 2,
            MonitorInput::DVI1 => 3,
            MonitorInput::DVI2 => 4,
            MonitorInput::CompositeVideo1 => 5,
            MonitorInput::CompositeVideo2 => 6,
            MonitorInput::SVideo1 => 7,
            MonitorInput::SVideo2 => 8,
            MonitorInput::Tuner1 => 9,
            MonitorInput::Tuner2 => 10,
            MonitorInput::Tuner3 => 11,
            MonitorInput::ComponentVideo1 => 12,
            MonitorInput::ComponentVideo2 => 13,
            MonitorInput::ComponentVideo3 => 14,
            MonitorInput::DisplayPort1 => 15,
            MonitorInput::DisplayPort2 => 16,
            MonitorInput::HDMI1 => 17,
            MonitorInput::HDMI2 => 18,
            MonitorInput::Unknown => 19,
            MonitorInput::Reserved => 20,
        }
    }

    /// The input that a monitor means by the code `code` in its capability
    /// string. A code that is not in the table means `Unknown`.
    pub open spec fn for_code(code: Seq<char>) -> MonitorInput {
        if code == "01"@ {
            MonitorInput::AnalogVideo1
        } else if code == "02"@ {
            MonitorInput::AnalogVideo2
        } else if code == "03"@ {
            MonitorInput::DVI1
        } else if code == "04"@ {
            MonitorInput::DVI2
        } else if code == "05"@ {
            MonitorInput::CompositeVideo1
        } else if code == "06"@ {
            MonitorInput::CompositeVideo2
        } else if code == "07"@ {
            MonitorInput::SVideo1
        } else if code == "08"@ {
            MonitorInput::SVideo2
        } else if code == "09"@ {
            MonitorInput::Tuner1
        } else if code == "0A"@ {
            MonitorInput::Tuner2
        } else if code == "0B"@ {
            MonitorInput::Tuner3
        } else if code == "0C"@ {
            MonitorInput::ComponentVideo1
        } else if code == "0D"@ {
            MonitorInput::ComponentVideo2
        } else if code == "0E"@ {
            MonitorInput::ComponentVideo3
        } else if code == "0F"@ {
            MonitorInput::DisplayPort1
        } else if code == "10"@ {
            MonitorInput::DisplayPort2
        } else if code == "11"@ {
            MonitorInput::HDMI1
        } else if code == "12"@ {
            MonitorInput::HDMI2
        } else {
            MonitorInput::Unknown
        }
    }

    /// The input that a monitor means by `code`. Codes are compared as
    /// text, letter for letter.
    pub fn from_code(code: &str) -> (input: MonitorInput)
        ensures
            input == MonitorInput::for_code(code@),
    {
        if same_text(code, "01") {
            MonitorInput::AnalogVideo1
        } else if same_text(code, "02") {
            MonitorInput::AnalogVideo2
        } else if same_text(code, "03") {
            MonitorInput::DVI1
        } else if same_text(code, "04") {
            MonitorInput::DVI2
        } else if same_text(code, "05") {
            MonitorInput::CompositeVideo1
        } else if same_text(code, "06") {
            MonitorInput::CompositeVideo2
        } else if same_text(code, "07") {
            MonitorInput::SVideo1
        } else if same_text(code, "08") {
            MonitorInput::SVideo2
        } else if same_text(code, "09") {
            MonitorInput::Tuner1
        } else if same_text(code, "0A") {
            MonitorInput::Tuner2
        } else if same_text(code, "0B") {
            MonitorInput::Tuner3
        } else if same_text(code, "0C") {
            MonitorInput::ComponentVideo1
        } else if same_text(code, "0D") {
            MonitorInput::ComponentVideo2
        } else if same_text(code, "0E") {
            MonitorInput::ComponentVideo3
        } else if same_text(code, "0F") {
            MonitorInput::DisplayPort1
        } else if same_text(code, "10") {
            MonitorInput::DisplayPort2
        } else if same_text(code, "11") {
            MonitorInput::HDMI1
        } else if same_text(code, "12") {
            MonitorInput::HDMI2
        } else {
            MonitorInput::Unknown
        }
    }

    /// The name under which this input is shown.
    pub open spec fn spec_display_name(self) -> Seq<char> {
        match self {
            MonitorInput::AnalogVideo1 => "Analog Video 1"@,
            MonitorInput::AnalogVideo2 => "Analog Video 2"@,
            MonitorInput::DVI1 => "DVI 1"@,
            MonitorInput::DVI2 => "DVI 2"@,
            MonitorInput::CompositeVideo1 => "Composite Video 1"@,
            MonitorInput::CompositeVideo2 => "Composite Video 2"@,
            MonitorInput::SVideo1 => "SVideo 1"@,
            MonitorInput::SVideo2 => "SVideo 2"@,
            MonitorInput::Tuner1 => "Tuner 1"@,
            MonitorInput::Tuner2 => "Tuner 2"@,
            MonitorInput::Tuner3 => "Tuner 3"@,
            MonitorInput::ComponentVideo1 => "Component Video 1"@,
            MonitorInput::ComponentVideo2 => "Component Video 2"@,
            MonitorInput::ComponentVideo3 => "Component Video 3"@,
            MonitorInput::DisplayPort1 => "DP 1"@,
            MonitorInput::DisplayPort2 => "DP 2"@,
            MonitorInput::HDMI1 => "HDMI 1"@,
            MonitorInput::HDMI2 => "HDMI 2"@,
            MonitorInput::Unknown => "Unknown"@,
            MonitorInput::Reserved => "Unknown"@,
        }
    }

    /// The name under which this input is shown.
    pub fn display_name(self) -> (name: &'static str)
        ensures
            name@ == self.spec_display_name(),
    {
        match self {
            MonitorInput::AnalogVideo1 => "Analog Video 1",
            MonitorInput::AnalogVideo2 => "Analog Video 2",
            MonitorInput::DVI1 => "DVI 1",
            MonitorInput::DVI2 => "DVI 2",
            MonitorInput::CompositeVideo1 => "Composite Video 1",
            MonitorInput::CompositeVideo2 => "Composite Video 2",
            MonitorInput::SVideo1 => "SVideo 1",
            MonitorInput::SVideo2 => "SVideo 2",
            MonitorInput::Tuner1 => "Tuner 1",
            MonitorInput::Tuner2 => "Tuner 2",
            MonitorInput::Tuner3 => "Tuner 3",
            MonitorInput::ComponentVideo1 => "Component Video 1",
            MonitorInput::ComponentVideo2 => "Component Video 2",
            MonitorInput::ComponentVideo3 => "Component Video 3",
            MonitorInput::DisplayPort1 => "DP 1",
            MonitorInput::DisplayPort2 => "DP 2",
            MonitorInput::HDMI1 => "HDMI 1",
            MonitorInput::HDMI2 => "HDMI 2",
            MonitorInput::Unknown => "Unknown",
            MonitorInput::Reserved => "Unknown",
        }
    }

    /// The protocol code of this input, which the two sentinels do not
    /// have.
    pub open spec fn spec_code(self) -> Option<u16> {
        match self {
            MonitorInput::Unknown => None,
            MonitorInput::Reserved => None,
            _ => Some(self.spec_value()),
        }
    }

    /// The protocol code of this input, which the two sentinels do not
    /// have.
    pub fn code(self) -> (code: Option<u16>)
        ensures
            code == self.spec_code(),
            code matches Some(number) ==> 1 <= number <= 18,
    {
        match self {
            MonitorInput::Unknown => None,
            MonitorInput::Reserved => None,
            _ => Some(self.value()),
        }
    }

    /// The text by which a monitor lists this input in its capability
    /// string: its protocol code in two hexadecimal digits.
    pub open spec fn code_text(self) -> Option<Seq<char>> {
        match self {
            MonitorInput::AnalogVideo1 => Some("01"@),
            MonitorInput::AnalogVideo2 => Some("02"@),
            MonitorInput::DVI1 => Some("03"@),
            MonitorInput::DVI2 => Some("04"@),
            MonitorInput::CompositeVideo1 => Some("05"@),
            MonitorInput::CompositeVideo2 => Some("06"@),
            MonitorInput::SVideo1 => Some("07"@),
            MonitorInput::SVideo2 => Some("08"@),
            MonitorInput::Tuner1 => Some("09"@),
            MonitorInput::Tuner2 => Some("0A"@),
            MonitorInput::Tuner3 => Some("0B"@),
            MonitorInput::ComponentVideo1 => Some("0C"@),
            MonitorInput::ComponentVideo2 => Some("0D"@),
            MonitorInput::ComponentVideo3 => Some("0E"@),
            MonitorInput::DisplayPort1 => Some("0F"@),
            MonitorInput::DisplayPort2 => Some("10"@),
            MonitorInput::HDMI1 => Some("11"@),
            MonitorInput::HDMI2 => Some("12"@),
            MonitorInput::Unknown => None,
            MonitorInput::Reserved => None,
        }
    }

    /// The number written to the monitor to select this input: its
    /// protocol code, and for the two sentinels the numbers behind the codes.
    pub fn value(self) -> (v: u16)
        ensures
            v == self.spec_value(),
    {
        match self {
            MonitorInput::AnalogVideo1 => 1,
            MonitorInput::AnalogVideo2 => 2,
            MonitorInput::DVI1 => 3,
            MonitorInput::DVI2 => 4,
            MonitorInput::CompositeVideo1 => 5,
            MonitorInput::CompositeVideo2 => 6,
            MonitorInput::SVideo1 => 7,
            MonitorInput::SVideo2 => 8,
            MonitorInput::Tuner1 => 9,
            MonitorInput::Tuner2 => 10,
            MonitorInput::Tuner3 => 11,
            MonitorInput::ComponentVideo1 => 12,
            MonitorInput::ComponentVideo2 => 13,
            MonitorInput::ComponentVideo3 => 14,
            MonitorInput::DisplayPort1 => 15,
            MonitorInput::DisplayPort2 => 16,
            MonitorInput::HDMI1 => 17,
            MonitorInput::HDMI2 => 18,
            MonitorInput::Unknown => 19,
            MonitorInput::Reserved => 20,
        }
    }
}

/// The number that the hexadecimal digit `c` stands for. Letters count as
/// digits in upper case only.
pub open spec fn hex_digit(c: char) -> Option<int> {
    if '0' <= c <= '9' {
        Some(c as int - '0' as int)
    } else if 'A' <= c <= 'F' {
        Some(c as int - 'A' as int + 10)
    } else {
        None
    }
}

/// The number that a text of two hexadecimal digits stands for.
pub open spec fn hex_pair(text: Seq<char>) -> Option<int> {
    if text.len() == 2 && hex_digit(text[0]) is Some && hex_digit(text[1]) is Some {
        Some(16 * hex_digit(text[0])->0 + hex_digit(text[1])->0)
    } else {
        None
    }
}

/// The table of codes is of one piece: the text by which a monitor lists an
/// input is read as that input again, and it is the protocol code of the
/// input in two hexadecimal digits.
pub proof fn lemma_code_table(input: MonitorInput)
    requires
        input.spec_code() is Some,
    ensures
        MonitorInput::for_code(input.code_text()->0) == input,
        hex_pair(input.code_text()->0) == Some(input.spec_code()->0 as int),
{
    reveal_strlit("01");
    reveal_strlit("02");
    reveal_strlit("03");
    reveal_strlit("04");
    reveal_strlit("05");
    reveal_strlit("06");
    reveal_strlit("07");
    reveal_strlit("08");
    reveal_strlit("09");
    reveal_strlit("0A");
    reveal_strlit("0B");
    reveal_strlit("0C");
    reveal_strlit("0D");
    reveal_strlit("0E");
    reveal_strlit("0F");
    reveal_strlit("10");
    reveal_strlit("11");
    reveal_strlit("12");
    let text = input.code_text()->0;
    assert(text.len() == 2);
    assert(text[0] == '0' || text[0] == '1');
    assert(hex_digit(text[1]) is Some);
}

/// A copy of a list of inputs.
pub fn clone_inputs(inputs: &Vec<MonitorInput>) -> (copies: Vec<MonitorInput>)
    ensures
        copies@ == inputs@,
{
    let mut copies: Vec<MonitorInput> = Vec::new();
    let mut i: usize = 0;
    while i < inputs.len()
        invariant
            i <= inputs.len(),
            copies@ == inputs@.take(i as int),
        decreases inputs.len() - i,
    {
        copies.push(inputs[i]);
        assert(inputs@.take(i + 1) == inputs@.take(i as int).push(inputs@[i as int]));
        i += 1;
    }
    assert(inputs@.take(inputs.len() as int) == inputs@);
    copies
}

/// The values of the first of `commands` whose code is that of the input
/// source feature, and no values where there is no such command.
pub open spec fn input_values(commands: Seq<CommandView>) -> Seq<CommandView>
    decreases commands.len(),
{
    if commands.len() == 0 {
        Seq::empty()
    } else if commands[0].command == "60"@ {
        commands[0].values
    } else {
        input_values(commands.drop_first())
    }
}

/// The inputs that a monitor with the capabilities `caps` can be switched
/// to, in the order in which the monitor lists them.
pub open spec fn inputs_of(caps: CapabilitiesView) -> Seq<MonitorInput> {
    let values = input_values(caps.vcp_codes);
    Seq::new(values.len(), |i: int| MonitorInput::for_code(values[i].command))
}

/// Capabilities without a command for the input source feature name no
/// inputs.
pub proof fn lemma_no_input_command_no_inputs(caps: CapabilitiesView)
    requires
        forall|i: int|
            0 <= i < caps.vcp_codes.len() ==> (#[trigger] caps.vcp_codes[i]).command != "60"@,
    ensures
        inputs_of(caps) == Seq::<MonitorInput>::empty(),
{
    lemma_no_input_command(caps.vcp_codes);
}

/// A list of commands without one for the input source feature gives no
/// input values.
pub proof fn lemma_no_input_command(commands: Seq<CommandView>)
    requires
        forall|i: int| 0 <= i < commands.len() ==> (#[trigger] commands[i]).command != "60"@,
    ensures
        input_values(commands) == Seq::<CommandView>::empty(),
    decreases commands.len(),
{
    if commands.len() > 0 {
        let tail = commands.drop_first();
        assert forall|i: int| 0 <= i < tail.len() implies (#[trigger] tail[i]).command
            != "60"@ by {
            assert(tail[i] == commands[i + 1]);
        }
        lemma_no_input_command(tail);
    }
}

/// The input values are those of the first command for the input source
/// feature: commands behind it do not count.
pub proof fn lemma_first_input_command(commands: Seq<CommandView>, at: int)
    requires
        0 <= at < commands.len(),
        commands[at].command == "60"@,
        forall|i: int| 0 <= i < at ==> (#[trigger] commands[i]).command != "60"@,
    ensures
        input_values(commands) == commands[at].values,
    decreases at,
{
    if at > 0 {
        let tail = commands.drop_first();
        assert(commands[0].command != "60"@);
        assert forall|i: int| 0 <= i < at - 1 implies (#[trigger] tail[i]).command != "60"@ by {
            assert(tail[i] == commands[i + 1]);
        }
        assert(tail[at - 1] == commands[at]);
        lemma_first_input_command(tail, at - 1);
    }
}

/// Lists the inputs that a monitor with the given capabilities can be
/// switched to, in the order in which the monitor lists them. Capabilities
/// that name no inputs give an empty list, which is no failure.
pub fn get_all_inputs_from_capabilities_string(capabilities: &MonitorCapabilities) -> (res:
    Result<Vec<MonitorInput>, MonitorError>)
    ensures
        res matches Ok(inputs) && inputs@ == inputs_of(capabilities@),
{
    let ghost commands = capabilities.vcp_codes.deep_view();
    let mut i: usize = 0;
    assert(commands.skip(0) == commands);
    while i < capabilities.vcp_codes.len()
        invariant
            i <= capabilities.vcp_codes.len(),
            commands == capabilities.vcp_codes.deep_view(),
            input_values(commands.skip(i as int)) == input_values(commands),
        decreases capabilities.vcp_codes.len() - i,
    {
        let cmd = &capabilities.vcp_codes[i];
        proof {
            lemma_command_view(*cmd);
            assert(commands.skip(i as int)[0] == cmd@);
            assert(commands.skip(i as int).drop_first() == commands.skip(i + 1));
        }
        if same_text(cmd.command.as_str(), "60") {
            let ghost values = cmd.values.deep_view();
            let mut inputs: Vec<MonitorInput> = Vec::new();
            let mut j: usize = 0;
            while j < cmd.values.len()
                invariant
                    j <= cmd.values.len(),
                    values == cmd.values.deep_view(),
                    inputs@ == Seq::new(
                        j as nat,
                        |k: int| MonitorInput::for_code(values[k].command),
                    ),
                decreases cmd.values.len() - j,
            {
                let value = &cmd.values[j];
                proof {
                    lemma_command_view(*value);
                    assert(values[j as int] == value@);
                }
                inputs.push(MonitorInput::from_code(value.command.as_str()));
                j += 1;
            }
            return Ok(inputs);
        }
        i += 1;
    }
    assert(inputs_of(capabilities@) == Seq::<MonitorInput>::empty());
    Ok(Vec::new())
}

} // verus!
