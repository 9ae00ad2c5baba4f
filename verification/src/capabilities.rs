//! What a monitor says of itself, as a record.

use vstd::prelude::*;
use crate::grammar::{parsed_entries, ExpressionView};
use crate::mccs::{
    atom_text, clone_commands, commands_of, extract_atom, extract_vcp_commands,
    parse_cap_string, CommandView, ParserError, ParserErrorKind, VCPCommand,
};
use crate::text::same_text;

verus! {

/// The capabilities of a monitor as a mathematical value.
pub ghost struct CapabilitiesView {
    pub protocol_class: Seq<char>,
    pub display_type: Seq<char>,
    pub commands: Seq<CommandView>,
    pub vcp_codes: Seq<CommandView>,
    pub display_model: Seq<char>,
    pub mccs_version: Seq<char>,
}

/// The capabilities that a monitor reports. A field that the monitor did
/// not report is empty.
#[derive(Debug, PartialEq, Eq)]
pub struct MonitorCapabilities {
    pub protocol_class: String,
    pub display_type: String,
    pub commands: Vec<VCPCommand>,
    pub vcp_codes: Vec<VCPCommand>,
    pub display_model: String,
    pub mccs_version: String,
}

impl View for MonitorCapabilities {
    type V = CapabilitiesView;

    open spec fn view(&self) -> CapabilitiesView {
        CapabilitiesView {
            protocol_class: self.protocol_class@,
            display_type: self.display_type@,
            commands: self.commands.deep_view(),
            vcp_codes: self.vcp_codes.deep_view(),
            display_model: self.display_model@,
            mccs_version: self.mccs_version@,
        }
    }
}

impl DeepView for MonitorCapabilities {
    type V = CapabilitiesView;

    open spec fn deep_view(&self) -> CapabilitiesView {
        self.view()
    }
}

/// The value of the last entry of `entries` whose key is `key`, if there is
/// one.
pub open spec fn last_with_key(
    entries: Seq<(Seq<char>, ExpressionView)>,
    key: Seq<char>,
) -> Option<ExpressionView>
    decreases entries.len(),
{
    if entries.len() == 0 {
        None
    } else if entries.last().0 == key {
        Some(entries.last().1)
    } else {
        last_with_key(entries.drop_last(), key)
    }
}

/// The text that the entries give for `key`: that of the last entry with
/// this key, and the empty text where there is none.
pub open spec fn text_for(entries: Seq<(Seq<char>, ExpressionView)>, key: Seq<char>) -> Seq<
    char,
> {
    match last_with_key(entries, key) {
        Some(value) => atom_text(value),
        None => Seq::empty(),
    }
}

/// The commands that the entries give for `key`: those of the last entry
/// with this key, and none where there is no such entry.
pub open spec fn commands_for(
    entries: Seq<(Seq<char>, ExpressionView)>,
    key: Seq<char>,
) -> Seq<CommandView> {
    match last_with_key(entries, key) {
        Some(value) => commands_of(value),
        None => Seq::empty(),
    }
}

/// The record that the entries of a capability string stand for. Keys that
/// the record has no field for are passed over.
pub open spec fn capabilities_of(entries: Seq<(Seq<char>, ExpressionView)>) -> CapabilitiesView {
    CapabilitiesView {
        protocol_class: text_for(entries, "prot"@),
        display_type: text_for(entries, "type"@),
        commands: commands_for(entries, "cmds"@),
        vcp_codes: commands_for(entries, "vcp"@),
        display_model: text_for(entries, "model"@),
        mccs_version: text_for(entries, "mccs_ver"@),
    }
}

/// The capabilities that the capability string `text` stands for, or why it
/// cannot be read.
pub open spec fn parsed_capabilities(text: Seq<char>) -> Result<
    CapabilitiesView,
    ParserErrorKind,
> {
    match parsed_entries(text) {
        Ok(entries) => Ok(capabilities_of(entries)),
        Err(kind) => Err(kind),
    }
}

/// Of the entries with the key `key`, the last one counts: the entries
/// behind it have other keys.
pub proof fn lemma_last_entry_counts(
    entries: Seq<(Seq<char>, ExpressionView)>,
    key: Seq<char>,
    at: int,
)
    requires
        0 <= at < entries.len(),
        entries[at].0 == key,
        forall|j: int| at < j < entries.len() ==> (#[trigger] entries[j]).0 != key,
    ensures
        last_with_key(entries, key) == Some(entries[at].1),
    decreases entries.len(),
{
    if at < entries.len() - 1 {
        let earlier = entries.drop_last();
        assert(entries.last().0 != key);
        assert forall|j: int| at < j < earlier.len() implies (#[trigger] earlier[j]).0 != key by {
            assert(earlier[j] == entries[j]);
        }
        lemma_last_entry_counts(earlier, key, at);
    }
}

/// Entries of which none has the key `key` give no value for it.
pub proof fn lemma_missing_key(entries: Seq<(Seq<char>, ExpressionView)>, key: Seq<char>)
    requires
        forall|j: int| 0 <= j < entries.len() ==> (#[trigger] entries[j]).0 != key,
    ensures
        last_with_key(entries, key) is None,
    decreases entries.len(),
{
    if entries.len() > 0 {
        let earlier = entries.drop_last();
        assert forall|j: int| 0 <= j < earlier.len() implies (#[trigger] earlier[j]).0 != key by {
            assert(earlier[j] == entries[j]);
        }
        lemma_missing_key(earlier, key);
    }
}

/// The six keys are six different texts.
proof fn lemma_keys_differ()
    ensures
        "prot"@ != "type"@,
        "prot"@ != "cmds"@,
        "prot"@ != "vcp"@,
        "prot"@ != "model"@,
        "prot"@ != "mccs_ver"@,
        "type"@ != "cmds"@,
        "type"@ != "vcp"@,
        "type"@ != "model"@,
        "type"@ != "mccs_ver"@,
        "cmds"@ != "vcp"@,
        "cmds"@ != "model"@,
        "cmds"@ != "mccs_ver"@,
        "vcp"@ != "model"@,
        "vcp"@ != "mccs_ver"@,
        "model"@ != "mccs_ver"@,
{
    reveal_strlit("prot");
    reveal_strlit("type");
    reveal_strlit("cmds");
    reveal_strlit("vcp");
    reveal_strlit("model");
    reveal_strlit("mccs_ver");
    assert("prot"@[0] != "type"@[0]);
    assert("prot"@[0] != "cmds"@[0]);
    assert("type"@[0] != "cmds"@[0]);
    assert("vcp"@.len() == 3);
    assert("model"@.len() == 5);
    assert("mccs_ver"@.len() == 8);
}

impl Default for MonitorCapabilities {
    /// The capabilities of a monitor that reported nothing.
    fn default() -> (caps: MonitorCapabilities)
        ensures
            caps@ == (CapabilitiesView {
                protocol_class: Seq::empty(),
                display_type: Seq::empty(),
                commands: Seq::empty(),
                vcp_codes: Seq::empty(),
                display_model: Seq::empty(),
                mccs_version: Seq::empty(),
            }),
    {
        let caps = MonitorCapabilities {
            protocol_class: String::new(),
            display_type: String::new(),
            commands: Vec::new(),
            vcp_codes: Vec::new(),
            display_model: String::new(),
            mccs_version: String::new(),
        };
        assert(caps.commands.deep_view() == Seq::<CommandView>::empty());
        assert(caps.vcp_codes.deep_view() == Seq::<CommandView>::empty());
        caps
    }
}

impl Clone for MonitorCapabilities {
    fn clone(&self) -> (copy: MonitorCapabilities)
        ensures
            copy@ == self@,
    {
        MonitorCapabilities {
            protocol_class: self.protocol_class.clone(),
            display_type: self.display_type.clone(),
            commands: clone_commands(&self.commands),
            vcp_codes: clone_commands(&self.vcp_codes),
            display_model: self.display_model.clone(),
            mccs_version: self.mccs_version.clone(),
        }
    }
}

impl MonitorCapabilities {
    /// Reads a capability string into a record. Of two entries with the same
    /// key the later one counts.
    pub fn from_cap_string(cap_string: String) -> (res: Result<MonitorCapabilities, ParserError>)
        ensures
            match res {
                Ok(caps) => parsed_capabilities(cap_string@) == Ok::<_, ParserErrorKind>(caps@),
                Err(err) => parsed_capabilities(cap_string@) == Err::<CapabilitiesView, _>(
                    err.kind,
                ),
            },
    {
        let pairs = match parse_cap_string(cap_string) {
            Ok(pairs) => pairs,
            Err(err) => {
                return Err(err);
            },
        };
        let ghost entries = pairs.deep_view();
        let mut caps = MonitorCapabilities::default();
        assert(entries.take(0) == Seq::<(Seq<char>, ExpressionView)>::empty());
        for pair in it: pairs
            invariant
                it.seq() == pairs@,
                entries == pairs.deep_view(),
                caps@ == capabilities_of(entries.take(it.index())),
        {
            let ghost i = it.index();
            let (key, value) = pair;
            proof {
                lemma_keys_differ();
                assert(entries.take(i + 1).drop_last() == entries.take(i));
                assert(entries.take(i + 1).last() == (key@, value@));
            }
            if same_text(key.as_str(), "prot") {
                caps.protocol_class = extract_atom(value);
            } else if same_text(key.as_str(), "type") {
                caps.display_type = extract_atom(value);
            } else if same_text(key.as_str(), "cmds") {
                caps.commands = extract_vcp_commands(value);
            } else if same_text(key.as_str(), "vcp") {
                caps.vcp_codes = extract_vcp_commands(value);
            } else if same_text(key.as_str(), "model") {
                caps.display_model = extract_atom(value);
            } else if same_text(key.as_str(), "mccs_ver") {
                caps.mccs_version = extract_atom(value);
            }
        }
        assert(entries.take(entries.len() as int) == entries);
        Ok(caps)
    }
}

} // verus!
