//! A monitor as the library knows it: its place in the enumeration, what it
//! reported of itself, and the inputs that follow from that.
//!
//! The native handle of a monitor stays with the caller. The library names it
//! by its place in the enumeration, and says which write is to be made on it.

use vstd::prelude::*;
use vstd::utf8::{decode_utf8, valid_utf8};
use crate::capabilities::{parsed_capabilities, CapabilitiesView, MonitorCapabilities};
use crate::errors::{MonitorError, MonitorErrorView};
use crate::input::{
    clone_inputs, get_all_inputs_from_capabilities_string, inputs_of, MonitorInput,
};
use crate::mccs::ParserError;

verus! {

/// The code of the VCP feature that selects the input source.
pub const INPUT_SELECT: u8 = 0x60;

/// `bytes` without the zero bytes at its end.
pub open spec fn trimmed(bytes: Seq<u8>) -> Seq<u8>
    decreases bytes.len(),
{
    if bytes.len() > 0 && bytes.last() == 0 {
        trimmed(bytes.drop_last())
    } else {
        bytes
    }
}

/// The text that the reply of a monitor holds: its bytes without the
/// zero bytes at the end, read as UTF-8. Bytes that are no UTF-8 hold no
/// text.
pub open spec fn decoded(bytes: Seq<u8>) -> Option<Seq<char>> {
    if valid_utf8(trimmed(bytes)) {
        Some(decode_utf8(trimmed(bytes)))
    } else {
        None
    }
}

/// Reads the reply of a monitor as text, without the zero bytes that pad
/// its end.
pub fn decode_capability_bytes(bytes: Vec<u8>) -> (res: Result<String, MonitorError>)
    ensures
        match res {
            Ok(text) => decoded(bytes@) == Some(text@),
            Err(err) => decoded(bytes@) is None && err@ == MonitorError::spec_decode(),
        },
{
    let mut bytes = bytes;
    let ghost all = bytes@;
    let mut len: usize = bytes.len();
    assert(all.take(len as int) == all);
    while len > 0 && bytes[len - 1] == 0
        invariant
            len <= bytes.len(),
            bytes@ == all,
            trimmed(all.take(len as int)) == trimmed(all),
        decreases len,
    {
        assert(all.take(len as int).drop_last() == all.take(len - 1));
        len -= 1;
    }
    bytes.truncate(len);
    assert(bytes@ == trimmed(all));
    match String::from_utf8(bytes) {
        Ok(text) => Ok(text),
        Err(_) => Err(MonitorError::decode()),
    }
}

/// A write of one VCP feature that is to be made on a native handle.
#[derive(Debug, Clone, Copy, PartialEq, Eq, Structural)]
pub struct VcpWrite {
    /// The place of the handle in the enumeration that found the monitor.
    pub handle: usize,
    /// The code of the feature.
    pub code: u8,
    /// The value that the feature is set to.
    pub value: u16,
}

/// How a write on a native handle ended.
#[derive(Debug, Clone, Copy, PartialEq, Eq, Structural)]
pub enum WriteOutcome {
    /// The monitor took the value.
    Done,
    /// The native call reported a failure.
    Failed,
    /// The handle was in use, and no call was made.
    Busy,
}

/// A monitor as a mathematical value.
pub ghost struct MonitorView {
    pub id: u8,
    pub handle: usize,
    pub capabilities: Option<CapabilitiesView>,
    pub inputs: Seq<MonitorInput>,
}

/// The inputs that a monitor holds for its capabilities: those that the
/// capabilities name, and none where it has no capabilities.
pub open spec fn cached_inputs(capabilities: Option<CapabilitiesView>) -> Seq<MonitorInput> {
    match capabilities {
        Some(caps) => inputs_of(caps),
        None => Seq::empty(),
    }
}

/// The monitor with the given id and handle whose reply to the capabilities
/// request is `bytes`, or why the reply gives no monitor.
pub open spec fn monitor_of_bytes(id: u8, handle: usize, bytes: Seq<u8>) -> Result<
    MonitorView,
    MonitorErrorView,
> {
    match decoded(bytes) {
        None => Err(MonitorError::spec_decode()),
        Some(text) => match parsed_capabilities(text) {
            Err(kind) => Err(MonitorError::spec_from_parser(ParserError { kind })),
            Ok(caps) => Ok(
                MonitorView { id, handle, capabilities: Some(caps), inputs: inputs_of(caps) },
            ),
        },
    }
}

/// The monitor with the given id and handle of which `reading` was read, or
/// why there is none: the monitor gave no reply, or its reply gives no
/// monitor.
pub open spec fn read_monitor(id: u8, handle: usize, reading: Option<Seq<u8>>) -> Result<
    MonitorView,
    MonitorErrorView,
> {
    match reading {
        None => Err(MonitorError::spec_read_failed()),
        Some(bytes) => monitor_of_bytes(id, handle, bytes),
    }
}

/// The id of the monitor at place `i` of an enumeration: ids count up with
/// the places and start again after 255.
pub open spec fn id_at(i: int) -> u8 {
    (i % 256) as u8
}

/// The monitor that the reading at place `i` gives, if it gives one. A
/// monitor that gave no reply, or a reply that is no text or that cannot be
/// parsed, gives none.
pub open spec fn monitor_at(readings: Seq<Option<Seq<u8>>>, i: int) -> Option<MonitorView> {
    match read_monitor(id_at(i), i as usize, readings[i]) {
        Ok(monitor) => Some(monitor),
        Err(_) => None,
    }
}

/// The monitors that the first `n` readings give, in the order of the
/// readings.
pub open spec fn discovered(readings: Seq<Option<Seq<u8>>>, n: int) -> Seq<MonitorView>
    decreases n,
{
    if n <= 0 {
        Seq::empty()
    } else {
        discovered(readings, n - 1) + match monitor_at(readings, n - 1) {
            Some(monitor) => seq![monitor],
            None => Seq::empty(),
        }
    }
}

/// Every reading that gives a monitor has its monitor in the list, whatever
/// the other readings are: a reading that gives none takes no monitor away.
pub proof fn lemma_readable_monitor_is_listed(readings: Seq<Option<Seq<u8>>>, n: int, i: int)
    requires
        0 <= i < n,
        monitor_at(readings, i) is Some,
    ensures
        discovered(readings, n).contains(monitor_at(readings, i)->0),
    decreases n,
{
    let monitor = monitor_at(readings, i)->0;
    let earlier = discovered(readings, n - 1);
    if i == n - 1 {
        let all = earlier + seq![monitor];
        assert(all[earlier.len() as int] == monitor);
    } else {
        lemma_readable_monitor_is_listed(readings, n - 1, i);
        let k = choose|k: int| 0 <= k < earlier.len() && earlier[k] == monitor;
        assert(discovered(readings, n)[k] == monitor);
    }
}

/// The monitors of the list stand in the order of their readings: their
/// handles are places of the enumeration, and grow along the list. So no
/// two monitors of one list share a handle.
pub proof fn lemma_handles_grow(readings: Seq<Option<Seq<u8>>>, n: int)
    requires
        0 <= n <= usize::MAX,
    ensures
        forall|k: int|
            0 <= k < discovered(readings, n).len() ==> (#[trigger] discovered(
                readings,
                n,
            )[k]).handle < n,
        forall|j: int, k: int|
            0 <= j < k < discovered(readings, n).len() ==> (#[trigger] discovered(
                readings,
                n,
            )[j]).handle < (#[trigger] discovered(readings, n)[k]).handle,
    decreases n,
{
    if n > 0 {
        lemma_handles_grow(readings, n - 1);
        let earlier = discovered(readings, n - 1);
        let all = discovered(readings, n);
        assert forall|k: int| 0 <= k < all.len() implies (#[trigger] all[k]).handle < n by {
            if k < earlier.len() {
                assert(all[k] == earlier[k]);
            }
        }
        assert forall|j: int, k: int| 0 <= j < k < all.len() implies (#[trigger] all[j]).handle
            < (#[trigger] all[k]).handle by {
            assert(all[j] == earlier[j]);
            if k < earlier.len() {
                assert(all[k] == earlier[k]);
            }
        }
    }
}

/// Where an enumeration has at most 256 places, no two monitors of its
/// list share an id.
pub proof fn lemma_ids_differ(readings: Seq<Option<Seq<u8>>>, n: int, j: int, k: int)
    requires
        0 <= n <= 256,
        0 <= j < k < discovered(readings, n).len(),
    ensures
        discovered(readings, n)[j].id != discovered(readings, n)[k].id,
{
    lemma_handles_grow(readings, n);
    lemma_id_is_handle(readings, n);
}

/// In a list from an enumeration of at most 256 places, the id of a
/// monitor is its handle.
proof fn lemma_id_is_handle(readings: Seq<Option<Seq<u8>>>, n: int)
    requires
        0 <= n <= 256,
    ensures
        forall|k: int|
            0 <= k < discovered(readings, n).len() ==> (#[trigger] discovered(
                readings,
                n,
            )[k]).id == discovered(readings, n)[k].handle,
    decreases n,
{
    if n > 0 {
        lemma_id_is_handle(readings, n - 1);
        let earlier = discovered(readings, n - 1);
        let all = discovered(readings, n);
        assert forall|k: int| 0 <= k < all.len() implies (#[trigger] all[k]).id
            == all[k].handle by {
            if k < earlier.len() {
                assert(all[k] == earlier[k]);
            }
        }
    }
}

/// A monitor that was found, with what it reported of itself. Its inputs
/// are fixed when it is made, from its capabilities alone.
#[derive(Debug, PartialEq, Eq)]
pub struct Monitor {
    id: u8,
    handle: usize,
    capabilities: Option<MonitorCapabilities>,
    inputs: Vec<MonitorInput>,
}

impl View for Monitor {
    type V = MonitorView;

    closed spec fn view(&self) -> MonitorView {
        MonitorView {
            id: self.id,
            handle: self.handle,
            capabilities: self.capabilities.deep_view(),
            inputs: self.inputs@,
        }
    }
}

impl DeepView for Monitor {
    type V = MonitorView;

    open spec fn deep_view(&self) -> MonitorView {
        self.view()
    }
}

impl Monitor {
    #[verifier::type_invariant]
    spec fn inputs_follow_capabilities(self) -> bool {
        self.inputs@ == cached_inputs(self.capabilities.deep_view())
    }

    /// A monitor with the given capabilities. Its inputs are those that the
    /// capabilities name.
    pub fn new(id: u8, handle: usize, capabilities: Option<MonitorCapabilities>) -> (monitor:
        Monitor)
        ensures
            monitor@ == (MonitorView {
                id,
                handle,
                capabilities: capabilities.deep_view(),
                inputs: cached_inputs(capabilities.deep_view()),
            }),
    {
        let inputs = match &capabilities {
            Some(caps) => match get_all_inputs_from_capabilities_string(caps) {
                Ok(inputs) => inputs,
                Err(_) => Vec::new(),
            },
            None => Vec::new(),
        };
        Monitor { id, handle, capabilities, inputs }
    }

    /// The monitor whose reply to the capabilities request is `bytes`.
    pub fn from_capability_bytes(id: u8, handle: usize, bytes: Vec<u8>) -> (res: Result<
        Monitor,
        MonitorError,
    >)
        ensures
            match res {
                Ok(monitor) => monitor_of_bytes(id, handle, bytes@) == Ok::<
                    _,
                    MonitorErrorView,
                >(monitor@),
                Err(err) => monitor_of_bytes(id, handle, bytes@) == Err::<MonitorView, _>(err@),
            },
    {
        let text = match decode_capability_bytes(bytes) {
            Ok(text) => text,
            Err(err) => {
                return Err(err);
            },
        };
        match MonitorCapabilities::from_cap_string(text) {
            Ok(caps) => Ok(Monitor::new(id, handle, Some(caps))),
            Err(err) => Err(MonitorError::from_parser(err)),
        }
    }

    /// The monitor of which `reading` was read: `None` stands for a monitor
    /// that gave no reply.
    pub fn from_reading(id: u8, handle: usize, reading: Option<Vec<u8>>) -> (res: Result<
        Monitor,
        MonitorError,
    >)
        ensures
            match res {
                Ok(monitor) => read_monitor(id, handle, reading.deep_view()) == Ok::<
                    _,
                    MonitorErrorView,
                >(monitor@),
                Err(err) => read_monitor(id, handle, reading.deep_view()) == Err::<
                    MonitorView,
                    _,
                >(err@),
            },
    {
        match reading {
            Some(bytes) => {
                assert(bytes.deep_view() == bytes@);
                Monitor::from_capability_bytes(id, handle, bytes)
            },
            None => Err(MonitorError::read_failed()),
        }
    }

    /// Makes the list of monitors from the replies of the native handles,
    /// given in the order of their enumeration; `None` stands for a handle
    /// that gave no reply. A handle whose reply gives no monitor is left out,
    /// and the others are listed all the same.
    pub fn get_all_monitors(readings: Vec<Option<Vec<u8>>>) -> (res: Result<
        Vec<Monitor>,
        MonitorError,
    >)
        ensures
            res matches Ok(monitors) && monitors.deep_view() == discovered(
                readings.deep_view(),
                readings.len() as int,
            ),
    {
        let ghost replies = readings.deep_view();
        let mut monitors: Vec<Monitor> = Vec::new();
        let mut place: usize = 0;
        let count: usize = readings.len();
        assert(monitors.deep_view() == discovered(replies, 0));
        for reading in it: readings
            invariant
                it.seq() == readings@,
                readings@.len() == count,
                replies == readings.deep_view(),
                place == it.index(),
                monitors.deep_view() == discovered(replies, it.index()),
        {
            let ghost before = monitors.deep_view();
            assert(place < readings@.len());
            assert(replies[place as int] == reading.deep_view());
            let id: u8 = (place % 256) as u8;
            match Monitor::from_reading(id, place, reading) {
                Ok(monitor) => {
                    monitors.push(monitor);
                    assert(monitors.deep_view() == before + seq![monitor@]);
                },
                Err(_) => {
                    // This monitor is left out; the others are not touched.
                    assert(before + Seq::<MonitorView>::empty() == before);
                },
            }
            place += 1;
        }
        Ok(monitors)
    }

    /// The id of this monitor: its place in the enumeration that found it.
    pub fn id(&self) -> (id: u8)
        ensures
            id == self@.id,
    {
        self.id
    }

    /// The place of the native handle of this monitor in the enumeration
    /// that found it.
    pub fn handle(&self) -> (handle: usize)
        ensures
            handle == self@.handle,
    {
        self.handle
    }

    /// What this monitor reported of itself.
    pub fn capabilities(&self) -> (capabilities: &Option<MonitorCapabilities>)
        ensures
            capabilities.deep_view() == self@.capabilities,
    {
        &self.capabilities
    }

    /// The inputs of this monitor, as they were found when it was made. No
    /// device is asked.
    pub fn get_inputs(&self) -> (res: Result<Vec<MonitorInput>, MonitorError>)
        ensures
            res matches Ok(inputs) && inputs@ == self@.inputs,
            self@.inputs == cached_inputs(self@.capabilities),
    {
        proof {
            use_type_invariant(self);
        }
        Ok(clone_inputs(&self.inputs))
    }

    /// The write that switches this monitor to `input`: the input source
    /// feature is set to the number of the input, on the handle of this
    /// monitor.
    pub fn set_input(&self, input: MonitorInput) -> (write: VcpWrite)
        ensures
            write == (VcpWrite {
                handle: self@.handle,
                code: INPUT_SELECT,
                value: input.spec_value(),
            }),
    {
        VcpWrite { handle: self.handle, code: INPUT_SELECT, value: input.value() }
    }

    /// What a switch of the input comes to, given how its write ended.
    pub fn write_result(outcome: WriteOutcome) -> (res: Result<(), MonitorError>)
        ensures
            match outcome {
                WriteOutcome::Done => res is Ok,
                WriteOutcome::Failed => res matches Err(err) && err@
                    == MonitorError::spec_write_failed(),
                WriteOutcome::Busy => res matches Err(err) && err@
                    == MonitorError::spec_handle_in_use(),
            },
    {
        match outcome {
            WriteOutcome::Done => Ok(()),
            WriteOutcome::Failed => Err(MonitorError::write_failed()),
            WriteOutcome::Busy => Err(MonitorError::handle_in_use()),
        }
    }
}

} // verus!
