//! The decisions of the worker that owns the list of monitors.
//!
//! All requests go through one worker, one at a time and in the order in
//! which they arrive. The worker's caller reads the devices and makes the
//! writes; what the list becomes and what is to be done is decided here.

use vstd::prelude::*;
use vstd::string::StringExecFns;
use crate::capabilities::CapabilitiesView;
use crate::input::{clone_inputs, MonitorInput};
use crate::monitor::{discovered, Monitor, MonitorView, VcpWrite, INPUT_SELECT};

verus! {

/// How many requests can wait for the worker at one time.
pub const COMMAND_QUEUE_CAPACITY: usize = 8;

/// The summary of a monitor as a mathematical value.
pub ghost struct MonitorInfoView {
    pub id: u8,
    pub model: Seq<char>,
    pub inputs: Seq<MonitorInput>,
}

/// What is shown of a monitor.
#[derive(Debug, PartialEq, Eq)]
pub struct MonitorInfo {
    pub id: u8,
    pub model: String,
    pub inputs: Vec<MonitorInput>,
}

impl View for MonitorInfo {
    type V = MonitorInfoView;

    open spec fn view(&self) -> MonitorInfoView {
        MonitorInfoView { id: self.id, model: self.model@, inputs: self.inputs@ }
    }
}

impl Clone for MonitorInfo {
    fn clone(&self) -> (copy: MonitorInfo)
        ensures
            copy@ == self@,
    {
        MonitorInfo {
            id: self.id,
            model: self.model.clone(),
            inputs: clone_inputs(&self.inputs),
        }
    }
}

impl DeepView for MonitorInfo {
    type V = MonitorInfoView;

    open spec fn deep_view(&self) -> MonitorInfoView {
        self.view()
    }
}

/// A request to the worker as a mathematical value.
pub ghost enum ManagerCommandView {
    RefreshList(Seq<Option<Seq<u8>>>),
    SwitchInput(u8, MonitorInput),
}

/// A request to the worker.
#[derive(Debug, PartialEq, Eq)]
pub enum MonitorManagerCommand {
    /// The monitors were enumerated anew; these are the replies of their
    /// handles, in the order of the enumeration.
    RefreshList(Vec<Option<Vec<u8>>>),
    /// The monitor with this id is to show this input.
    SwitchInput(u8, MonitorInput),
}

impl View for MonitorManagerCommand {
    type V = ManagerCommandView;

    open spec fn view(&self) -> ManagerCommandView {
        match self {
            MonitorManagerCommand::RefreshList(readings) => ManagerCommandView::RefreshList(
                readings.deep_view(),
            ),
            MonitorManagerCommand::SwitchInput(id, input) => ManagerCommandView::SwitchInput(
                *id,
                *input,
            ),
        }
    }
}

/// What the worker's caller is to do as a mathematical value.
pub ghost enum ManagerEffectView {
    Publish(Seq<MonitorInfoView>),
    Write(VcpWrite),
    Idle,
}

/// What the worker's caller is to do after a request.
#[derive(Debug, PartialEq, Eq)]
pub enum MonitorManagerEffect {
    /// Hand these summaries to whoever shows the monitors.
    Publish(Vec<MonitorInfo>),
    /// Make this write on the native handle.
    Write(VcpWrite),
    /// Nothing: the request named no monitor of the list.
    Idle,
}

impl View for MonitorManagerEffect {
    type V = ManagerEffectView;

    open spec fn view(&self) -> ManagerEffectView {
        match self {
            MonitorManagerEffect::Publish(infos) => ManagerEffectView::Publish(
                infos.deep_view(),
            ),
            MonitorManagerEffect::Write(write) => ManagerEffectView::Write(*write),
            MonitorManagerEffect::Idle => ManagerEffectView::Idle,
        }
    }
}

/// The model under which a monitor is shown: the model that it reported,
/// and "Generic Display" where it reported none.
pub open spec fn shown_model(capabilities: Option<CapabilitiesView>) -> Seq<char> {
    match capabilities {
        Some(caps) => if caps.display_model.len() > 0 {
            caps.display_model
        } else {
            "Generic Display"@
        },
        None => "Generic Display"@,
    }
}

/// What is shown of the monitor `monitor`.
pub open spec fn summary_of(monitor: MonitorView) -> MonitorInfoView {
    MonitorInfoView {
        id: monitor.id,
        model: shown_model(monitor.capabilities),
        inputs: monitor.inputs,
    }
}

/// What is shown of each of `monitors`, in their order.
pub open spec fn summaries(monitors: Seq<MonitorView>) -> Seq<MonitorInfoView> {
    Seq::new(monitors.len(), |i: int| summary_of(monitors[i]))
}

/// The first of `monitors` with the id `id`, if there is one.
pub open spec fn first_with_id(monitors: Seq<MonitorView>, id: u8) -> Option<MonitorView>
    decreases monitors.len(),
{
    if monitors.len() == 0 {
        None
    } else if monitors[0].id == id {
        Some(monitors[0])
    } else {
        first_with_id(monitors.drop_first(), id)
    }
}

/// The write that switches `monitor` to `input`.
pub open spec fn switch_write(monitor: MonitorView, input: MonitorInput) -> VcpWrite {
    VcpWrite { handle: monitor.handle, code: INPUT_SELECT, value: input.spec_value() }
}

/// The write that a request to switch the monitor with the id `id` to
/// `input` asks for, if the list holds such a monitor.
pub open spec fn write_for(monitors: Seq<MonitorView>, id: u8, input: MonitorInput) -> Option<
    VcpWrite,
> {
    match first_with_id(monitors, id) {
        Some(monitor) => Some(switch_write(monitor, input)),
        None => None,
    }
}

/// The list of monitors after a request, and what is to be done for it. A
/// refresh replaces the whole list; a switch leaves the list as it is.
pub open spec fn step(monitors: Seq<MonitorView>, command: ManagerCommandView) -> (
    Seq<MonitorView>,
    ManagerEffectView,
) {
    match command {
        ManagerCommandView::RefreshList(readings) => {
            let found = discovered(readings, readings.len() as int);
            (found, ManagerEffectView::Publish(summaries(found)))
        },
        ManagerCommandView::SwitchInput(id, input) => (
            monitors,
            match write_for(monitors, id, input) {
                Some(write) => ManagerEffectView::Write(write),
                None => ManagerEffectView::Idle,
            },
        ),
    }
}

/// The list of monitors after the requests `commands`, taken one after the
/// other, and what is to be done for each of them, in the same order.
pub open spec fn run(monitors: Seq<MonitorView>, commands: Seq<ManagerCommandView>) -> (
    Seq<MonitorView>,
    Seq<ManagerEffectView>,
)
    decreases commands.len(),
{
    if commands.len() == 0 {
        (monitors, Seq::empty())
    } else {
        let (before, effects) = run(monitors, commands.drop_last());
        let (after, effect) = step(before, commands.last());
        (after, effects.push(effect))
    }
}

/// The worker's state: the list of monitors that it holds.
#[derive(Debug, PartialEq, Eq)]
pub struct MonitorManager {
    monitors: Vec<Monitor>,
}

impl View for MonitorManager {
    type V = Seq<MonitorView>;

    closed spec fn view(&self) -> Seq<MonitorView> {
        self.monitors.deep_view()
    }
}

impl MonitorManager {
    /// A worker that holds no monitor yet.
    pub fn new() -> (manager: MonitorManager)
        ensures
            manager@ == Seq::<MonitorView>::empty(),
    {
        let manager = MonitorManager { monitors: Vec::new() };
        assert(manager.monitors.deep_view() == Seq::<MonitorView>::empty());
        manager
    }

    /// The monitors that the worker holds.
    pub fn monitors(&self) -> (monitors: &Vec<Monitor>)
        ensures
            monitors.deep_view() == self@,
    {
        &self.monitors
    }

    /// What is shown of the monitor `monitor`.
    fn summarize(monitor: &Monitor) -> (info: MonitorInfo)
        ensures
            info@ == summary_of(monitor@),
    {
        let model = match monitor.capabilities() {
            Some(caps) => if caps.display_model.as_str().is_empty() {
                String::from_str("Generic Display")
            } else {
                caps.display_model.clone()
            },
            None => String::from_str("Generic Display"),
        };
        let inputs = match monitor.get_inputs() {
            Ok(inputs) => inputs,
            Err(_) => Vec::new(),
        };
        MonitorInfo { id: monitor.id(), model, inputs }
    }

    /// Replaces the list by the monitors that the replies `readings` give,
    /// and gives what is shown of them.
    pub fn refresh(&mut self, readings: Vec<Option<Vec<u8>>>) -> (infos: Vec<MonitorInfo>)
        ensures
            final(self)@ == discovered(readings.deep_view(), readings.len() as int),
            infos.deep_view() == summaries(final(self)@),
    {
        self.monitors = match Monitor::get_all_monitors(readings) {
            Ok(monitors) => monitors,
            Err(_) => Vec::new(),
        };
        let mut infos: Vec<MonitorInfo> = Vec::new();
        let mut i: usize = 0;
        while i < self.monitors.len()
            invariant
                i <= self.monitors.len(),
                infos.len() == i,
                forall|k: int| 0 <= k < i ==> infos[k]@ == summary_of(#[trigger] self.monitors[k]@),
            decreases self.monitors.len() - i,
        {
            infos.push(MonitorManager::summarize(&self.monitors[i]));
            i += 1;
        }
        assert(infos.deep_view() == summaries(self.monitors.deep_view()));
        infos
    }

    /// The write that switches the first monitor with the id `id` to
    /// `input`, and `None` where the list holds no monitor with this id.
    pub fn switch_input(&self, id: u8, input: MonitorInput) -> (write: Option<VcpWrite>)
        ensures
            write == write_for(self@, id, input),
    {
        let ghost monitors = self.monitors.deep_view();
        let mut i: usize = 0;
        assert(monitors.skip(0) == monitors);
        while i < self.monitors.len()
            invariant
                i <= self.monitors.len(),
                monitors == self.monitors.deep_view(),
                first_with_id(monitors.skip(i as int), id) == first_with_id(monitors, id),
            decreases self.monitors.len() - i,
        {
            let monitor = &self.monitors[i];
            assert(monitors.skip(i as int)[0] == monitor@);
            assert(monitors.skip(i as int).drop_first() == monitors.skip(i + 1));
            if monitor.id() == id {
                return Some(monitor.set_input(input));
            }
            i += 1;
        }
        None
    }

    /// Takes one request: changes the list as the request asks, and says
    /// what is to be done for it.
    pub fn handle(&mut self, command: MonitorManagerCommand) -> (effect: MonitorManagerEffect)
        ensures
            (final(self)@, effect@) == step(old(self)@, command@),
    {
        match command {
            MonitorManagerCommand::RefreshList(readings) => MonitorManagerEffect::Publish(
                self.refresh(readings),
            ),
            MonitorManagerCommand::SwitchInput(id, input) => match self.switch_input(id, input) {
                Some(write) => MonitorManagerEffect::Write(write),
                None => MonitorManagerEffect::Idle,
            },
        }
    }
}

/// Every request has exactly one effect, and the effects stand in the order
/// of the requests: the effect of a request is decided on the list as the
/// requests before it left it.
pub proof fn lemma_one_effect_per_command(
    monitors: Seq<MonitorView>,
    commands: Seq<ManagerCommandView>,
    k: int,
)
    requires
        0 <= k < commands.len(),
    ensures
        run(monitors, commands).1.len() == commands.len(),
        run(monitors, commands).1[k] == step(run(monitors, commands.take(k)).0, commands[k]).1,
    decreases commands.len(),
{
    let earlier = commands.drop_last();
    if k < earlier.len() {
        lemma_one_effect_per_command(monitors, earlier, k);
        assert(earlier.take(k) == commands.take(k));
    } else {
        lemma_effects_len(monitors, earlier);
        assert(commands.take(k) == earlier);
    }
    lemma_effects_len(monitors, earlier);
}

proof fn lemma_effects_len(monitors: Seq<MonitorView>, commands: Seq<ManagerCommandView>)
    ensures
        run(monitors, commands).1.len() == commands.len(),
    decreases commands.len(),
{
    if commands.len() > 0 {
        lemma_effects_len(monitors, commands.drop_last());
    }
}

/// A request to switch an input leaves the list of monitors as it is, so
/// the inputs of every monitor stay what they were until the next refresh.
pub proof fn lemma_switch_keeps_monitors(
    monitors: Seq<MonitorView>,
    id: u8,
    input: MonitorInput,
)
    ensures
        step(monitors, ManagerCommandView::SwitchInput(id, input)).0 == monitors,
{
}

/// The requests to switch the monitor with id `requests[k].0` to
/// `requests[k].1`, as commands.
pub open spec fn switch_commands(requests: Seq<(u8, MonitorInput)>) -> Seq<ManagerCommandView> {
    Seq::new(
        requests.len(),
        |k: int| ManagerCommandView::SwitchInput(requests[k].0, requests[k].1),
    )
}

/// Requests to switch inputs of monitors that the list holds give one
/// write each, in the order of the requests, and leave the list as it is.
pub proof fn lemma_switches_in_order(monitors: Seq<MonitorView>, requests: Seq<(u8, MonitorInput)>)
    requires
        forall|k: int|
            0 <= k < requests.len() ==> first_with_id(monitors, (#[trigger] requests[k]).0)
                is Some,
    ensures
        run(monitors, switch_commands(requests)).0 == monitors,
        run(monitors, switch_commands(requests)).1.len() == requests.len(),
        forall|k: int|
            0 <= k < requests.len() ==> #[trigger] run(monitors, switch_commands(requests)).1[k]
                == ManagerEffectView::Write(
                switch_write(first_with_id(monitors, requests[k].0)->0, requests[k].1),
            ),
    decreases requests.len(),
{
    if requests.len() > 0 {
        let earlier = requests.drop_last();
        assert forall|k: int| 0 <= k < earlier.len() implies first_with_id(
            monitors,
            (#[trigger] earlier[k]).0,
        ) is Some by {
            assert(earlier[k] == requests[k]);
        }
        lemma_switches_in_order(monitors, earlier);
        assert(switch_commands(requests).drop_last() == switch_commands(earlier));
        assert(first_with_id(monitors, requests.last().0) is Some);
    }
}

} // verus!
