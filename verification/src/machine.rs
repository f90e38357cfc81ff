//! The pipeline as a state machine. It goes through the modules in their
//! order and asks the system one question at a time; whoever runs it performs
//! the request and hands in the response. Each module is finished before the
//! next one starts, and no failure of one module stops the others.

use crate::battery::{
    battery_file, battery_path, capacity_request, file_reading, read_battery_file,
    status_request, BATTERY_PREFIX, CAPACITY_FILE, POWER_SUPPLY_PATH, STATUS_FILE,
};
use crate::clock::{clock_text, is_clock_text, time, ClockTime};
use crate::config::{Config, ConfigView};
use crate::network::{
    query_of, query_request, ssid, ssid_reading, wifi_name, NET_PATH, WIFI_PREFIX,
};
use crate::outcome::{Outcome, OutcomeView};
use crate::pipeline::{
    add_modules, fragments, line_of, status_line, Module, Reading, ReadingView,
};
use crate::resolver::{device, found, listing_request, resolve};
use crate::system::{Request, RequestView, Response, ResponseView, System};
use vstd::prelude::*;
use vstd::string::StringExecFns;

verus! {

/// What the pipeline wants done next.
#[derive(Clone, Debug, PartialEq, Eq)]
pub enum Action {
    /// Put this request to the system and hand in its response.
    Ask(Request),
    /// All modules are done: show this line.
    Print(String),
}

/// The mathematical value of an [`Action`].
pub enum ActionView {
    Ask(RequestView),
    Print(Seq<char>),
}

impl View for Action {
    type V = ActionView;

    open spec fn view(&self) -> ActionView {
        match self {
            Action::Ask(request) => ActionView::Ask(request@),
            Action::Print(line) => ActionView::Print(line@),
        }
    }
}

/// What a module asks the system for.
#[derive(Clone, Copy, Debug, PartialEq, Eq, Structural)]
pub enum Probe {
    /// The capacity file of the battery.
    Capacity,
    /// The status file of the battery.
    Status,
    /// The device info of the wireless interface.
    Ssid,
}

/// Where the module under way stands.
#[derive(Clone, Debug, PartialEq, Eq)]
pub enum Stage {
    /// The listing of the devices has been asked for.
    Listing,
    /// The device has this name, and its file or its info has been asked for.
    Fetching(String),
    /// No module is under way: all are done.
    Done,
}

/// The mathematical value of a [`Stage`].
pub enum StageView {
    Listing,
    Fetching(Seq<char>),
    Done,
}

impl View for Stage {
    type V = StageView;

    open spec fn view(&self) -> StageView {
        match self {
            Stage::Listing => StageView::Listing,
            Stage::Fetching(name) => StageView::Fetching(name@),
            Stage::Done => StageView::Done,
        }
    }
}

/// The device that is fixed for `probe`, if one is.
pub open spec fn fixed_device(config: ConfigView, probe: Probe) -> Option<Seq<char>> {
    match probe {
        Probe::Ssid => config.wifi_device,
        _ => config.battery_name,
    }
}

/// The directory whose listing shows the device of `probe`.
pub open spec fn listing_dir(probe: Probe) -> Seq<char> {
    match probe {
        Probe::Ssid => NET_PATH@,
        _ => POWER_SUPPLY_PATH@,
    }
}

/// The prefix by which the device of `probe` is recognised.
pub open spec fn device_prefix(probe: Probe) -> Seq<char> {
    match probe {
        Probe::Ssid => WIFI_PREFIX@,
        _ => BATTERY_PREFIX@,
    }
}

/// The request by which `probe` gets its data from the device `name`.
pub open spec fn fetch_of(probe: Probe, name: Seq<char>) -> RequestView {
    match probe {
        Probe::Capacity => RequestView::ReadFile(battery_path(name, CAPACITY_FILE@)),
        Probe::Status => RequestView::ReadFile(battery_path(name, STATUS_FILE@)),
        Probe::Ssid => query_of(name),
    }
}

/// The outcome of `probe` that the response to its request gives.
pub open spec fn probe_reading(probe: Probe, response: ResponseView) -> OutcomeView {
    match probe {
        Probe::Ssid => ssid_reading(response),
        _ => file_reading(response),
    }
}

/// The state of a pipeline.
pub struct PipelineView {
    pub config: ConfigView,
    /// The readings of the modules that are done, in the order of the modules.
    pub readings: Seq<ReadingView>,
    /// The capacity of a combined battery module whose status is under way.
    pub held: Option<OutcomeView>,
    pub stage: StageView,
}

impl PipelineView {
    /// The module under way, or the next to start; none if all are done.
    pub open spec fn current(self) -> Option<Module> {
        if self.readings.len() < self.config.modules.len() {
            Some(self.config.modules[self.readings.len() as int])
        } else {
            None
        }
    }

    /// What the module under way asks the system for.
    pub open spec fn probe(self) -> Probe {
        match self.current() {
            Some(Module::BatteryCapacity) => Probe::Capacity,
            Some(Module::BatteryStatus) => Probe::Status,
            Some(Module::BatteryAll) => if self.held is Some {
                Probe::Status
            } else {
                Probe::Capacity
            },
            _ => Probe::Ssid,
        }
    }

    /// The request that is waiting for its response, or the finished line.
    pub open spec fn pending(self) -> ActionView {
        match self.stage {
            StageView::Listing => ActionView::Ask(RequestView::ListDir(listing_dir(self.probe()))),
            StageView::Fetching(name) => ActionView::Ask(fetch_of(self.probe(), name)),
            StageView::Done => ActionView::Print(
                line_of(fragments(self.readings), self.config.separator),
            ),
        }
    }

    /// Whether a time module is due: the module under way or the one after
    /// it is one. Only then does the next state depend on the clock.
    pub open spec fn clock_due(self) -> bool {
        let at = self.readings.len() as int;
        ||| at < self.config.modules.len() && self.config.modules[at] == Module::Time
        ||| at + 1 < self.config.modules.len() && self.config.modules[at + 1] == Module::Time
    }

    /// The state with `reading` added for the module under way.
    pub open spec fn with_reading(self, reading: ReadingView) -> PipelineView {
        PipelineView { readings: self.readings.push(reading), held: None, ..self }
    }

    /// The state in which the module under way starts on its probe: with
    /// the request for its file or info if the device is fixed, else with the
    /// request for the listing of the devices.
    pub open spec fn begin(self) -> PipelineView {
        match fixed_device(self.config, self.probe()) {
            Some(name) => PipelineView { stage: StageView::Fetching(name), ..self },
            None => PipelineView { stage: StageView::Listing, ..self },
        }
    }

    /// The state in which the next module that needs the system has started.
    /// Time modules on the way get `clock` as their reading. If no module is
    /// left, the pipeline is done.
    pub open spec fn advance(self, clock: Seq<char>) -> PipelineView
        decreases self.config.modules.len() - self.readings.len(),
    {
        match self.current() {
            None => PipelineView { stage: StageView::Done, held: None, ..self },
            Some(Module::Time) => self.with_reading(ReadingView::Time(clock)).advance(clock),
            Some(_) => (PipelineView { held: None, ..self }).begin(),
        }
    }

    /// The state after the probe under way has come to `outcome`.
    pub open spec fn complete(self, outcome: OutcomeView, clock: Seq<char>) -> PipelineView {
        match self.current() {
            Some(Module::BatteryCapacity) => self.with_reading(
                ReadingView::BatteryCapacity(outcome),
            ).advance(clock),
            Some(Module::BatteryStatus) => self.with_reading(
                ReadingView::BatteryStatus(outcome),
            ).advance(clock),
            Some(Module::BatteryAll) => match self.held {
                None => (PipelineView { held: Some(outcome), ..self }).begin(),
                Some(capacity) => self.with_reading(
                    ReadingView::BatteryAll(capacity, outcome),
                ).advance(clock),
            },
            Some(Module::Wifi) => self.with_reading(ReadingView::Wifi(outcome)).advance(clock),
            _ => self.advance(clock),
        }
    }

    /// The state after `response` has come in for the pending request. A
    /// pipeline that is done stays as it is.
    pub open spec fn next(self, response: ResponseView, clock: Seq<char>) -> PipelineView {
        match self.stage {
            StageView::Listing => match found(response, device_prefix(self.probe())) {
                OutcomeView::Present(name) => PipelineView {
                    stage: StageView::Fetching(name),
                    ..self
                },
                other => self.complete(other, clock),
            },
            StageView::Fetching(_) => self.complete(probe_reading(self.probe(), response), clock),
            StageView::Done => self,
        }
    }
}

/// The state in which a pipeline starts.
pub open spec fn initial(config: ConfigView, clock: Seq<char>) -> PipelineView {
    (PipelineView {
        config,
        readings: Seq::empty(),
        held: None,
        stage: StageView::Done,
    }).advance(clock)
}

/// A pipeline under way.
#[derive(Clone, Debug, PartialEq, Eq)]
pub struct Pipeline {
    config: Config,
    readings: Vec<Reading>,
    held: Option<Outcome>,
    stage: Stage,
}

impl View for Pipeline {
    type V = PipelineView;

    closed spec fn view(&self) -> PipelineView {
        PipelineView {
            config: self.config@,
            readings: self.readings.deep_view(),
            held: match self.held {
                Some(outcome) => Some(outcome@),
                None => None,
            },
            stage: self.stage@,
        }
    }
}

impl Pipeline {
    /// Starts a pipeline. `clock` is the fragment for the time modules that
    /// come before the first module that needs the system.
    pub fn new(config: Config, clock: &str) -> (pipeline: Pipeline)
        ensures
            pipeline@ == initial(config@, clock@),
    {
        let pipeline = Pipeline { config, readings: Vec::new(), held: None, stage: Stage::Done };
        assert(pipeline.readings.deep_view() =~= Seq::<ReadingView>::empty());
        pipeline.advance(clock)
    }

    /// What is to be done next: the request that waits for its response, or
    /// the finished line.
    pub fn action(&self) -> (action: Action)
        ensures
            action@ == self@.pending(),
    {
        match &self.stage {
            Stage::Listing => match self.probe() {
                Probe::Ssid => Action::Ask(listing_request(NET_PATH)),
                _ => Action::Ask(listing_request(POWER_SUPPLY_PATH)),
            },
            Stage::Fetching(name) => match self.probe() {
                Probe::Capacity => Action::Ask(capacity_request(name.as_str())),
                Probe::Status => Action::Ask(status_request(name.as_str())),
                Probe::Ssid => Action::Ask(query_request(name.as_str())),
            },
            Stage::Done => {
                let fragments = add_modules(&self.readings);
                Action::Print(status_line(&fragments, self.config.separator.as_str()))
            },
        }
    }

    /// The configuration of the pipeline.
    pub fn config(&self) -> (config: &Config)
        ensures
            config@ == self@.config,
    {
        &self.config
    }

    /// The readings of the modules that are done.
    pub fn readings(&self) -> (readings: &Vec<Reading>)
        ensures
            readings.deep_view() == self@.readings,
    {
        &self.readings
    }

    /// Whether all modules are done.
    pub fn is_done(&self) -> (done: bool)
        ensures
            done == (self@.stage is Done),
    {
        match &self.stage {
            Stage::Done => true,
            _ => false,
        }
    }

    /// Takes in the response to the pending request. `clock` is the fragment
    /// for the time modules that come before the next module that needs the
    /// system.
    pub fn step(self, response: Response, clock: &str) -> (pipeline: Pipeline)
        ensures
            pipeline@ == self@.next(response@, clock@),
    {
        let probe = self.probe();
        let Pipeline { config, readings, held, stage } = self;
        match stage {
            Stage::Listing => {
                let prefix = match probe {
                    Probe::Ssid => WIFI_PREFIX,
                    _ => BATTERY_PREFIX,
                };
                match resolve(response, prefix) {
                    Outcome::Present(name) => Pipeline {
                        config,
                        readings,
                        held,
                        stage: Stage::Fetching(name),
                    },
                    other => (Pipeline { config, readings, held, stage: Stage::Listing }).complete(
                        other,
                        clock,
                    ),
                }
            },
            Stage::Fetching(name) => {
                let outcome = match probe {
                    Probe::Ssid => ssid(response),
                    _ => read_battery_file(response),
                };
                (Pipeline { config, readings, held, stage: Stage::Fetching(name) }).complete(
                    outcome,
                    clock,
                )
            },
            Stage::Done => Pipeline { config, readings, held, stage: Stage::Done },
        }
    }

    /// Starts a pipeline at the present moment: as [`Pipeline::new`], with
    /// the clock fragment that the clock gives now. The clock is read only
    /// if a time module is due.
    pub fn start(config: Config) -> (pipeline: Pipeline)
        ensures
            exists|clock: Seq<char>|
                is_clock_text(clock) && pipeline@ == #[trigger] initial(config@, clock),
    {
        let ghost model = config@;
        let empty = Pipeline { config, readings: Vec::new(), held: None, stage: Stage::Done };
        assert(empty.readings.deep_view() =~= Seq::<ReadingView>::empty());
        if empty.clock_due() {
            let clock = time();
            let pipeline = empty.advance(clock.as_str());
            assert(pipeline@ == initial(model, clock@));
            pipeline
        } else {
            let pipeline = empty.advance("");
            proof {
                lemma_clock_not_due(empty@, ""@, some_clock_text());
                lemma_some_clock_text();
                assert(pipeline@ == initial(model, some_clock_text()));
            }
            pipeline
        }
    }

    /// Takes in the response to the pending request at the present moment:
    /// as [`Pipeline::step`], with the clock fragment that the clock gives
    /// now. The clock is read only if a time module is due.
    pub fn proceed(self, response: Response) -> (pipeline: Pipeline)
        ensures
            exists|clock: Seq<char>|
                is_clock_text(clock) && pipeline@ == #[trigger] self@.next(response@, clock),
    {
        if self.clock_due() {
            let clock = time();
            let pipeline = self.step(response, clock.as_str());
            pipeline
        } else {
            proof {
                lemma_next_without_clock(self@, response@, ""@, some_clock_text());
                lemma_some_clock_text();
            }
            let pipeline = self.step(response, "");
            pipeline
        }
    }

    /// Whether a time module is due: the module under way or the one after
    /// it is one.
    fn clock_due(&self) -> (due: bool)
        ensures
            due == self@.clock_due(),
    {
        let at = self.readings.len();
        let modules = &self.config.modules;
        (at < modules.len() && modules[at] == Module::Time) || (at < modules.len() && at + 1
            < modules.len() && modules[at + 1] == Module::Time)
    }

    fn current(&self) -> (module: Option<Module>)
        ensures
            module == self@.current(),
    {
        if self.readings.len() < self.config.modules.len() {
            Some(self.config.modules[self.readings.len()])
        } else {
            None
        }
    }

    fn probe(&self) -> (probe: Probe)
        ensures
            probe == self@.probe(),
    {
        match self.current() {
            Some(Module::BatteryCapacity) => Probe::Capacity,
            Some(Module::BatteryStatus) => Probe::Status,
            Some(Module::BatteryAll) => if self.held.is_some() {
                Probe::Status
            } else {
                Probe::Capacity
            },
            _ => Probe::Ssid,
        }
    }

    fn with_reading(self, reading: Reading) -> (pipeline: Pipeline)
        ensures
            pipeline@ == self@.with_reading(reading@),
    {
        let Pipeline { config, mut readings, held, stage } = self;
        let ghost before = readings.deep_view();
        readings.push(reading);
        assert(readings.deep_view() =~= before.push(reading@));
        Pipeline { config, readings, held: None, stage }
    }

    fn begin(self) -> (pipeline: Pipeline)
        ensures
            pipeline@ == self@.begin(),
    {
        let probe = self.probe();
        let Pipeline { config, readings, held, stage } = self;
        let fixed = match probe {
            Probe::Ssid => &config.wifi_device,
            _ => &config.battery_name,
        };
        let stage = match fixed {
            Some(name) => Stage::Fetching(name.clone()),
            None => Stage::Listing,
        };
        Pipeline { config, readings, held, stage }
    }

    fn advance(self, clock: &str) -> (pipeline: Pipeline)
        ensures
            pipeline@ == self@.advance(clock@),
    {
        let mut pipeline = self;
        loop
            invariant
                pipeline@.advance(clock@) == self@.advance(clock@),
            decreases pipeline@.config.modules.len() - pipeline@.readings.len(),
        {
            match pipeline.current() {
                None => {
                    let Pipeline { config, readings, held, stage } = pipeline;
                    return Pipeline { config, readings, held: None, stage: Stage::Done };
                },
                Some(Module::Time) => {
                    pipeline = pipeline.with_reading(Reading::Time(String::from_str(clock)));
                },
                Some(_) => {
                    let Pipeline { config, readings, held, stage } = pipeline;
                    return (Pipeline { config, readings, held: None, stage }).begin();
                },
            }
        }
    }

    fn complete(self, outcome: Outcome, clock: &str) -> (pipeline: Pipeline)
        ensures
            pipeline@ == self@.complete(outcome@, clock@),
    {
        match self.current() {
            Some(Module::BatteryCapacity) => self.with_reading(
                Reading::BatteryCapacity(outcome),
            ).advance(clock),
            Some(Module::BatteryStatus) => self.with_reading(
                Reading::BatteryStatus(outcome),
            ).advance(clock),
            Some(Module::BatteryAll) => {
                let Pipeline { config, readings, held, stage } = self;
                match held {
                    None => (Pipeline { config, readings, held: Some(outcome), stage }).begin(),
                    Some(capacity) => (Pipeline { config, readings, held: None, stage })
                        .with_reading(Reading::BatteryAll(capacity, outcome)).advance(clock),
                }
            },
            Some(Module::Wifi) => self.with_reading(Reading::Wifi(outcome)).advance(clock),
            _ => self.advance(clock),
        }
    }
}

/// The clock fragment of the first moment of the year 2000.
spec fn some_clock_text() -> Seq<char> {
    clock_text(
        ClockTime { year: 2000, month: 1, day: 1, hour: 0, minute: 0, second: 0 },
    )
}

/// There is a clock fragment.
proof fn lemma_some_clock_text()
    ensures
        is_clock_text(some_clock_text()),
{
    let now = ClockTime { year: 2000, month: 1, day: 1, hour: 0, minute: 0, second: 0 };
}

/// Where the next module is no time module, starting on it does not depend
/// on the clock.
pub proof fn lemma_clock_not_due(state: PipelineView, first: Seq<char>, second: Seq<char>)
    requires
        state.current() != Some(Module::Time),
    ensures
        state.advance(first) == state.advance(second),
{
}

/// Where no time module is due, the next state does not depend on the clock.
pub proof fn lemma_next_without_clock(
    state: PipelineView,
    response: ResponseView,
    first: Seq<char>,
    second: Seq<char>,
)
    requires
        !state.clock_due(),
    ensures
        state.next(response, first) == state.next(response, second),
{
    assert forall|outcome: OutcomeView|
        state.complete(outcome, first) == state.complete(outcome, second) by {
        lemma_clock_not_due(state, first, second);
        match state.current() {
            Some(Module::BatteryCapacity) => {
                lemma_clock_not_due(
                    state.with_reading(ReadingView::BatteryCapacity(outcome)),
                    first,
                    second,
                );
            },
            Some(Module::BatteryStatus) => {
                lemma_clock_not_due(
                    state.with_reading(ReadingView::BatteryStatus(outcome)),
                    first,
                    second,
                );
            },
            Some(Module::BatteryAll) => match state.held {
                Some(capacity) => {
                    lemma_clock_not_due(
                        state.with_reading(ReadingView::BatteryAll(capacity, outcome)),
                        first,
                        second,
                    );
                },
                None => {},
            },
            Some(Module::Wifi) => {
                lemma_clock_not_due(
                    state.with_reading(ReadingView::Wifi(outcome)),
                    first,
                    second,
                );
            },
            _ => {},
        }
    }
}

/// What `probe` comes to in the system `sys`.
pub open spec fn probe_outcome(sys: System, config: ConfigView, probe: Probe) -> OutcomeView {
    match probe {
        Probe::Capacity => battery_file(sys, config.battery_name, CAPACITY_FILE@),
        Probe::Status => battery_file(sys, config.battery_name, STATUS_FILE@),
        Probe::Ssid => wifi_name(sys, config.wifi_device),
    }
}

/// What the system `sys` gives for `module`. For a time module it gives
/// `clock`.
pub open spec fn reading_of(
    sys: System,
    config: ConfigView,
    module: Module,
    clock: Seq<char>,
) -> ReadingView {
    match module {
        Module::BatteryCapacity => ReadingView::BatteryCapacity(
            battery_file(sys, config.battery_name, CAPACITY_FILE@),
        ),
        Module::BatteryStatus => ReadingView::BatteryStatus(
            battery_file(sys, config.battery_name, STATUS_FILE@),
        ),
        Module::BatteryAll => ReadingView::BatteryAll(
            battery_file(sys, config.battery_name, CAPACITY_FILE@),
            battery_file(sys, config.battery_name, STATUS_FILE@),
        ),
        Module::Wifi => ReadingView::Wifi(wifi_name(sys, config.wifi_device)),
        Module::Time => ReadingView::Time(clock),
    }
}

/// The clock fragment of a reading; empty if it is no time reading.
pub open spec fn clock_of(reading: ReadingView) -> Seq<char> {
    match reading {
        ReadingView::Time(clock) => clock,
        _ => Seq::empty(),
    }
}

impl PipelineView {
    /// The readings so far belong to the first modules, in their order.
    pub open spec fn readings_in_order(self) -> bool {
        &&& self.readings.len() <= self.config.modules.len()
        &&& forall|i: int|
            0 <= i < self.readings.len() ==> (#[trigger] self.readings[i]).module()
                == self.config.modules[i]
    }

    /// What holds of every state of a pipeline: the readings so far belong
    /// to the first modules, in their order; a pipeline is done when no module
    /// is left; and only a module that needs the system is under way.
    pub open spec fn wf(self) -> bool {
        &&& self.readings_in_order()
        &&& self.stage is Done ==> self.current() is None && self.held is None
        &&& !(self.stage is Done) ==> self.current() is Some && self.current() != Some(
            Module::Time,
        )
        &&& self.held is Some ==> self.current() == Some(Module::BatteryAll)
    }

    /// The number of responses after which the pipeline is done at the
    /// latest: four for each module that is left, less what the module under
    /// way has behind it.
    pub open spec fn steps_left(self) -> int {
        if self.stage is Done {
            0
        } else {
            4 * (self.config.modules.len() - self.readings.len()) - (if self.held is Some {
                2int
            } else {
                0int
            }) - (if self.stage is Fetching {
                1int
            } else {
                0int
            })
        }
    }

    /// Each reading so far is what `sys` gives for its module.
    pub open spec fn readings_agree(self, sys: System) -> bool {
        forall|i: int|
            0 <= i < self.readings.len() ==> #[trigger] self.readings[i] == reading_of(
                sys,
                self.config,
                self.config.modules[i],
                clock_of(self.readings[i]),
            )
    }

    /// The state is one that a pipeline reaches when every response so far
    /// was the answer of `sys` to the request before it.
    pub open spec fn agrees(self, sys: System) -> bool {
        &&& self.wf()
        &&& self.readings_agree(sys)
        &&& match self.stage {
            StageView::Done => true,
            StageView::Listing => fixed_device(self.config, self.probe()) is None,
            StageView::Fetching(name) => device(
                sys,
                fixed_device(self.config, self.probe()),
                listing_dir(self.probe()),
                device_prefix(self.probe()),
            ) == OutcomeView::Present(name),
        }
        &&& self.held matches Some(capacity) ==> capacity == battery_file(
            sys,
            self.config.battery_name,
            CAPACITY_FILE@,
        )
    }
}

/// Starting on the next module keeps the state well-formed.
proof fn lemma_advance_wf(state: PipelineView, clock: Seq<char>)
    requires
        state.readings_in_order(),
    ensures
        state.advance(clock).wf(),
        state.advance(clock).config == state.config,
        state.advance(clock).steps_left() <= 4 * (state.config.modules.len()
            - state.readings.len()),
    decreases state.config.modules.len() - state.readings.len(),
{
    match state.current() {
        Some(Module::Time) => {
            lemma_advance_wf(state.with_reading(ReadingView::Time(clock)), clock);
        },
        _ => {},
    }
}

/// Bringing the probe under way to an outcome keeps the state well-formed
/// and brings the pipeline nearer to its end.
proof fn lemma_complete_wf(state: PipelineView, outcome: OutcomeView, clock: Seq<char>)
    requires
        state.wf(),
        !(state.stage is Done),
    ensures
        state.complete(outcome, clock).wf(),
        state.complete(outcome, clock).config == state.config,
        0 <= state.complete(outcome, clock).steps_left() < state.steps_left(),
{
    match state.current() {
        Some(Module::BatteryAll) => match state.held {
            None => {},
            Some(capacity) => {
                lemma_advance_wf(
                    state.with_reading(ReadingView::BatteryAll(capacity, outcome)),
                    clock,
                );
            },
        },
        Some(Module::BatteryCapacity) => {
            lemma_advance_wf(state.with_reading(ReadingView::BatteryCapacity(outcome)), clock);
        },
        Some(Module::BatteryStatus) => {
            lemma_advance_wf(state.with_reading(ReadingView::BatteryStatus(outcome)), clock);
        },
        Some(Module::Wifi) => {
            lemma_advance_wf(state.with_reading(ReadingView::Wifi(outcome)), clock);
        },
        _ => {},
    }
}

/// A pipeline starts well-formed, and is done after four responses for each
/// module at the latest.
pub proof fn lemma_initial_wf(config: ConfigView, clock: Seq<char>)
    ensures
        initial(config, clock).wf(),
        initial(config, clock).config == config,
        0 <= initial(config, clock).steps_left() <= 4 * config.modules.len(),
{
    let empty = PipelineView {
        config,
        readings: Seq::empty(),
        held: None,
        stage: StageView::Done,
    };
    lemma_advance_wf(empty, clock);
}

/// Whatever the response, a pipeline stays well-formed, keeps its
/// configuration and, unless it is done, comes nearer to its end: the
/// modules are gone through in their order, and each run ends.
pub proof fn lemma_next_wf(state: PipelineView, response: ResponseView, clock: Seq<char>)
    requires
        state.wf(),
    ensures
        state.next(response, clock).wf(),
        state.next(response, clock).config == state.config,
        state.stage is Done ==> state.next(response, clock) == state,
        !(state.stage is Done) ==> 0 <= state.next(response, clock).steps_left()
            < state.steps_left(),
{
    match state.stage {
        StageView::Listing => {
            match found(response, device_prefix(state.probe())) {
                OutcomeView::Present(name) => {},
                other => {
                    lemma_complete_wf(state, other, clock);
                },
            }
        },
        StageView::Fetching(name) => {
            lemma_complete_wf(state, probe_reading(state.probe(), response), clock);
        },
        StageView::Done => {},
    }
}

/// Starting on the next module keeps the state in agreement with the system.
proof fn lemma_advance_agrees(state: PipelineView, sys: System, clock: Seq<char>)
    requires
        state.readings_in_order(),
        state.readings_agree(sys),
    ensures
        state.advance(clock).agrees(sys),
    decreases state.config.modules.len() - state.readings.len(),
{
    lemma_advance_wf(state, clock);
    match state.current() {
        Some(Module::Time) => {
            let then = state.with_reading(ReadingView::Time(clock));
            lemma_advance_agrees(then, sys, clock);
        },
        _ => {},
    }
}

/// Bringing the probe under way to the outcome that the system gives keeps
/// the state in agreement with the system.
proof fn lemma_complete_agrees(state: PipelineView, sys: System, clock: Seq<char>)
    requires
        state.agrees(sys),
        !(state.stage is Done),
    ensures
        state.complete(probe_outcome(sys, state.config, state.probe()), clock).agrees(sys),
{
    let outcome = probe_outcome(sys, state.config, state.probe());
    lemma_complete_wf(state, outcome, clock);
    match state.current() {
        Some(Module::BatteryAll) => match state.held {
            None => {},
            Some(capacity) => {
                let then = state.with_reading(ReadingView::BatteryAll(capacity, outcome));
                lemma_advance_agrees(then, sys, clock);
            },
        },
        Some(Module::BatteryCapacity) => {
            let then = state.with_reading(ReadingView::BatteryCapacity(outcome));
            lemma_advance_agrees(then, sys, clock);
        },
        Some(Module::BatteryStatus) => {
            let then = state.with_reading(ReadingView::BatteryStatus(outcome));
            lemma_advance_agrees(then, sys, clock);
        },
        Some(Module::Wifi) => {
            let then = state.with_reading(ReadingView::Wifi(outcome));
            lemma_advance_agrees(then, sys, clock);
        },
        _ => {},
    }
}

/// A pipeline starts in agreement with every system: it has asked nothing
/// yet.
pub proof fn lemma_initial_agrees(config: ConfigView, clock: Seq<char>, sys: System)
    ensures
        initial(config, clock).agrees(sys),
{
    let empty = PipelineView {
        config,
        readings: Seq::empty(),
        held: None,
        stage: StageView::Done,
    };
    lemma_advance_agrees(empty, sys, clock);
}

/// A response that is the system's answer to the pending request keeps the
/// pipeline in agreement with the system.
pub proof fn lemma_next_agrees(state: PipelineView, sys: System, clock: Seq<char>)
    requires
        state.agrees(sys),
        state.pending() is Ask,
    ensures
        state.next(sys(state.pending()->Ask_0), clock).agrees(sys),
{
    let response = sys(state.pending()->Ask_0);
    let probe = state.probe();
    lemma_next_wf(state, response, clock);
    match state.stage {
        StageView::Listing => {
            match found(response, device_prefix(probe)) {
                OutcomeView::Present(name) => {},
                other => {
                    lemma_complete_agrees(state, sys, clock);
                },
            }
        },
        StageView::Fetching(name) => {
            lemma_complete_agrees(state, sys, clock);
        },
        StageView::Done => {},
    }
}

/// A pipeline that is done in agreement with a system has one reading for
/// each module, in the order of the modules; each is what the system gives
/// for its module; and the line to print is made of their fragments.
pub proof fn lemma_done_line(state: PipelineView, sys: System)
    requires
        state.agrees(sys),
        state.stage is Done,
    ensures
        state.readings.len() == state.config.modules.len(),
        forall|i: int|
            0 <= i < state.readings.len() ==> (#[trigger] state.readings[i]).module()
                == state.config.modules[i],
        forall|i: int|
            0 <= i < state.readings.len() ==> #[trigger] state.readings[i] == reading_of(
                sys,
                state.config,
                state.config.modules[i],
                clock_of(state.readings[i]),
            ),
        state.pending() == ActionView::Print(
            line_of(fragments(state.readings), state.config.separator),
        ),
{
}

/// Two runs against the same system come to the same readings, except for
/// what the clock gave; where the clock gave the same, they show the same
/// line.
pub proof fn lemma_same_system_same_line(first: PipelineView, second: PipelineView, sys: System)
    requires
        first.config == second.config,
        first.agrees(sys),
        second.agrees(sys),
        first.stage is Done,
        second.stage is Done,
    ensures
        first.readings.len() == second.readings.len(),
        forall|i: int|
            0 <= i < first.readings.len() && first.config.modules[i] != Module::Time
                ==> #[trigger] first.readings[i] == second.readings[i],
        (forall|i: int|
            0 <= i < first.readings.len() && first.config.modules[i] == Module::Time
                ==> #[trigger] first.readings[i] == second.readings[i]) ==> first.pending()
            == second.pending(),
{
    assert forall|i: int|
        0 <= i < first.readings.len() && first.config.modules[i]
            != Module::Time implies #[trigger] first.readings[i] == second.readings[i] by {
    }
    if forall|i: int|
        0 <= i < first.readings.len() && first.config.modules[i] == Module::Time
            ==> #[trigger] first.readings[i] == second.readings[i] {
        assert(first.readings =~= second.readings);
    }
}

} // verus!
