//! Composition: the reading of each module is rendered to a fragment or to
//! nothing, and the fragments are joined, in the order of their modules, into
//! the status line.

use crate::battery::{battery_capacity_and_status, combined};
use crate::outcome::{Outcome, OutcomeView};
use crate::text::same;
use vstd::prelude::*;
use vstd::string::StringExecFns;

verus! {

/// The kinds of module that the status line can show.
#[derive(Clone, Copy, Debug, PartialEq, Eq, Structural)]
pub enum Module {
    /// The charge of the battery.
    BatteryCapacity,
    /// The charging status of the battery.
    BatteryStatus,
    /// Charge and status of the battery in one fragment.
    BatteryAll,
    /// The name of the wireless network.
    Wifi,
    /// The local time.
    Time,
}

/// The module with this name, if there is one.
pub open spec fn module_named(name: Seq<char>) -> Option<Module> {
    if name == "battery_capacity"@ {
        Some(Module::BatteryCapacity)
    } else if name == "battery_status"@ {
        Some(Module::BatteryStatus)
    } else if name == "battery_all"@ {
        Some(Module::BatteryAll)
    } else if name == "wifi"@ {
        Some(Module::Wifi)
    } else if name == "time"@ {
        Some(Module::Time)
    } else {
        None
    }
}

/// The modules that `names` name, in the order of the names. A name that
/// names no module is passed over.
pub open spec fn modules_named(names: Seq<Seq<char>>) -> Seq<Module>
    decreases names.len(),
{
    if names.len() == 0 {
        Seq::empty()
    } else {
        match module_named(names.last()) {
            Some(module) => modules_named(names.drop_last()).push(module),
            None => modules_named(names.drop_last()),
        }
    }
}

impl Module {
    /// The module with this name: `battery_capacity`, `battery_status`,
    /// `battery_all`, `wifi` or `time`.
    pub fn named(name: &str) -> (module: Option<Module>)
        ensures
            module == module_named(name@),
    {
        if same(name, "battery_capacity") {
            Some(Module::BatteryCapacity)
        } else if same(name, "battery_status") {
            Some(Module::BatteryStatus)
        } else if same(name, "battery_all") {
            Some(Module::BatteryAll)
        } else if same(name, "wifi") {
            Some(Module::Wifi)
        } else if same(name, "time") {
            Some(Module::Time)
        } else {
            None
        }
    }

    /// The modules that `names` name, in the order of the names. A name
    /// that names no module is passed over.
    pub fn all_named(names: &Vec<&str>) -> (modules: Vec<Module>)
        ensures
            modules@ == modules_named(names.deep_view()),
    {
        let mut modules: Vec<Module> = Vec::new();
        let mut i: usize = 0;
        while i < names.len()
            invariant
                i <= names.len(),
                modules@ == modules_named(names.deep_view().take(i as int)),
            decreases names.len() - i,
        {
            assert(names.deep_view().take(i + 1).drop_last() =~= names.deep_view().take(i as int));
            match Module::named(names[i]) {
                Some(module) => {
                    modules.push(module);
                },
                None => {},
            }
            i = i + 1;
        }
        assert(names.deep_view().take(i as int) =~= names.deep_view());
        modules
    }
}

/// What the system gave for one module.
#[derive(Clone, Debug, PartialEq, Eq)]
pub enum Reading {
    BatteryCapacity(Outcome),
    BatteryStatus(Outcome),
    /// The capacity, then the status.
    BatteryAll(Outcome, Outcome),
    Wifi(Outcome),
    /// The clock fragment.
    Time(String),
}

/// The mathematical value of a [`Reading`].
pub enum ReadingView {
    BatteryCapacity(OutcomeView),
    BatteryStatus(OutcomeView),
    BatteryAll(OutcomeView, OutcomeView),
    Wifi(OutcomeView),
    Time(Seq<char>),
}

impl View for Reading {
    type V = ReadingView;

    open spec fn view(&self) -> ReadingView {
        match self {
            Reading::BatteryCapacity(outcome) => ReadingView::BatteryCapacity(outcome@),
            Reading::BatteryStatus(outcome) => ReadingView::BatteryStatus(outcome@),
            Reading::BatteryAll(capacity, status) => ReadingView::BatteryAll(capacity@, status@),
            Reading::Wifi(outcome) => ReadingView::Wifi(outcome@),
            Reading::Time(text) => ReadingView::Time(text@),
        }
    }
}

impl DeepView for Reading {
    type V = ReadingView;

    open spec fn deep_view(&self) -> ReadingView {
        self@
    }
}

impl ReadingView {
    /// The module that the reading belongs to.
    pub open spec fn module(self) -> Module {
        match self {
            ReadingView::BatteryCapacity(_) => Module::BatteryCapacity,
            ReadingView::BatteryStatus(_) => Module::BatteryStatus,
            ReadingView::BatteryAll(_, _) => Module::BatteryAll,
            ReadingView::Wifi(_) => Module::Wifi,
            ReadingView::Time(_) => Module::Time,
        }
    }
}

/// What stands before the error of a failed network query.
pub const WIFI_ERROR_LEAD: &'static str = "WiFi: ";

/// What is shown when no module has a fragment.
pub const PLACEHOLDER: &'static str = "Status: Empty";

/// The fragment of a single battery value: the value, or the description of
/// the failure; nothing if the value is absent.
pub open spec fn plain_fragment(outcome: OutcomeView) -> Option<Seq<char>> {
    match outcome {
        OutcomeView::Present(value) => Some(value),
        OutcomeView::Absent => None,
        OutcomeView::Failed(error) => Some(error),
    }
}

/// The fragment of the network name: the name, or the description of the
/// failure behind its lead; nothing if the name is absent.
pub open spec fn wifi_fragment(outcome: OutcomeView) -> Option<Seq<char>> {
    match outcome {
        OutcomeView::Present(name) => Some(name),
        OutcomeView::Absent => None,
        OutcomeView::Failed(error) => Some(WIFI_ERROR_LEAD@ + error),
    }
}

/// The fragment that a reading contributes to the line, if it contributes
/// one. A failure is shown as text; only absence contributes nothing.
pub open spec fn fragment(reading: ReadingView) -> Option<Seq<char>> {
    match reading {
        ReadingView::BatteryCapacity(outcome) => plain_fragment(outcome),
        ReadingView::BatteryStatus(outcome) => plain_fragment(outcome),
        ReadingView::BatteryAll(capacity, status) => combined(capacity, status),
        ReadingView::Wifi(outcome) => wifi_fragment(outcome),
        ReadingView::Time(text) => Some(text),
    }
}

/// The fragments of `readings`, in the order of the readings.
pub open spec fn fragments(readings: Seq<ReadingView>) -> Seq<Seq<char>>
    decreases readings.len(),
{
    if readings.len() == 0 {
        Seq::empty()
    } else {
        match fragment(readings.last()) {
            Some(text) => fragments(readings.drop_last()).push(text),
            None => fragments(readings.drop_last()),
        }
    }
}

/// `fragments` with `separator` between each two that follow one another.
pub open spec fn joined(fragments: Seq<Seq<char>>, separator: Seq<char>) -> Seq<char>
    decreases fragments.len(),
{
    if fragments.len() == 0 {
        Seq::empty()
    } else if fragments.len() == 1 {
        fragments.last()
    } else {
        joined(fragments.drop_last(), separator) + separator + fragments.last()
    }
}

/// The status line: the placeholder if there is no fragment, else the joined
/// fragments between one leading and one trailing space.
pub open spec fn line_of(fragments: Seq<Seq<char>>, separator: Seq<char>) -> Seq<char> {
    if fragments.len() == 0 {
        PLACEHOLDER@
    } else {
        seq![' '] + joined(fragments, separator) + seq![' ']
    }
}

/// Renders one reading to its fragment.
pub fn render(reading: &Reading) -> (text: Option<String>)
    ensures
        text.deep_view() == fragment(reading@),
{
    match reading {
        Reading::BatteryCapacity(outcome) | Reading::BatteryStatus(outcome) => match outcome {
            Outcome::Present(value) => Some(value.clone()),
            Outcome::Absent => None,
            Outcome::Failed(error) => Some(error.clone()),
        },
        Reading::BatteryAll(capacity, status) => battery_capacity_and_status(capacity, status),
        Reading::Wifi(outcome) => match outcome {
            Outcome::Present(name) => Some(name.clone()),
            Outcome::Absent => None,
            Outcome::Failed(error) => {
                let mut text = String::from_str(WIFI_ERROR_LEAD);
                text.append(error.as_str());
                Some(text)
            },
        },
        Reading::Time(text) => Some(text.clone()),
    }
}

/// Collects the fragments of the modules, in the order of their readings.
pub fn add_modules(readings: &Vec<Reading>) -> (modules: Vec<String>)
    ensures
        modules.deep_view() == fragments(readings.deep_view()),
{
    let mut modules: Vec<String> = Vec::new();
    let mut i: usize = 0;
    while i < readings.len()
        invariant
            i <= readings.len(),
            modules.deep_view() == fragments(readings.deep_view().take(i as int)),
        decreases readings.len() - i,
    {
        assert(readings.deep_view().take(i + 1).drop_last() =~= readings.deep_view().take(
            i as int,
        ));
        match render(&readings[i]) {
            Some(text) => {
                modules.push(text);
            },
            None => {},
        }
        i = i + 1;
    }
    assert(readings.deep_view().take(i as int) =~= readings.deep_view());
    modules
}

/// Joins the fragments into the status line.
pub fn status_line(fragments: &Vec<String>, separator: &str) -> (line: String)
    ensures
        line@ == line_of(fragments.deep_view(), separator@),
{
    if fragments.len() == 0 {
        return String::from_str(PLACEHOLDER);
    }
    let mut line = String::from_str(" ");
    let ghost mut body: Seq<char> = Seq::empty();
    let mut i: usize = 0;
    proof {
        reveal_strlit(" ");
    }
    while i < fragments.len()
        invariant
            i <= fragments.len(),
            body == joined(fragments.deep_view().take(i as int), separator@),
            line@ == seq![' '] + body,
        decreases fragments.len() - i,
    {
        let ghost done = fragments.deep_view().take(i as int);
        let ghost next = fragments.deep_view().take(i + 1);
        assert(next.drop_last() =~= done);
        if i > 0 {
            line.append(separator);
            proof {
                body = body + separator@;
            }
        }
        line.append(fragments[i].as_str());
        proof {
            body = body + fragments[i as int]@;
        }
        i = i + 1;
    }
    assert(fragments.deep_view().take(i as int) =~= fragments.deep_view());
    line.append(" ");
    line
}

/// The sum of the lengths of `fragments`.
pub open spec fn total_len(fragments: Seq<Seq<char>>) -> nat
    decreases fragments.len(),
{
    if fragments.len() == 0 {
        0
    } else {
        total_len(fragments.drop_last()) + fragments.last().len()
    }
}

/// Fragments keep the order of their modules: the fragments of one list of
/// readings followed by another are the fragments of the first followed by
/// the fragments of the second.
pub proof fn lemma_fragments_concat(first: Seq<ReadingView>, second: Seq<ReadingView>)
    ensures
        fragments(first + second) == fragments(first) + fragments(second),
    decreases second.len(),
{
    if second.len() == 0 {
    } else {
        lemma_fragments_concat(first, second.drop_last());
        assert((first + second).drop_last() =~= first + second.drop_last());
        match fragment(second.last()) {
            Some(text) => {
            },
            None => {},
        }
    }
}

/// The fragment of a reading stands in the line's fragments behind the
/// fragments of all readings before it, and before those of all readings
/// after it: at the position that is the number of fragments of the readings
/// before it.
pub proof fn lemma_fragment_position(readings: Seq<ReadingView>, i: int)
    requires
        0 <= i < readings.len(),
        fragment(readings[i]) is Some,
    ensures
        fragments(readings.take(i)).len() < fragments(readings).len(),
        fragments(readings)[fragments(readings.take(i)).len() as int] == fragment(
            readings[i],
        )->0,
        fragments(readings).take(fragments(readings.take(i)).len() as int) == fragments(
            readings.take(i),
        ),
        fragments(readings).skip(fragments(readings.take(i)).len() as int + 1) == fragments(
            readings.skip(i + 1),
        ),
{
    let before = readings.take(i);
    let after = readings.skip(i + 1);
    let one = seq![readings[i]];
    assert(readings =~= before + one + after);
    lemma_fragments_concat(before + one, after);
    lemma_fragments_concat(before, one);
    assert(fragments(one.drop_last()).len() == 0);
    let k = fragments(before).len() as int;
}

/// A reading without a fragment leaves no trace among the fragments.
pub proof fn lemma_absent_contributes_nothing(
    before: Seq<ReadingView>,
    reading: ReadingView,
    after: Seq<ReadingView>,
)
    requires
        fragment(reading) is None,
    ensures
        fragments(before.push(reading) + after) == fragments(before + after),
{
    lemma_fragments_concat(before.push(reading), after);
    lemma_fragments_concat(before, after);
    assert(before.push(reading).drop_last() =~= before);
}

/// Joining puts one separator between each two fragments and none around
/// them: the joined text of `n` fragments, `n` at least one, is as long as
/// the fragments together and `n - 1` separators.
pub proof fn lemma_joined_len(fragments: Seq<Seq<char>>, separator: Seq<char>)
    requires
        fragments.len() > 0,
    ensures
        joined(fragments, separator).len() == total_len(fragments) + (fragments.len() - 1)
            * separator.len(),
    decreases fragments.len(),
{
    if fragments.len() == 1 {
        assert(total_len(fragments) == fragments.last().len()) by {
        }
    } else {
        lemma_joined_len(fragments.drop_last(), separator);
        assert((fragments.len() - 1) * separator.len() == (fragments.len() - 2) * separator.len()
            + separator.len()) by (nonlinear_arith);
    }
}

/// Where no reading has a fragment, the line is the placeholder.
pub proof fn lemma_all_absent_gives_placeholder(readings: Seq<ReadingView>, separator: Seq<char>)
    requires
        forall|i: int| 0 <= i < readings.len() ==> fragment(#[trigger] readings[i]) is None,
    ensures
        fragments(readings).len() == 0,
        line_of(fragments(readings), separator) == PLACEHOLDER@,
    decreases readings.len(),
{
    if readings.len() > 0 {
        lemma_all_absent_gives_placeholder(readings.drop_last(), separator);
    }
}

/// Whether the reading holds no empty text: no empty value, no empty
/// description of a failure, no empty clock fragment.
pub open spec fn has_text(reading: ReadingView) -> bool {
    match reading {
        ReadingView::BatteryCapacity(outcome) => outcome_has_text(outcome),
        ReadingView::BatteryStatus(outcome) => outcome_has_text(outcome),
        ReadingView::BatteryAll(_, _) => true,
        ReadingView::Wifi(outcome) => outcome_has_text(outcome),
        ReadingView::Time(text) => text.len() > 0,
    }
}

/// Whether the outcome holds no empty text.
pub open spec fn outcome_has_text(outcome: OutcomeView) -> bool {
    match outcome {
        OutcomeView::Present(value) => value.len() > 0,
        OutcomeView::Absent => true,
        OutcomeView::Failed(error) => error.len() > 0,
    }
}

/// Where no reading holds an empty text, no fragment is empty. The combined
/// battery fragment is never empty.
pub proof fn lemma_fragments_not_empty(readings: Seq<ReadingView>)
    requires
        forall|i: int| 0 <= i < readings.len() ==> has_text(#[trigger] readings[i]),
    ensures
        forall|k: int| 0 <= k < fragments(readings).len() ==> (#[trigger] fragments(
            readings,
        )[k]).len() > 0,
    decreases readings.len(),
{
    if readings.len() > 0 {
        let front = fragments(readings.drop_last());
        assert(has_text(readings[readings.len() - 1]));
        lemma_fragments_not_empty(readings.drop_last());
        assert forall|k: int| 0 <= k < fragments(readings).len() implies (#[trigger] fragments(
            readings,
        )[k]).len() > 0 by {
            if k < front.len() {
                assert(fragments(readings)[k] == front[k]);
            }
        }
    }
}

/// The line is never empty.
pub proof fn lemma_line_not_empty(fragments: Seq<Seq<char>>, separator: Seq<char>)
    ensures
        line_of(fragments, separator).len() > 0,
{
    reveal_strlit("Status: Empty");
}

} // verus!
