//! The battery provider: the capacity and the status of the battery device,
//! each read from a small text file of the device's directory.

use crate::outcome::{Outcome, OutcomeView};
use crate::resolver::device;
use crate::system::{Request, RequestView, Response, ResponseView, System, UNEXPECTED_RESPONSE};
use crate::text::{trim_end, trimmed_end};
use vstd::prelude::*;
use vstd::string::StringExecFns;

verus! {

/// The directory that lists the power supplies.
pub const POWER_SUPPLY_PATH: &'static str = "/sys/class/power_supply";

/// The prefix by which a battery is recognised among the power supplies.
pub const BATTERY_PREFIX: &'static str = "BAT";

/// The file of a battery's directory that holds its charge in percent.
pub const CAPACITY_FILE: &'static str = "capacity";

/// The file of a battery's directory that holds its charging status.
pub const STATUS_FILE: &'static str = "status";

/// The path of `file` in the directory of the power supply `device`.
pub open spec fn battery_path(device: Seq<char>, file: Seq<char>) -> Seq<char> {
    POWER_SUPPLY_PATH@ + seq!['/'] + device + seq!['/'] + file
}

/// The path of `file` in the directory of the power supply `device`.
pub fn battery_file_path(device: &str, file: &str) -> (path: String)
    ensures
        path@ == battery_path(device@, file@),
{
    let mut path = String::from_str(POWER_SUPPLY_PATH);
    path.append("/");
    path.append(device);
    path.append("/");
    path.append(file);
    proof {
        reveal_strlit("/");
    }
    path
}

/// The request for `file` of the power supply `device`.
pub fn battery_file_request(device: &str, file: &str) -> (request: Request)
    ensures
        request@ == RequestView::ReadFile(battery_path(device@, file@)),
{
    Request::ReadFile(battery_file_path(device, file))
}

/// The request for the charge of the battery `device`.
pub fn capacity_request(device: &str) -> (request: Request)
    ensures
        request@ == RequestView::ReadFile(battery_path(device@, CAPACITY_FILE@)),
{
    battery_file_request(device, CAPACITY_FILE)
}

/// The request for the charging status of the battery `device`.
pub fn status_request(device: &str) -> (request: Request)
    ensures
        request@ == RequestView::ReadFile(battery_path(device@, STATUS_FILE@)),
{
    battery_file_request(device, STATUS_FILE)
}

/// The value that the answer to a file request gives: the content without
/// its trailing white space, or the failure.
pub open spec fn file_reading(response: ResponseView) -> OutcomeView {
    match response {
        ResponseView::Contents(text) => OutcomeView::Present(trimmed_end(text)),
        ResponseView::Failed(error) => OutcomeView::Failed(error),
        _ => OutcomeView::Failed(UNEXPECTED_RESPONSE@),
    }
}

/// Reads the value of a battery file out of the answer to the request for it.
pub fn read_battery_file(response: Response) -> (outcome: Outcome)
    ensures
        outcome@ == file_reading(response@),
{
    match response {
        Response::Contents(text) => Outcome::Present(String::from_str(trim_end(text.as_str()))),
        Response::Failed(error) => Outcome::Failed(error),
        _ => Outcome::Failed(String::from_str(UNEXPECTED_RESPONSE)),
    }
}

/// What `file` of the battery holds in the system `sys`: nothing, if there is
/// no battery; a failure, if the power supplies cannot be listed or the file
/// cannot be read.
pub open spec fn battery_file(sys: System, fixed: Option<Seq<char>>, file: Seq<char>) -> OutcomeView {
    match device(sys, fixed, POWER_SUPPLY_PATH@, BATTERY_PREFIX@) {
        OutcomeView::Present(name) => file_reading(
            sys(RequestView::ReadFile(battery_path(name, file))),
        ),
        OutcomeView::Absent => OutcomeView::Absent,
        OutcomeView::Failed(error) => OutcomeView::Failed(error),
    }
}

/// What the capacity contributes to the combined fragment.
pub open spec fn capacity_part(capacity: OutcomeView) -> Seq<char> {
    match capacity {
        OutcomeView::Present(value) => value + "% "@,
        OutcomeView::Absent => Seq::empty(),
        OutcomeView::Failed(error) => "Capacity: "@ + error + " "@,
    }
}

/// What the status contributes to the combined fragment.
pub open spec fn status_part(status: OutcomeView) -> Seq<char> {
    match status {
        OutcomeView::Present(value) => "["@ + value + "]"@,
        OutcomeView::Absent => Seq::empty(),
        OutcomeView::Failed(error) => "[Status: "@ + error + "]"@,
    }
}

/// The combined battery fragment: the capacity part followed by the status
/// part, or nothing if both are empty.
pub open spec fn combined(capacity: OutcomeView, status: OutcomeView) -> Option<Seq<char>> {
    let text = capacity_part(capacity) + status_part(status);
    if text.len() == 0 {
        None
    } else {
        Some(text)
    }
}

/// Combines the capacity and the status of the battery into one fragment.
/// Each part stands for itself: an error in one is shown in its place and
/// leaves the other as it is.
pub fn battery_capacity_and_status(capacity: &Outcome, status: &Outcome) -> (fragment: Option<
    String,
>)
    ensures
        fragment.deep_view() == combined(capacity@, status@),
{
    let mut result = String::new();
    match capacity {
        Outcome::Present(value) => {
            result.append(value.as_str());
            result.append("% ");
        },
        Outcome::Absent => {},
        Outcome::Failed(error) => {
            result.append("Capacity: ");
            result.append(error.as_str());
            result.append(" ");
        },
    }
    match status {
        Outcome::Present(value) => {
            result.append("[");
            result.append(value.as_str());
            result.append("]");
        },
        Outcome::Absent => {},
        Outcome::Failed(error) => {
            result.append("[Status: ");
            result.append(error.as_str());
            result.append("]");
        },
    }
    if result.as_str().is_empty() {
        None
    } else {
        Some(result)
    }
}

} // verus!
