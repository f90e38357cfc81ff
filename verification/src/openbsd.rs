//! The providers for OpenBSD: the battery from the report of `apm`, the
//! wireless network from the output of `ifconfig`.

use crate::clock::{format_after_midnight, is_hour_minute, HOUR_MINUTE_FORMAT};
use crate::number::{
    decimal, int_text, parse_i32, parse_i64, parse_message, parsed_int, ParseError,
};
use crate::system::{Request, RequestView, Response, ResponseView, UNEXPECTED_RESPONSE};
use crate::text::{
    before, before_first, decode_text, lines, lines_of, pieces, same, split, starts_with,
    trim, trim_start_matches, trimmed, utf8_error_text, without_leading,
};
use vstd::prelude::*;
use vstd::string::StringExecFns;
use vstd::utf8::{decode_utf8, valid_utf8};

verus! {

/// Why a provider failed.
#[derive(Clone, Debug, PartialEq, Eq)]
pub enum Error {
    /// A text is no number.
    Parse(ParseError),
    /// The output of a program is not text; with the description of the
    /// error.
    Utf8(String),
    /// A program could not be run; with the description of the error.
    Io(String),
    /// The local time asked for cannot be told.
    Clock,
}

/// The mathematical value of an [`Error`].
pub enum ErrorView {
    Parse(ParseError),
    Utf8(Seq<char>),
    Io(Seq<char>),
    Clock,
}

impl View for Error {
    type V = ErrorView;

    open spec fn view(&self) -> ErrorView {
        match self {
            Error::Parse(error) => ErrorView::Parse(*error),
            Error::Utf8(text) => ErrorView::Utf8(text@),
            Error::Io(text) => ErrorView::Io(text@),
            Error::Clock => ErrorView::Clock,
        }
    }
}

/// The description of the error for a local time that cannot be told.
pub const CLOCK_MESSAGE: &'static str = "local time out of range";

/// The description of an error.
pub open spec fn message_of(error: ErrorView) -> Seq<char> {
    match error {
        ErrorView::Parse(error) => parse_message(error),
        ErrorView::Utf8(text) => text,
        ErrorView::Io(text) => text,
        ErrorView::Clock => CLOCK_MESSAGE@,
    }
}

impl Error {
    /// The description of the error.
    pub fn message(&self) -> (text: String)
        ensures
            text@ == message_of(self@),
    {
        match self {
            Error::Parse(error) => String::from_str(error.message()),
            Error::Utf8(text) => text.clone(),
            Error::Io(text) => text.clone(),
            Error::Clock => String::from_str(CLOCK_MESSAGE),
        }
    }
}

/// The name of the power status with this code.
pub open spec fn status_name(code: Seq<char>) -> Seq<char> {
    if code == "0"@ {
        "Disconnected"@
    } else if code == "1"@ {
        "Connected"@
    } else if code == "2"@ {
        "Backup"@
    } else {
        "Unknown"@
    }
}

/// The name of the power status whose code is `value`, white space around
/// the code left aside. Every value has a name: this never fails.
pub fn battery_status(value: &str) -> (r: Result<String, Error>)
    ensures
        r matches Ok(name) && name@ == status_name(trimmed(value@)),
{
    let code = trim(value);
    let name = if same(code, "0") {
        "Disconnected"
    } else if same(code, "1") {
        "Connected"
    } else if same(code, "2") {
        "Backup"
    } else {
        "Unknown"
    };
    Ok(String::from_str(name))
}

/// The charge of the battery in percent: the whole number that `value`
/// denotes, white space around it left aside.
pub fn battery_percent(value: &str) -> (r: Result<i32, Error>)
    ensures
        match r {
            Ok(n) => parsed_int(trimmed(value@), i32::MIN as int, i32::MAX as int) == Ok::<
                int,
                ParseError,
            >(n as int),
            Err(e) => e@ matches ErrorView::Parse(kind) && parsed_int(
                trimmed(value@),
                i32::MIN as int,
                i32::MAX as int,
            ) == Err::<int, ParseError>(kind),
        },
{
    match parse_i32(trim(value)) {
        Ok(n) => Ok(n),
        Err(e) => Err(Error::Parse(e)),
    }
}

/// The program that reports on the battery.
pub const BATTERY_PROGRAM: &'static str = "apm";

/// The request for the battery report: the power status, the minutes that
/// remain and the charge in percent.
pub open spec fn battery_query() -> RequestView {
    RequestView::Run(BATTERY_PROGRAM@, seq!["-a"@, "-m"@, "-l"@])
}

/// The request for the battery report.
pub fn battery_request() -> (request: Request)
    ensures
        request@ == battery_query(),
{
    let mut args: Vec<String> = Vec::new();
    args.push(String::from_str("-a"));
    args.push(String::from_str("-m"));
    args.push(String::from_str("-l"));
    assert(args.deep_view() =~= seq!["-a"@, "-m"@, "-l"@]);
    Request::Run(String::from_str(BATTERY_PROGRAM), args)
}

/// The values of the battery report: the output as text, without the white
/// space around it, split at its line feeds.
pub open spec fn battery_values(response: ResponseView) -> Result<Seq<Seq<char>>, ErrorView> {
    match response {
        ResponseView::Output(bytes) => if valid_utf8(bytes) {
            Ok(pieces(trimmed(decode_utf8(bytes)), '\n'))
        } else {
            Err(ErrorView::Utf8(utf8_error_text(bytes)))
        },
        ResponseView::Failed(error) => Err(ErrorView::Io(error)),
        _ => Err(ErrorView::Io(UNEXPECTED_RESPONSE@)),
    }
}

/// Retrieves the values of the battery report in raw form, from the answer
/// to the request for it. A full report has three values, in this order: the
/// charge in percent, the minutes that remain, and the code of the power
/// status.
pub fn _battery_one(response: Response) -> (r: Result<Vec<String>, Error>)
    ensures
        match r {
            Ok(values) => battery_values(response@) == Ok::<Seq<Seq<char>>, ErrorView>(
                values.deep_view(),
            ),
            Err(e) => battery_values(response@) == Err::<Seq<Seq<char>>, ErrorView>(e@),
        },
{
    match response {
        Response::Output(bytes) => match decode_text(bytes) {
            Ok(text) => {
                let parts = split(trim(text.as_str()), '\n');
                let mut values: Vec<String> = Vec::new();
                let mut i: usize = 0;
                while i < parts.len()
                    invariant
                        i <= parts.len(),
                        values.deep_view() == parts.deep_view().take(i as int),
                    decreases parts.len() - i,
                {
                    let value = String::from_str(parts[i]);
                    values.push(value);
                    assert(parts.deep_view().take(i + 1) =~= parts.deep_view().take(
                        i as int,
                    ).push(parts[i as int]@));
                    i = i + 1;
                }
                assert(parts.deep_view().take(i as int) =~= parts.deep_view());
                Ok(values)
            },
            Err(error) => Err(Error::Utf8(error)),
        },
        Response::Failed(error) => Err(Error::Io(error)),
        _ => Err(Error::Io(String::from_str(UNEXPECTED_RESPONSE))),
    }
}

/// The time that the battery has left, as hours and minutes `HH:MM`: the
/// local time of day that lies `minutes` minutes after the midnight with
/// which yesterday began. It fails if `minutes`, white space around it left
/// aside, is no whole number, or if that time cannot be told.
pub fn time_remaining(minutes: &str) -> (r: Result<String, Error>)
    ensures
        match parsed_int(trimmed(minutes@), i64::MIN as int, i64::MAX as int) {
            Ok(_) => match r {
                Ok(text) => is_hour_minute(text@),
                Err(e) => e@ == ErrorView::Clock,
            },
            Err(kind) => r matches Err(e) && e@ == ErrorView::Parse(kind),
        },
{
    let output = match parse_i64(trim(minutes)) {
        Ok(x) => x,
        Err(e) => return Err(Error::Parse(e)),
    };
    match format_after_midnight(1, output, HOUR_MINUTE_FORMAT) {
        Some(time) => Ok(time),
        None => Err(Error::Clock),
    }
}

/// What the charge contributes to the battery fragment: the percentage, or
/// the description of the error in its place.
pub open spec fn percent_part(percent: Result<int, Seq<char>>) -> Seq<char> {
    match percent {
        Ok(n) => decimal(n) + "% "@,
        Err(message) => "Capacity: "@ + message + " "@,
    }
}

/// What the power status contributes to the battery fragment: its name,
/// with the time that remains if that is known, or the description of the
/// error in its place.
pub open spec fn power_part(status: Result<Seq<char>, Seq<char>>, remaining: Option<Seq<char>>) -> Seq<
    char,
> {
    match status {
        Ok(name) => match remaining {
            Some(time) => "["@ + name + ": "@ + time + "]"@,
            None => "["@ + name + "]"@,
        },
        Err(message) => "[Status: "@ + message + "]"@,
    }
}

/// The battery fragment made of the charge, the power status and the time
/// that remains.
pub fn battery_summary(
    percent: &Result<i32, Error>,
    status: &Result<String, Error>,
    remaining: &Option<String>,
) -> (text: String)
    ensures
        text@ == percent_part(
            match *percent {
                Ok(n) => Ok(n as int),
                Err(e) => Err(message_of(e@)),
            },
        ) + power_part(
            match *status {
                Ok(name) => Ok(name@),
                Err(e) => Err(message_of(e@)),
            },
            remaining.deep_view(),
        ),
{
    let mut result = String::new();
    match percent {
        Ok(percent) => {
            result.append(int_text(*percent).as_str());
            result.append("% ");
        },
        Err(e) => {
            result.append("Capacity: ");
            result.append(e.message().as_str());
            result.append(" ");
        },
    }
    match status {
        Ok(status) => match remaining {
            Some(x) => {
                result.append("[");
                result.append(status.as_str());
                result.append(": ");
                result.append(x.as_str());
                result.append("]");
            },
            None => {
                result.append("[");
                result.append(status.as_str());
                result.append("]");
            },
        },
        Err(e) => {
            let message = e.message();
            result.append("[Status: ");
            result.append(message.as_str());
            result.append("]");
        },
    }
    result
}

/// The charge that the value of the battery report gives.
pub open spec fn percent_of(value: Seq<char>) -> Result<int, Seq<char>> {
    match parsed_int(trimmed(value), i32::MIN as int, i32::MAX as int) {
        Ok(n) => Ok(n),
        Err(kind) => Err(parse_message(kind)),
    }
}

/// What stands before the error of a battery report that failed.
pub const BATTERY_ERROR_LEAD: &'static str = "Battery: ";

/// The value at place `i` of a report; empty text if the report is too short
/// to have one.
pub open spec fn value_at(values: Seq<Seq<char>>, i: int) -> Seq<char> {
    if 0 <= i < values.len() {
        values[i]
    } else {
        Seq::empty()
    }
}

/// The value at place `i` of a report; empty text if the report is too short
/// to have one.
fn value_of(values: &Vec<String>, i: usize) -> (value: &str)
    ensures
        value@ == value_at(values.deep_view(), i as int),
{
    if i < values.len() {
        values[i].as_str()
    } else {
        proof {
            reveal_strlit("");
        }
        ""
    }
}

/// Charge, power status and remaining time of the battery in one fragment,
/// from the values of the battery report. A report that failed is shown as
/// its error behind the lead. A value that the report lacks is read as empty
/// text: a charge that is no number is shown as its error, and a remaining
/// time that cannot be told is left out. There is always a fragment.
pub fn battery_all(report: &Result<Vec<String>, Error>) -> (fragment: Option<String>)
    ensures
        match *report {
            Ok(values) => exists|remaining: Option<Seq<char>>|
                {
                    &&& remaining matches Some(time) ==> is_hour_minute(time) && parsed_int(
                        trimmed(value_at(values.deep_view(), 1)),
                        i64::MIN as int,
                        i64::MAX as int,
                    ) is Ok
                    &&& fragment.deep_view() == Some(
                        percent_part(percent_of(value_at(values.deep_view(), 0)))
                            + #[trigger] power_part(
                            Ok(status_name(trimmed(value_at(values.deep_view(), 2)))),
                            remaining,
                        ),
                    )
                },
            Err(e) => fragment.deep_view() == Some(BATTERY_ERROR_LEAD@ + message_of(e@)),
        },
{
    let battery = match report {
        Ok(x) => x,
        Err(e) => {
            let mut result = String::from_str(BATTERY_ERROR_LEAD);
            result.append(e.message().as_str());
            return Some(result);
        },
    };
    let percent = battery_percent(value_of(battery, 0));
    let status = battery_status(value_of(battery, 2));
    let remaining = match time_remaining(value_of(battery, 1)) {
        Ok(x) => Some(x),
        Err(_) => None,
    };
    Some(battery_summary(&percent, &status, &remaining))
}

/// The program that reports on a network interface.
pub const WIFI_PROGRAM: &'static str = "ifconfig";

/// What begins the line that tells the state of the interface.
pub const STATUS_MARK: &'static str = "status";

/// What stands before the state on its line.
pub const STATUS_LEAD: &'static str = "status: ";

/// What stands before the name of the network on its line.
pub const JOIN_LEAD: &'static str = "ieee80211: join ";

/// The state of an interface that is up.
pub const ACTIVE: &'static str = "active";

/// What is shown for an interface that is not up or has no network.
pub const WIFI_DOWN: &'static str = "WiFi: Down";

/// The request for the report on the interface `device`.
pub fn wifi_request(device: &str) -> (request: Request)
    ensures
        request@ == RequestView::Run(WIFI_PROGRAM@, seq![device@]),
{
    let mut args: Vec<String> = Vec::new();
    args.push(String::from_str(device));
    assert(args.deep_view() =~= seq![device@]);
    Request::Run(String::from_str(WIFI_PROGRAM), args)
}

/// The state and the network name after `lines` have been read, where they
/// were `status` and `ssid` before: each line is taken without the white
/// space around it; a line that begins with the status mark sets the state
/// to what follows its lead; a line that begins with the join lead sets the
/// name to what follows the lead up to the next space, or to nothing if no
/// space follows.
pub open spec fn scanned(lines: Seq<Seq<char>>, status: Seq<char>, ssid: Seq<char>) -> (
    Seq<char>,
    Seq<char>,
)
    decreases lines.len(),
{
    if lines.len() == 0 {
        (status, ssid)
    } else {
        let line = trimmed(lines.first());
        if STATUS_MARK@.is_prefix_of(line) {
            scanned(lines.drop_first(), without_leading(STATUS_LEAD@, line), ssid)
        } else if JOIN_LEAD@.is_prefix_of(line) {
            scanned(
                lines.drop_first(),
                status,
                match before_first(without_leading(JOIN_LEAD@, line), ' ') {
                    Some(name) => name,
                    None => Seq::empty(),
                },
            )
        } else {
            scanned(lines.drop_first(), status, ssid)
        }
    }
}

/// What the report on an interface shows: the name of its network if the
/// interface is active and has one, else that it is down.
pub open spec fn wifi_text(output: Seq<char>) -> Seq<char> {
    let (status, ssid) = scanned(lines_of(output), Seq::empty(), Seq::empty());
    if status == ACTIVE@ && ssid.len() > 0 {
        ssid
    } else {
        WIFI_DOWN@
    }
}

/// What the answer to the request for the report on an interface shows.
pub open spec fn wifi_reading(response: ResponseView) -> Result<Seq<char>, ErrorView> {
    match response {
        ResponseView::Output(bytes) => if valid_utf8(bytes) {
            Ok(wifi_text(decode_utf8(bytes)))
        } else {
            Err(ErrorView::Utf8(utf8_error_text(bytes)))
        },
        ResponseView::Failed(error) => Err(ErrorView::Io(error)),
        _ => Err(ErrorView::Io(UNEXPECTED_RESPONSE@)),
    }
}

/// The name of the network of an interface, if the interface is up, from
/// the answer to the request for the report on it. It fails if there is no
/// report or the report is not text.
pub fn wifi(response: Response) -> (r: Result<String, Error>)
    ensures
        match r {
            Ok(text) => wifi_reading(response@) == Ok::<Seq<char>, ErrorView>(text@),
            Err(e) => wifi_reading(response@) == Err::<Seq<char>, ErrorView>(e@),
        },
{
    let stdout = match response {
        Response::Output(bytes) => match decode_text(bytes) {
            Ok(text) => text,
            Err(error) => return Err(Error::Utf8(error)),
        },
        Response::Failed(error) => return Err(Error::Io(error)),
        _ => return Err(Error::Io(String::from_str(UNEXPECTED_RESPONSE))),
    };
    let all = lines(stdout.as_str());
    let mut status = "";
    let mut ssid = "";
    proof {
        reveal_strlit("");
        assert(status@ =~= Seq::<char>::empty());
        assert(all.deep_view().skip(0) =~= all.deep_view());
    }
    let mut i: usize = 0;
    while i < all.len()
        invariant
            i <= all.len(),
            scanned(all.deep_view().skip(i as int), status@, ssid@) == scanned(
                all.deep_view(),
                Seq::empty(),
                Seq::empty(),
            ),
        decreases all.len() - i,
    {
        assert(all.deep_view().skip(i as int).drop_first() =~= all.deep_view().skip(i + 1));
        let line = trim(all[i]);
        if starts_with(line, STATUS_MARK) {
            status = trim_start_matches(line, STATUS_LEAD);
        } else if starts_with(line, JOIN_LEAD) {
            match before(trim_start_matches(line, JOIN_LEAD), ' ') {
                Some(x) => {
                    ssid = x;
                },
                None => {
                    ssid = "";
                    proof {
                        reveal_strlit("");
                        assert(ssid@ =~= Seq::<char>::empty());
                    }
                },
            }
        }
        i = i + 1;
    }
    if same(status, ACTIVE) && !ssid.is_empty() {
        Ok(String::from_str(ssid))
    } else {
        Ok(String::from_str(WIFI_DOWN))
    }
}

} // verus!
