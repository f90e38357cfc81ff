//! The network provider: the name of the wireless network that the wireless
//! device is joined to, taken from the output of a device-info query.

use crate::outcome::{Outcome, OutcomeView};
use crate::resolver::device;
use crate::system::{Request, RequestView, Response, ResponseView, System, UNEXPECTED_RESPONSE};
use crate::text::{after_prefix, decode_text, lines, lines_of, strip_prefix, utf8_error_text};
use vstd::prelude::*;
use vstd::string::StringExecFns;
use vstd::utf8::{decode_utf8, valid_utf8};

verus! {

/// The directory that lists the network interfaces.
pub const NET_PATH: &'static str = "/sys/class/net";

/// The prefix by which a wireless interface is recognised.
pub const WIFI_PREFIX: &'static str = "wlp";

/// The program that is asked about the wireless device.
pub const QUERY_PROGRAM: &'static str = "iw";

/// What the line of the query's output that names the network begins with:
/// a tab, the marker and a space. The name follows it.
pub const SSID_LEAD: &'static str = "\tssid ";

/// The request for the device info of the wireless interface `device`.
pub open spec fn query_of(device: Seq<char>) -> RequestView {
    RequestView::Run(QUERY_PROGRAM@, seq!["dev"@, device, "info"@])
}

/// The request for the device info of the wireless interface `device`.
pub fn query_request(device: &str) -> (request: Request)
    ensures
        request@ == query_of(device@),
{
    let mut args: Vec<String> = Vec::new();
    args.push(String::from_str("dev"));
    args.push(String::from_str(device));
    args.push(String::from_str("info"));
    assert(args.deep_view() =~= seq!["dev"@, device@, "info"@]);
    Request::Run(String::from_str(QUERY_PROGRAM), args)
}

/// The network name on the first of `lines` that begins with the lead: what
/// follows the lead on that line. Nothing, if no line begins with the lead.
pub open spec fn ssid_in_lines(lines: Seq<Seq<char>>) -> Option<Seq<char>>
    decreases lines.len(),
{
    if lines.len() == 0 {
        None
    } else {
        match after_prefix(SSID_LEAD@, lines.first()) {
            Some(name) => Some(name),
            None => ssid_in_lines(lines.drop_first()),
        }
    }
}

/// The name comes from the first line that begins with the lead, and there
/// is no name where no line begins with it: a line that holds the marker
/// elsewhere names no network.
pub proof fn lemma_ssid_first_line(lines: Seq<Seq<char>>)
    ensures
        match ssid_in_lines(lines) {
            Some(name) => exists|i: int|
                0 <= i < lines.len() && SSID_LEAD@.is_prefix_of(#[trigger] lines[i]) && name
                    == lines[i].skip(SSID_LEAD@.len() as int) && forall|j: int|
                    0 <= j < i ==> !SSID_LEAD@.is_prefix_of(#[trigger] lines[j]),
            None => forall|j: int|
                0 <= j < lines.len() ==> !SSID_LEAD@.is_prefix_of(#[trigger] lines[j]),
        },
    decreases lines.len(),
{
    if lines.len() > 0 {
        let rest = lines.drop_first();
        if SSID_LEAD@.is_prefix_of(lines.first()) {
            assert(lines[0] == lines.first());
        } else {
            lemma_ssid_first_line(rest);
            assert forall|j: int| 0 <= j < rest.len() implies rest[j] == lines[j + 1] by {}
            match ssid_in_lines(rest) {
                Some(name) => {
                    let i = choose|i: int|
                        0 <= i < rest.len() && SSID_LEAD@.is_prefix_of(#[trigger] rest[i])
                            && name == rest[i].skip(SSID_LEAD@.len() as int) && forall|j: int|
                            0 <= j < i ==> !SSID_LEAD@.is_prefix_of(#[trigger] rest[j]);
                    assert(lines[i + 1] == rest[i]);
                    assert forall|j: int| 0 <= j < i + 1 implies !SSID_LEAD@.is_prefix_of(
                        #[trigger] lines[j],
                    ) by {
                        if j > 0 {
                            assert(rest[j - 1] == lines[j]);
                        }
                    }
                },
                None => {
                    assert forall|j: int| 0 <= j < lines.len() implies !SSID_LEAD@.is_prefix_of(
                        #[trigger] lines[j],
                    ) by {
                        if j > 0 {
                            assert(rest[j - 1] == lines[j]);
                        }
                    }
                },
            }
        }
    }
}

/// The network name that the query's output gives, if it gives one.
pub open spec fn ssid_in(output: Seq<char>) -> Option<Seq<char>> {
    ssid_in_lines(lines_of(output))
}

/// Extracts the network name from the output of the device-info query.
pub fn extract_ssid(output: &str) -> (name: Option<String>)
    ensures
        name.deep_view() == ssid_in(output@),
{
    let all = lines(output);
    let mut i: usize = 0;
    assert(all.deep_view().skip(0) =~= all.deep_view());
    while i < all.len()
        invariant
            i <= all.len(),
            all.deep_view() == lines_of(output@),
            ssid_in_lines(all.deep_view().skip(i as int)) == ssid_in_lines(all.deep_view()),
        decreases all.len() - i,
    {
        assert(all.deep_view().skip(i as int).drop_first() =~= all.deep_view().skip(i + 1));
        match strip_prefix(all[i], SSID_LEAD) {
            Some(name) => {
                return Some(String::from_str(name));
            },
            None => {},
        }
        i = i + 1;
    }
    None
}

/// What the answer to the device-info query says of the network: its name;
/// nothing, if the output names no network; a failure, if the query failed
/// or its output is not text.
pub open spec fn ssid_reading(response: ResponseView) -> OutcomeView {
    match response {
        ResponseView::Output(bytes) => if valid_utf8(bytes) {
            match ssid_in(decode_utf8(bytes)) {
                Some(name) => OutcomeView::Present(name),
                None => OutcomeView::Absent,
            }
        } else {
            OutcomeView::Failed(utf8_error_text(bytes))
        },
        ResponseView::Failed(error) => OutcomeView::Failed(error),
        _ => OutcomeView::Failed(UNEXPECTED_RESPONSE@),
    }
}

/// Reads the network name out of the answer to the device-info query.
pub fn ssid(response: Response) -> (outcome: Outcome)
    ensures
        outcome@ == ssid_reading(response@),
{
    match response {
        Response::Output(bytes) => match decode_text(bytes) {
            Ok(text) => match extract_ssid(text.as_str()) {
                Some(name) => Outcome::Present(name),
                None => Outcome::Absent,
            },
            Err(error) => Outcome::Failed(error),
        },
        Response::Failed(error) => Outcome::Failed(error),
        _ => Outcome::Failed(String::from_str(UNEXPECTED_RESPONSE)),
    }
}

/// The name of the wireless network in the system `sys`: nothing, if there
/// is no wireless device or the query names no network; a failure, if the
/// interfaces cannot be listed, the query fails or its output is not text.
pub open spec fn wifi_name(sys: System, fixed: Option<Seq<char>>) -> OutcomeView {
    match device(sys, fixed, NET_PATH@, WIFI_PREFIX@) {
        OutcomeView::Present(name) => ssid_reading(sys(query_of(name))),
        OutcomeView::Absent => OutcomeView::Absent,
        OutcomeView::Failed(error) => OutcomeView::Failed(error),
    }
}

} // verus!
