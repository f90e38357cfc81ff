//! Device resolution: the name of a battery or network device, taken from a
//! fixed override or found by scanning a directory listing for a name prefix.

use crate::outcome::{Outcome, OutcomeView};
use crate::system::{Request, RequestView, Response, ResponseView, System, UNEXPECTED_RESPONSE};
use crate::text::starts_with;
use vstd::prelude::*;
use vstd::string::StringExecFns;

verus! {

/// One entry of a directory listing, as the scan sees it.
#[derive(Clone, Debug, PartialEq, Eq)]
pub enum DirEntry {
    /// An entry with this name.
    Name(String),
    /// An entry whose name is not text.
    NonText,
    /// The listing failed at this entry; the text describes the error.
    Failed(String),
}

/// The mathematical value of a [`DirEntry`].
pub enum DirEntryView {
    Name(Seq<char>),
    NonText,
    Failed(Seq<char>),
}

impl View for DirEntry {
    type V = DirEntryView;

    open spec fn view(&self) -> DirEntryView {
        match self {
            DirEntry::Name(name) => DirEntryView::Name(name@),
            DirEntry::NonText => DirEntryView::NonText,
            DirEntry::Failed(error) => DirEntryView::Failed(error@),
        }
    }
}

impl DeepView for DirEntry {
    type V = DirEntryView;

    open spec fn deep_view(&self) -> DirEntryView {
        self@
    }
}

/// Whether the scan stops at `entry`: its name begins with `prefix`, or the
/// listing failed there.
pub open spec fn stops_scan(entry: DirEntryView, prefix: Seq<char>) -> bool {
    match entry {
        DirEntryView::Name(name) => prefix.is_prefix_of(name),
        DirEntryView::NonText => false,
        DirEntryView::Failed(_) => true,
    }
}

/// The result of scanning `entries` in order for a name that begins with
/// `prefix`: the first such name; the error of a failed entry that comes
/// before any such name; `Ok(None)` if there is neither. Entries whose names
/// are not text never match.
pub open spec fn scan(entries: Seq<DirEntryView>, prefix: Seq<char>) -> Result<
    Option<Seq<char>>,
    Seq<char>,
>
    decreases entries.len(),
{
    if entries.len() == 0 {
        Ok(None)
    } else {
        match entries.first() {
            DirEntryView::Name(name) if prefix.is_prefix_of(name) => Ok(Some(name)),
            DirEntryView::Failed(error) => Err(error),
            _ => scan(entries.drop_first(), prefix),
        }
    }
}

/// Scans a directory listing for the first name that begins with `prefix`.
pub fn find_path_with_prefix(entries: &Vec<DirEntry>, prefix: &str) -> (r: Result<
    Option<String>,
    String,
>)
    ensures
        match scan(entries.deep_view(), prefix@) {
            Ok(Some(name)) => r matches Ok(Some(found)) && found@ == name,
            Ok(None) => r matches Ok(None),
            Err(error) => r matches Err(e) && e@ == error,
        },
{
    let mut i: usize = 0;
    assert(entries.deep_view().skip(0) =~= entries.deep_view());
    while i < entries.len()
        invariant
            i <= entries.len(),
            scan(entries.deep_view().skip(i as int), prefix@) == scan(
                entries.deep_view(),
                prefix@,
            ),
        decreases entries.len() - i,
    {
        assert(entries.deep_view().skip(i as int).drop_first() =~= entries.deep_view().skip(
            i + 1,
        ));
        match &entries[i] {
            DirEntry::Name(name) => {
                if starts_with(name.as_str(), prefix) {
                    return Ok(Some(name.clone()));
                }
            },
            DirEntry::NonText => {},
            DirEntry::Failed(error) => {
                return Err(error.clone());
            },
        }
        i = i + 1;
    }
    Ok(None)
}

/// The scan gives what it finds at the first entry at which it stops, and
/// nothing if it stops at none: a name is found only at an entry that no
/// match and no failure comes before.
pub proof fn lemma_scan_first(entries: Seq<DirEntryView>, prefix: Seq<char>)
    ensures
        match scan(entries, prefix) {
            Ok(Some(name)) => exists|i: int|
                0 <= i < entries.len() && #[trigger] entries[i] == DirEntryView::Name(name)
                    && prefix.is_prefix_of(name) && forall|j: int|
                    0 <= j < i ==> !stops_scan(#[trigger] entries[j], prefix),
            Ok(None) => forall|j: int|
                0 <= j < entries.len() ==> !stops_scan(#[trigger] entries[j], prefix),
            Err(error) => exists|i: int|
                0 <= i < entries.len() && #[trigger] entries[i] == DirEntryView::Failed(error)
                    && forall|j: int| 0 <= j < i ==> !stops_scan(#[trigger] entries[j], prefix),
        },
    decreases entries.len(),
{
    if entries.len() > 0 {
        let rest = entries.drop_first();
        if stops_scan(entries.first(), prefix) {
        } else {
            lemma_scan_first(rest, prefix);
            assert forall|j: int| 0 <= j < rest.len() implies rest[j] == entries[j + 1] by {}
            match scan(rest, prefix) {
                Ok(Some(name)) => {
                    let i = choose|i: int|
                        0 <= i < rest.len() && #[trigger] rest[i] == DirEntryView::Name(name)
                            && prefix.is_prefix_of(name) && forall|j: int|
                            0 <= j < i ==> !stops_scan(#[trigger] rest[j], prefix);
                    assert forall|j: int| 0 <= j < i + 1 implies !stops_scan(
                        #[trigger] entries[j],
                        prefix,
                    ) by {
                        if j > 0 {
                            assert(rest[j - 1] == entries[j]);
                        }
                    }
                },
                Ok(None) => {
                    assert forall|j: int| 0 <= j < entries.len() implies !stops_scan(
                        #[trigger] entries[j],
                        prefix,
                    ) by {
                        if j > 0 {
                            assert(rest[j - 1] == entries[j]);
                        }
                    }
                },
                Err(error) => {
                    let i = choose|i: int|
                        0 <= i < rest.len() && #[trigger] rest[i] == DirEntryView::Failed(error)
                            && forall|j: int|
                            0 <= j < i ==> !stops_scan(#[trigger] rest[j], prefix);
                    assert forall|j: int| 0 <= j < i + 1 implies !stops_scan(
                        #[trigger] entries[j],
                        prefix,
                    ) by {
                        if j > 0 {
                            assert(rest[j - 1] == entries[j]);
                        }
                    }
                },
            }
        }
    }
}

/// The request for the listing of `dir`.
pub fn listing_request(dir: &str) -> (request: Request)
    ensures
        request@ == RequestView::ListDir(dir@),
{
    Request::ListDir(String::from_str(dir))
}

/// The device that the answer to a listing request gives for `prefix`: the
/// first name with that prefix; nothing, if no name has it; a failure, if the
/// directory could not be listed.
pub open spec fn found(response: ResponseView, prefix: Seq<char>) -> OutcomeView {
    match response {
        ResponseView::Listing(entries) => match scan(entries, prefix) {
            Ok(Some(name)) => OutcomeView::Present(name),
            Ok(None) => OutcomeView::Absent,
            Err(error) => OutcomeView::Failed(error),
        },
        ResponseView::Failed(error) => OutcomeView::Failed(error),
        _ => OutcomeView::Failed(UNEXPECTED_RESPONSE@),
    }
}

/// Finds the device named by `prefix` in the answer to a listing request.
pub fn resolve(response: Response, prefix: &str) -> (device: Outcome)
    ensures
        device@ == found(response@, prefix@),
{
    match response {
        Response::Listing(entries) => match find_path_with_prefix(&entries, prefix) {
            Ok(Some(name)) => Outcome::Present(name),
            Ok(None) => Outcome::Absent,
            Err(error) => Outcome::Failed(error),
        },
        Response::Failed(error) => Outcome::Failed(error),
        _ => Outcome::Failed(String::from_str(UNEXPECTED_RESPONSE)),
    }
}

/// The device that the system `sys` gives: the fixed name, if one is
/// configured, and no directory is listed then; else what the listing of
/// `dir` gives for `prefix`.
pub open spec fn device(
    sys: System,
    fixed: Option<Seq<char>>,
    dir: Seq<char>,
    prefix: Seq<char>,
) -> OutcomeView {
    match fixed {
        Some(name) => OutcomeView::Present(name),
        None => found(sys(RequestView::ListDir(dir)), prefix),
    }
}

} // verus!
