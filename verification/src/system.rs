//! The questions the pipeline puts to the operating system, and the answers
//! it takes back. Whoever runs the pipeline performs each request and hands
//! in the response; the library itself touches neither files nor processes.

use crate::resolver::{DirEntry, DirEntryView};
use vstd::prelude::*;

verus! {

/// One question to the operating system.
#[derive(Clone, Debug, PartialEq, Eq)]
pub enum Request {
    /// The entries of this directory, in the order the system lists them.
    ListDir(String),
    /// The whole content of this file, as text.
    ReadFile(String),
    /// The standard output of this program, run with these arguments.
    Run(String, Vec<String>),
}

/// The mathematical value of a [`Request`].
pub enum RequestView {
    ListDir(Seq<char>),
    ReadFile(Seq<char>),
    Run(Seq<char>, Seq<Seq<char>>),
}

impl View for Request {
    type V = RequestView;

    open spec fn view(&self) -> RequestView {
        match self {
            Request::ListDir(dir) => RequestView::ListDir(dir@),
            Request::ReadFile(path) => RequestView::ReadFile(path@),
            Request::Run(program, args) => RequestView::Run(program@, args.deep_view()),
        }
    }
}

/// The answer to a [`Request`].
#[derive(Clone, Debug, PartialEq, Eq)]
pub enum Response {
    /// The entries of the directory asked for.
    Listing(Vec<DirEntry>),
    /// The content of the file asked for.
    Contents(String),
    /// The bytes the program wrote to its standard output.
    Output(Vec<u8>),
    /// The request could not be carried out; the text describes the error.
    Failed(String),
}

/// The mathematical value of a [`Response`].
pub enum ResponseView {
    Listing(Seq<DirEntryView>),
    Contents(Seq<char>),
    Output(Seq<u8>),
    Failed(Seq<char>),
}

impl View for Response {
    type V = ResponseView;

    open spec fn view(&self) -> ResponseView {
        match self {
            Response::Listing(entries) => ResponseView::Listing(entries.deep_view()),
            Response::Contents(text) => ResponseView::Contents(text@),
            Response::Output(bytes) => ResponseView::Output(bytes@),
            Response::Failed(error) => ResponseView::Failed(error@),
        }
    }
}

/// The description of the failure that stands for an answer of the wrong
/// kind: a listing where a file's content was asked for, and the like.
pub const UNEXPECTED_RESPONSE: &'static str = "unexpected response";

/// The state of the operating system, as far as the pipeline can see it: the
/// answer it gives to each request.
pub type System = spec_fn(RequestView) -> ResponseView;

} // verus!
