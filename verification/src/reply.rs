//! What a request is answered, other than with data of its own kind.

use vstd::prelude::*;

verus! {

/// A request is refused: the status of the response and its text.
#[derive(Debug)]
pub struct Refusal {
    pub status: u16,
    pub message: String,
}

/// A refusal, with its text as a sequence of characters.
pub struct RefusalView {
    pub status: u16,
    pub message: Seq<char>,
}

impl View for Refusal {
    type V = RefusalView;

    open spec fn view(&self) -> RefusalView {
        RefusalView { status: self.status, message: self.message@ }
    }
}

/// There is nothing of the kind asked for.
pub const NOT_FOUND: u16 = 404;

/// The request cannot be understood.
pub const BAD_REQUEST: u16 = 400;

/// The request does not fit the state that the browser is in.
pub const CONFLICT: u16 = 409;

/// The request failed for a reason of the browser's own.
pub const INTERNAL_ERROR: u16 = 500;

impl Refusal {
    /// A refusal with a status and a text.
    pub fn new(status: u16, message: &str) -> (r: Self)
        ensures
            r@ == (RefusalView { status, message: message@ }),
    {
        Refusal { status, message: message.to_owned() }
    }
}

/// A refusal that is sent as JSON.
#[derive(Debug)]
pub struct JsonError {
    pub status: u16,
    pub ok: bool,
    pub error: String,
}

/// The refusal that is sent as JSON: a bad request, not well, and why.
pub open spec fn is_json_error(r: JsonError, error: Seq<char>) -> bool {
    r.status == BAD_REQUEST && !r.ok && r.error@ == error
}

/// A refusal that is sent as JSON, with its reason.
pub fn json_err(msg: String) -> (r: JsonError)
    ensures
        is_json_error(r, msg@),
{
    JsonError { status: BAD_REQUEST, ok: false, error: msg }
}

/// A file that is sent: its type, how long it may be kept, and what it holds.
#[derive(Debug)]
pub struct FileReply {
    pub content_type: String,
    pub cache_control: String,
    pub body: Vec<u8>,
}

/// A file in a folder that lies directly in the opened one. `dir` is the folder's name and
/// `name` the file's.
#[derive(Debug)]
pub struct Place {
    pub dir: String,
    pub name: String,
}

/// A place, with its names as sequences of characters.
pub struct PlaceView {
    pub dir: Seq<char>,
    pub name: Seq<char>,
}

impl View for Place {
    type V = PlaceView;

    open spec fn view(&self) -> PlaceView {
        PlaceView { dir: self.dir@, name: self.name@ }
    }
}

impl Place {
    /// The file `name` in the folder `dir`.
    pub fn new(dir: &str, name: &str) -> (r: Self)
        ensures
            r@ == (PlaceView { dir: dir@, name: name@ }),
    {
        Place { dir: dir.to_owned(), name: name.to_owned() }
    }
}

} // verus!
