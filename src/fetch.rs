//! One archive download: its request, its output file, and what is done with
//! the response.

use vstd::prelude::*;
use crate::hour::{Hour, to_ymdh};

verus! {

/// Base endpoint of the Papertrail API.
pub const PAPERTRAIL_URL: &'static str = "https://papertrailapp.com/api/v1";

/// Request header that carries the API token.
pub const TOKEN_HEADER: &'static str = "X-Papertrail-Token";

/// Extension of a stored archive (gzip-compressed tab-separated log lines).
pub const ARCHIVE_SUFFIX: &'static str = ".tsv.gz";

/// The download URL of the archive labelled `date`.
pub open spec fn url_of(date: Seq<char>) -> Seq<char> {
    PAPERTRAIL_URL@ + "/archives/"@ + date + "/download"@
}

/// The file, inside `output_dir`, that holds the archive labelled `date`.
pub open spec fn path_of(output_dir: Seq<char>, date: Seq<char>) -> Seq<char> {
    output_dir + "/"@ + date + ARCHIVE_SUFFIX@
}

/// Whether an HTTP status code is in the success class (2xx).
pub open spec fn success_status(code: u16) -> bool {
    200 <= code && code < 300
}

/// The download URL of the archive labelled `date` (`YYYY-MM-DD-HH`).
pub fn create_url(date: &String) -> (r: String)
    ensures
        r@ == url_of(date@),
{
    let mut url = String::from_str(PAPERTRAIL_URL);
    url.append("/archives/");
    url.append(date.as_str());
    url.append("/download");
    url
}

/// The path of the file that stores the archive of `date` in `output_dir`.
pub fn archive_path(output_dir: &String, date: &Hour) -> (r: String)
    requires
        date.wf(),
    ensures
        r@ == path_of(output_dir@, date.label()),
{
    let label = to_ymdh(date);
    let mut path = output_dir.clone();
    path.append("/");
    path.append(label.as_str());
    path.append(ARCHIVE_SUFFIX);
    path
}

/// Whether `code` is an HTTP success status.
pub fn is_success(code: u16) -> (r: bool)
    ensures
        r == success_status(code),
{
    200 <= code && code < 300
}

/// Everything needed to download the archive of one hour.
pub struct FetchPlan {
    pub date: Hour,
    /// URL to send the GET request to.
    pub url: String,
    /// Value of the token header, sent verbatim.
    pub token: String,
    /// File that receives the archive on success.
    pub path: String,
}

impl FetchPlan {
    /// The plan of the unit `date`, with the given token and output directory.
    pub open spec fn is_plan_for(self, token: Seq<char>, output_dir: Seq<char>, date: Hour) -> bool {
        &&& self.date == date
        &&& self.url@ == url_of(date.label())
        &&& self.token@ == token
        &&& self.path@ == path_of(output_dir, date.label())
    }
}

/// The request and target file for the unit `date`.
pub fn plan_fetch(token: &String, output_dir: &String, date: &Hour) -> (r: FetchPlan)
    requires
        date.wf(),
    ensures
        r.is_plan_for(token@, output_dir@, *date),
{
    let label = to_ymdh(date);
    FetchPlan {
        date: *date,
        url: create_url(&label),
        token: token.clone(),
        path: archive_path(output_dir, date),
    }
}

/// What to do with the response to a unit's request.
pub enum Action {
    /// Write `bytes` to the file `path`, replacing any earlier content.
    Write { path: String, bytes: Vec<u8> },
    /// Report the failure of the unit; nothing is written.
    Fail { status: u16, body: Vec<u8> },
}

/// The file written for a response: `Some((path, bytes))` on a success
/// status, `None` otherwise.
pub open spec fn write_of(path: Seq<char>, status: u16, body: Seq<u8>) -> Option<(Seq<char>, Seq<u8>)> {
    if success_status(status) {
        Some((path, body))
    } else {
        None
    }
}

impl Action {
    /// The file that this action writes, if any.
    pub open spec fn written(self) -> Option<(Seq<char>, Seq<u8>)> {
        match self {
            Action::Write { path, bytes } => Some((path@, bytes@)),
            Action::Fail { .. } => None,
        }
    }
}

/// Decides what to do with a response of status `status` and body `body` to
/// the request of `plan`: a success status stores the whole body in the
/// unit's file, any other status is a failure of this unit alone, carrying
/// the server's diagnostic body.
pub fn respond(plan: &FetchPlan, status: u16, body: Vec<u8>) -> (r: Action)
    ensures
        r.written() == write_of(plan.path@, status, body@),
        r matches Action::Fail { status: s, body: b } ==> s == status && b@ == body@,
{
    if is_success(status) {
        Action::Write { path: plan.path.clone(), bytes: body }
    } else {
        Action::Fail { status, body }
    }
}

} // verus!
