//! Which built-in web file a request is answered with, and where the agent
//! keeps its state.
use vstd::prelude::*;
use crate::storage::{join, path_join, trim_leading_slashes, trim_slashes};
use crate::text::{has_prefix, own, starts_with};

verus! {

/// How a request outside the API routes is answered.
#[derive(Debug)]
pub enum WebTarget {
    /// An unmatched API path answers as an API does: a JSON 404. Falling
    /// through to the web app would hand a JSON client an HTML page.
    NoSuchEndpoint,
    /// The built-in file of this name, and the content type it is served
    /// with; when there is no such file, the web app's `index.html`, so that
    /// client-side routes survive a refresh.
    Asset(String, String),
}

pub open spec fn api_prefix() -> Seq<char> {
    seq!['/', 'a', 'p', 'i', '/']
}

pub open spec fn index_html() -> Seq<char> {
    "index.html"@
}

pub fn web_target(path: &str) -> (r: WebTarget)
    ensures
        if has_prefix(path@, api_prefix()) {
            r is NoSuchEndpoint
        } else {
            r matches WebTarget::Asset(name, mime) && name@ == (if trim_slashes(path@).len() == 0 {
                index_html()
            } else {
                trim_slashes(path@)
            }) && mime@ == guessed_mime(name@)
        },
{
    proof {
        reveal_strlit("/api/");
        assert("/api/"@ =~= api_prefix());
    }
    if starts_with(path, "/api/") {
        return WebTarget::NoSuchEndpoint;
    }
    let trimmed = trim_leading_slashes(path);
    let name = if trimmed.unicode_len() == 0 { own("index.html") } else { trimmed };
    let mime = mime_for(&name);
    WebTarget::Asset(name, mime)
}

/// The content type `mime_guess` picks for a file name.
pub uninterp spec fn guessed_mime(name: Seq<char>) -> Seq<char>;

/// Calls `mime_guess::from_path(name).first_or_octet_stream()`. Claimed: the
/// type is a fixed function of the name (its extension, looked up in the
/// crate's table; `application/octet-stream` when unknown).
#[verifier::external_body]
fn mime_for(name: &str) -> (r: String)
    ensures
        r@ == guessed_mime(name@),
{
    mime_guess::from_path(name).first_or_octet_stream().as_ref().to_string()
}

/// Where the agent keeps its database, certificate and art: an `altc` folder
/// inside Wolf's state folder (`HOST_APPS_STATE_FOLDER`, else `/etc/wolf`).
pub fn state_dir(host_apps_state_folder: Option<String>) -> (r: String)
    ensures
        r@ == path_join(
            match host_apps_state_folder { Some(f) => f@, None => "/etc/wolf"@ },
            "altc"@,
        ),
{
    let base = match host_apps_state_folder {
        Some(f) => f,
        None => own("/etc/wolf"),
    };
    join(&base, "altc")
}

/// Where Docker's socket is: `WOLF_DOCKER_SOCKET`, else the usual place.
pub fn docker_socket(wolf_docker_socket: Option<String>) -> (r: String)
    ensures
        r@ == (match wolf_docker_socket { Some(s) => s@, None => "/var/run/docker.sock"@ }),
{
    match wolf_docker_socket {
        Some(s) => s,
        None => own("/var/run/docker.sock"),
    }
}

} // verus!
