//! The remote backend's request shapes and response rule. The binary owns
//! the HTTP client; this module forms the exact request URLs and headers
//! from the configuration, and interprets the returned status: a 2xx
//! response succeeds with its body, a 404 means the targeted task id is
//! unknown, and every other status is surfaced as a rejection carrying the
//! status and body.

use vstd::prelude::*;
use vstd::string::StringExecFns;

use crate::config::Config;
use crate::date::{push_digit, spec_digit_char};
use crate::error::Error;
use crate::types::{spec_kind_str, TaskId, TaskKind};

verus! {

/// The fixed base path of the remote service's API.
pub const HABITICA_API_ENDPOINT: &'static str = "https://habitica.com/api/v3";

/// The decimal digits of a nonnegative number, most significant first.
pub open spec fn spec_digits(n: int) -> Seq<char>
    decreases n,
{
    if n < 10 {
        seq![spec_digit_char(n)]
    } else {
        spec_digits(n / 10) + seq![spec_digit_char(n % 10)]
    }
}

/// Render a number in decimal.
pub fn usize_to_string(n: usize) -> (r: String)
    ensures
        r@ == spec_digits(n as int),
    decreases n,
{
    if n < 10 {
        let mut s = String::new();
        push_digit(&mut s, n as u8);
        proof {
            assert(s@ =~= spec_digits(n as int));
        }
        s
    } else {
        let mut s = usize_to_string(n / 10);
        push_digit(&mut s, (n % 10) as u8);
        proof {
            assert(s@ =~= spec_digits(n as int));
        }
        s
    }
}

/// The four headers every remote request carries: the user id, the access
/// token, the client identifier, and the JSON content type.
pub fn get_headers(cfg: &Config) -> (h: Vec<(String, String)>)
    ensures
        h@.len() == 4,
        h@[0].0@ == "x-api-user"@ && h@[0].1@ == cfg.user_id@,
        h@[1].0@ == "x-api-key"@ && h@[1].1@ == cfg.api_token@,
        h@[2].0@ == "x-client"@ && h@[2].1@ == cfg.xclient@,
        h@[3].0@ == "Content-Type"@ && h@[3].1@ == "application/json"@,
{
    let mut h: Vec<(String, String)> = Vec::new();
    h.push((String::from_str("x-api-user"), cfg.user_id.clone()));
    h.push((String::from_str("x-api-key"), cfg.api_token.clone()));
    h.push((String::from_str("x-client"), cfg.xclient.clone()));
    h.push((String::from_str("Content-Type"), String::from_str("application/json")));
    h
}

/// The URL tasks are created under and fetched from.
pub fn create_task_url() -> (r: String)
    ensures
        r@ == HABITICA_API_ENDPOINT@ + "/tasks/user"@,
{
    let mut s = HABITICA_API_ENDPOINT.to_owned();
    s.append("/tasks/user");
    s
}

/// The URL of one task: edits are put and removals are deleted here.
pub fn task_url(id: &TaskId) -> (r: String)
    ensures
        r@ == HABITICA_API_ENDPOINT@ + "/tasks/"@ + id@,
{
    let mut s = HABITICA_API_ENDPOINT.to_owned();
    s.append("/tasks/");
    s.append(id.as_str());
    s
}

/// The URL of one task's "score up" call, which completes it server-side.
pub fn score_up_url(id: &TaskId) -> (r: String)
    ensures
        r@ == HABITICA_API_ENDPOINT@ + "/tasks/"@ + id@ + "/score/up"@,
{
    let mut s = task_url(id);
    s.append("/score/up");
    s
}

/// The URL of one task's move call: the task is moved to the given index.
pub fn move_url(id: &TaskId, index: usize) -> (r: String)
    ensures
        r@ == HABITICA_API_ENDPOINT@ + "/tasks/"@ + id@ + "/move/to/"@ + spec_digits(index as int),
{
    let mut s = task_url(id);
    s.append("/move/to/");
    let digits = usize_to_string(index);
    s.append(digits.as_str());
    s
}

/// The URL a collection of the given kind is fetched from.
pub fn fetch_url(kind: TaskKind) -> (r: String)
    ensures
        r@ == HABITICA_API_ENDPOINT@ + "/tasks/user?type="@ + spec_kind_str(kind),
{
    let mut s = HABITICA_API_ENDPOINT.to_owned();
    s.append("/tasks/user?type=");
    s.append(kind.as_str());
    s
}

/// The judgment of a response to one of the five id-targeting calls (create,
/// edit, remove, complete, reorder): a 2xx status succeeds with the body, a
/// 404 means the targeted task id is unknown, and every other status is a
/// rejection carrying the status and body.
pub open spec fn spec_id_response(status: u16, body: String) -> Result<String, Error> {
    if 200 <= status < 300 {
        Ok(body)
    } else if status == 404 {
        Err(Error::NotFound)
    } else {
        Err(Error::RemoteRejected { status, body })
    }
}

/// The judgment of a response to a collection fetch, which targets no task
/// id: a 2xx status succeeds with the raw body, and every other status —
/// a 404 included — is a rejection carrying the status and body.
pub open spec fn spec_fetch_response(status: u16, body: String) -> Result<String, Error> {
    if 200 <= status < 300 {
        Ok(body)
    } else {
        Err(Error::RemoteRejected { status, body })
    }
}

/// Interpret a response to an id-targeting call by [`spec_id_response`].
pub fn interpret_response(status: u16, body: String) -> (r: Result<String, Error>)
    ensures
        r == spec_id_response(status, body),
{
    if 200 <= status && status < 300 {
        Ok(body)
    } else if status == 404 {
        Err(Error::NotFound)
    } else {
        Err(Error::RemoteRejected { status, body })
    }
}

/// Interpret a response to a collection fetch by [`spec_fetch_response`].
pub fn interpret_fetch_response(status: u16, body: String) -> (r: Result<String, Error>)
    ensures
        r == spec_fetch_response(status, body),
{
    if 200 <= status && status < 300 {
        Ok(body)
    } else {
        Err(Error::RemoteRejected { status, body })
    }
}

/// Law: an id-targeting call answered 404 — the remote service's answer to
/// an edit, removal, completion or reorder of a task id it does not hold —
/// surfaces `NotFound`, and one answered with any other non-2xx status
/// surfaces a rejection carrying exactly that status and body.
pub proof fn lemma_remote_unknown_id_not_found(status: u16, body: String)
    ensures
        status == 404 ==> spec_id_response(status, body) == Err::<String, Error>(Error::NotFound),
        !(200 <= status < 300) && status != 404 ==> spec_id_response(status, body) == Err::<
            String,
            Error,
        >(Error::RemoteRejected { status, body }),
{
}

/// Law: a collection fetch never reports an unknown task id — it targets
/// none. Every non-2xx answer, a 404 included, surfaces a rejection carrying
/// exactly the status and body, and every 2xx answer hands the raw body
/// through undecoded.
pub proof fn lemma_fetch_failure_carries_status_and_body(status: u16, body: String)
    ensures
        200 <= status < 300 ==> spec_fetch_response(status, body) == Ok::<String, Error>(body),
        !(200 <= status < 300) ==> spec_fetch_response(status, body) == Err::<String, Error>(
            Error::RemoteRejected { status, body },
        ),
        !(spec_fetch_response(status, body) matches Err(e) && e is NotFound),
{
}

} // verus!
