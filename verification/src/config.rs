//! The explicit configuration of a run. The binary reads the process
//! environment once at startup and hands the values in as plain options;
//! everything decided about them — which are required, and how the
//! configuration directory and task-file paths are formed — is here.

use vstd::prelude::*;
use vstd::string::StringExecFns;

use crate::error::Error;
use crate::types::TaskKind;

verus! {

/// The values a run needs: the three credentials every remote request
/// carries, and the database connection string of the durable store.
pub struct Config {
    pub user_id: String,
    pub api_token: String,
    pub xclient: String,
    pub postgres_url: String,
}

/// Check that every required configuration value is present. Succeeds
/// exactly when all four are; any absent value is a missing configuration.
pub fn assert_service_installed(
    user_id: &Option<String>,
    api_token: &Option<String>,
    xclient: &Option<String>,
    postgres_url: &Option<String>,
) -> (r: Result<(), Error>)
    ensures
        (r is Ok) == (user_id is Some && api_token is Some && xclient is Some
            && postgres_url is Some),
        r matches Err(e) ==> e is ConfigurationMissing,
{
    match (user_id, api_token, xclient, postgres_url) {
        (Some(_), Some(_), Some(_), Some(_)) => Ok(()),
        _ => Err(Error::ConfigurationMissing),
    }
}

/// Build the configuration directory path. A sudo invocation wins: the
/// directory lives under the invoking user's home; otherwise the `HOME`
/// value is used; with neither available the configuration is missing.
pub fn build_config_path(sudo_user: &Option<String>, home: &Option<String>) -> (r: Result<
    String,
    Error,
>)
    ensures
        sudo_user matches Some(u) ==> (r matches Ok(p) && p@ == "/home/"@ + u@
            + "/.config/habitui"@),
        sudo_user is None ==> (home matches Some(h) ==> (r matches Ok(p) && p@ == h@
            + "/.config/habitui"@)),
        sudo_user is None && home is None ==> (r matches Err(e) && e is ConfigurationMissing),
{
    match (sudo_user, home) {
        (Some(u), _) => {
            let mut s = String::from_str("/home/");
            s.append(u.as_str());
            s.append("/.config/habitui");
            Ok(s)
        },
        (None, Some(h)) => {
            let mut s = h.clone();
            s.append("/.config/habitui");
            Ok(s)
        },
        (None, None) => Err(Error::ConfigurationMissing),
    }
}

/// The file a collection kind is kept in under the configuration directory:
/// the task file for the open todos, its sibling for the completed ones.
pub fn task_file_path(config_dir: &str, kind: TaskKind) -> (r: String)
    ensures
        kind is Todos ==> r@ == config_dir@ + "/habitica_tasks.json"@,
        kind is CompletedTodos ==> r@ == config_dir@ + "/habitica_completed.json"@,
{
    let mut s = config_dir.to_owned();
    match kind {
        TaskKind::Todos => s.append("/habitica_tasks.json"),
        TaskKind::CompletedTodos => s.append("/habitica_completed.json"),
    }
    s
}

/// The path of the local task file under the configuration directory.
pub fn get_json_path(config_dir: &str) -> (r: String)
    ensures
        r@ == config_dir@ + "/habitica_tasks.json"@,
{
    task_file_path(config_dir, TaskKind::Todos)
}

} // verus!
