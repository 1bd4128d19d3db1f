//! Starting with Windows.

use vstd::prelude::*;

use crate::text::{decode_lossy, join2, join3, lossy_text, texts, trim_text, trimmed};

verus! {

/// The key of the registry under which programs to start are listed.
pub open spec fn run_key() -> Seq<char> {
    "HKCU\\Software\\Microsoft\\Windows\\CurrentVersion\\Run"@
}

/// The command that starts the app without a window.
pub open spec fn launch(executable: Seq<char>) -> Seq<char> {
    "\""@ + executable + "\" --hidden"@
}

/// The command that starts the app without a window.
pub fn startup_command(executable: &str) -> (command: String)
    ensures
        command@ == launch(executable@),
{
    join3("\"", executable, "\" --hidden")
}

/// What the registry tool is asked to do.
#[derive(Debug)]
pub enum RegistryRequest {
    /// Tell whether the app is listed.
    Query,
    /// List the app under the path of its program.
    Enable(String),
    /// Take the app off the list.
    Disable,
}

/// The arguments of the registry tool.
pub open spec fn request_texts(request: RegistryRequest) -> Seq<Seq<char>> {
    match request {
        RegistryRequest::Query => seq!["query"@, run_key(), "/v"@, "CodexKeepWarm"@],
        RegistryRequest::Enable(executable) => seq![
            "add"@,
            run_key(),
            "/v"@,
            "CodexKeepWarm"@,
            "/t"@,
            "REG_SZ"@,
            "/d"@,
            launch(executable@),
            "/f"@,
        ],
        RegistryRequest::Disable => seq!["delete"@, run_key(), "/v"@, "CodexKeepWarm"@, "/f"@],
    }
}

/// The arguments of the registry tool.
pub fn registry_arguments(request: &RegistryRequest) -> (arguments: Vec<String>)
    ensures
        texts(arguments@) == request_texts(*request),
{
    let mut arguments: Vec<String> = Vec::new();
    let verb = match request {
        RegistryRequest::Query => "query",
        RegistryRequest::Enable(_) => "add",
        RegistryRequest::Disable => "delete",
    };
    arguments.push(verb.to_owned());
    arguments.push("HKCU\\Software\\Microsoft\\Windows\\CurrentVersion\\Run".to_owned());
    arguments.push("/v".to_owned());
    arguments.push("CodexKeepWarm".to_owned());
    match request {
        RegistryRequest::Query => {},
        RegistryRequest::Enable(executable) => {
            arguments.push("/t".to_owned());
            arguments.push("REG_SZ".to_owned());
            arguments.push("/d".to_owned());
            arguments.push(startup_command(executable.as_str()));
            arguments.push("/f".to_owned());
        },
        RegistryRequest::Disable => {
            arguments.push("/f".to_owned());
        },
    }
    assert(texts(arguments@) =~= request_texts(*request));
    arguments
}

/// Whether the app is listed, given whether the registry tool could be run and
/// has found it.
pub fn is_enabled(found: Option<bool>) -> (enabled: bool)
    ensures
        enabled == (found == Some(true)),
{
    match found {
        Some(found) => found,
        None => false,
    }
}

/// What is said when the registry tool failed, given what it said.
pub open spec fn update_problem(said: Seq<char>) -> Seq<char> {
    if trimmed(said).len() == 0 {
        "Could not update Windows startup."@
    } else {
        "Could not update Windows startup: "@ + trimmed(said)
    }
}

/// Describes why the registry tool failed, given what it said.
pub fn update_error(said: &str) -> (error: String)
    ensures
        error@ == update_problem(said@),
{
    let details = trim_text(said);
    if details.as_str().unicode_len() == 0 {
        "Could not update Windows startup.".to_owned()
    } else {
        join2("Could not update Windows startup: ", details.as_str())
    }
}

/// Passes a run of the registry tool that went well.
pub fn check_update(success: bool, stderr: &Vec<u8>) -> (result: Result<(), String>)
    ensures
        match result {
            Ok(_) => success,
            Err(error) => !success && error@ == update_problem(lossy_text(stderr@)),
        },
{
    if success {
        Ok(())
    } else {
        let said = decode_lossy(stderr);
        Err(update_error(said.as_str()))
    }
}

/// What is shown once starting with Windows was switched on or off.
pub fn startup_notice(enabled: bool) -> (message: &'static str)
    ensures
        message@ == if enabled {
            "Windows startup enabled. The app will open in the tray after sign-in."@
        } else {
            "Windows startup disabled."@
        },
{
    if enabled {
        "Windows startup enabled. The app will open in the tray after sign-in."
    } else {
        "Windows startup disabled."
    }
}

} // verus!
