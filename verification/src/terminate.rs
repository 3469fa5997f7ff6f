//! Service terminator: invoked unconditionally at shutdown, so a kill
//! that found nothing to kill is success; only a kill command that could
//! not run at all is reported, and even that must not block exit.

use vstd::prelude::*;
use crate::launch::Platform;
use crate::textfmt::{chars_to_string, push_str_chars};

verus! {

/// How the platform's kill command fared at the caller's edge.
pub enum StopEvent {
    /// The command was spawned without waiting (name-pattern kill).
    Spawned,
    /// Spawning the command failed outright.
    SpawnFailed { detail: String },
    /// The command ran to completion, successfully or not.
    Completed { success: bool },
    /// Running the command to completion failed outright.
    ExecFailed { detail: String },
}

pub open spec fn arg_views(args: Seq<String>) -> Seq<Seq<char>> {
    args.map_values(|s: String| s@)
}

/// The kill command each platform issues: a name-pattern signal on macOS
/// and Linux, a forceful kill by image name on Windows.
pub fn stop_command(platform: Platform) -> (r: (String, Vec<String>))
    ensures
        platform == Platform::MacOs ==> r.0@ == "pkill"@ && arg_views(r.1@) == seq![
            "-f"@,
            "ollama"@,
        ],
        platform == Platform::Windows ==> r.0@ == "taskkill"@ && arg_views(r.1@) == seq![
            "/F"@,
            "/IM"@,
            "ollama.exe"@,
        ],
        platform == Platform::Linux ==> r.0@ == "pkill"@ && arg_views(r.1@) == seq![
            "-f"@,
            "ollama serve"@,
        ],
{
    match platform {
        Platform::MacOs => {
            let args = vec!["-f".to_owned(), "ollama".to_owned()];
            proof {
                assert(arg_views(args@) =~= seq!["-f"@, "ollama"@]);
            }
            ("pkill".to_owned(), args)
        },
        Platform::Windows => {
            let args = vec!["/F".to_owned(), "/IM".to_owned(), "ollama.exe".to_owned()];
            proof {
                assert(arg_views(args@) =~= seq!["/F"@, "/IM"@, "ollama.exe"@]);
            }
            ("taskkill".to_owned(), args)
        },
        Platform::Linux => {
            let args = vec!["-f".to_owned(), "ollama serve".to_owned()];
            proof {
                assert(arg_views(args@) =~= seq!["-f"@, "ollama serve"@]);
            }
            ("pkill".to_owned(), args)
        },
    }
}

/// What a shutdown reports for each platform and command outcome.  A
/// command that ran but matched no process still reports success; only
/// macOS and Windows surface a command that could not run, and Linux
/// swallows even that so application exit is never blocked.
pub open spec fn spec_stop_result(p: Platform, e: StopEvent) -> Result<Seq<char>, Seq<char>> {
    match p {
        Platform::MacOs => match e {
            StopEvent::Spawned => Ok("Ollama service stopped"@),
            StopEvent::Completed { .. } => Ok("Ollama service stopped"@),
            StopEvent::SpawnFailed { detail } => Err("Failed to stop Ollama: "@ + detail@),
            StopEvent::ExecFailed { detail } => Err("Failed to stop Ollama: "@ + detail@),
        },
        Platform::Windows => match e {
            StopEvent::Spawned => Ok("Ollama service stopped"@),
            StopEvent::Completed { success: true } => Ok("Ollama service stopped"@),
            StopEvent::Completed { success: false } => Ok(
                "Ollama stop attempted (may not have been running)"@,
            ),
            StopEvent::SpawnFailed { detail } => Err("Failed to stop Ollama: "@ + detail@),
            StopEvent::ExecFailed { detail } => Err("Failed to stop Ollama: "@ + detail@),
        },
        Platform::Linux => match e {
            StopEvent::Spawned => Ok("Ollama service stopped"@),
            StopEvent::Completed { success: true } => Ok("Ollama service stopped"@),
            StopEvent::Completed { success: false } => Ok(
                "Ollama service stopped (or not running)"@,
            ),
            StopEvent::SpawnFailed { .. } => Ok("Ollama stop attempted"@),
            StopEvent::ExecFailed { .. } => Ok("Ollama stop attempted"@),
        },
    }
}

/// Settle a shutdown attempt, exactly as `spec_stop_result` lays it out.
pub fn stop_outcome(platform: Platform, event: &StopEvent) -> (r: Result<String, String>)
    ensures
        r is Ok <==> spec_stop_result(platform, *event) is Ok,
        r matches Ok(m) ==> (spec_stop_result(platform, *event) matches Ok(v) && m@ == v),
        r matches Err(m) ==> (spec_stop_result(platform, *event) matches Err(v) && m@ == v),
{
    match platform {
        Platform::MacOs => match event {
            StopEvent::Spawned => Ok("Ollama service stopped".to_owned()),
            StopEvent::Completed { .. } => Ok("Ollama service stopped".to_owned()),
            StopEvent::SpawnFailed { detail } => Err(stop_failure(detail)),
            StopEvent::ExecFailed { detail } => Err(stop_failure(detail)),
        },
        Platform::Windows => match event {
            StopEvent::Spawned => Ok("Ollama service stopped".to_owned()),
            StopEvent::Completed { success } => {
                if *success {
                    Ok("Ollama service stopped".to_owned())
                } else {
                    Ok("Ollama stop attempted (may not have been running)".to_owned())
                }
            },
            StopEvent::SpawnFailed { detail } => Err(stop_failure(detail)),
            StopEvent::ExecFailed { detail } => Err(stop_failure(detail)),
        },
        Platform::Linux => match event {
            StopEvent::Spawned => Ok("Ollama service stopped".to_owned()),
            StopEvent::Completed { success } => {
                if *success {
                    Ok("Ollama service stopped".to_owned())
                } else {
                    Ok("Ollama service stopped (or not running)".to_owned())
                }
            },
            StopEvent::SpawnFailed { .. } => Ok("Ollama stop attempted".to_owned()),
            StopEvent::ExecFailed { .. } => Ok("Ollama stop attempted".to_owned()),
        },
    }
}

fn stop_failure(detail: &String) -> (r: String)
    ensures
        r@ == "Failed to stop Ollama: "@ + detail@,
{
    let mut out: Vec<char> = Vec::new();
    push_str_chars(&mut out, "Failed to stop Ollama: ");
    push_str_chars(&mut out, detail.as_str());
    proof {
        assert(out@ =~= "Failed to stop Ollama: "@ + detail@);
    }
    chars_to_string(&out)
}

} // verus!
