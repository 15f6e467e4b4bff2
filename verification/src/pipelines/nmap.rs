//! The network-scan built-in: the command line that runs the scanner with
//! raised privileges on each platform, and what the end of the process
//! means for the caller.

use crate::pipelines::DispatchError;
use crate::text::{join, joined, texts};
use vstd::prelude::*;
use vstd::string::*;

verus! {

/// The arguments of a network scan, as the node's configuration gives them.
#[derive(Debug)]
pub struct NmapArguments {
    pub arguments: Vec<String>,
}

/// The platform that the process runs on.
#[derive(Debug, Clone, Copy, PartialEq, Eq, Structural)]
pub enum Platform {
    Linux,
    MacOs,
    Windows,
    Other,
}

/// A program with its arguments.
#[derive(Debug)]
pub struct ProcessCommand {
    pub program: String,
    pub arguments: Vec<String>,
}

/// How an external process ended.
#[derive(Debug)]
pub enum ProcessOutcome {
    /// The process could not be started, for this reason.
    NotLaunched(String),
    /// The process ran and exited.
    Exited { success: bool },
}

/// The program that is started for a scan.
pub open spec fn nmap_program(platform: Platform) -> Seq<char> {
    match platform {
        Platform::Linux => "pkexec"@,
        Platform::MacOs => "osascript"@,
        Platform::Windows => "nmap"@,
        Platform::Other => "nmap"@,
    }
}

/// The script that asks macOS to run the scan as administrator.
pub open spec fn shell_script(arguments: Seq<Seq<char>>) -> Seq<char> {
    "do shell script \""@ + "nmap "@ + joined(arguments, " "@) + "\" with administrator privileges"@
}

/// The arguments that the program is started with.
pub open spec fn nmap_arguments(platform: Platform, arguments: Seq<Seq<char>>) -> Seq<Seq<char>> {
    match platform {
        Platform::Linux => seq!["nmap"@] + arguments,
        Platform::MacOs => seq!["-e"@, shell_script(arguments)],
        Platform::Windows => arguments,
        Platform::Other => Seq::empty(),
    }
}

/// The command line that runs the scanner with raised privileges. Linux
/// goes through `pkexec`, macOS through an administrator shell script, and
/// Windows starts the scanner itself. Elsewhere the scanner is started
/// without arguments.
pub fn elevated_nmap_command(platform: Platform, arguments: Vec<String>) -> (command: ProcessCommand)
    ensures
        command.program@ == nmap_program(platform),
        texts(command.arguments@) == nmap_arguments(platform, texts(arguments@)),
{
    match platform {
        Platform::Linux => {
            let mut all: Vec<String> = Vec::new();
            all.push("nmap".to_owned());
            let mut i: usize = 0;
            while i < arguments.len()
                invariant
                    i <= arguments@.len(),
                    texts(all@) == seq!["nmap"@] + texts(arguments@).take(i as int),
                decreases arguments@.len() - i,
            {
                let ghost before = all@;
                all.push(arguments[i].clone());
                proof {
                    assert(texts(all@) =~= texts(before).push(arguments@[i as int]@));
                    assert(texts(arguments@).take(i + 1) =~= texts(arguments@).take(i as int).push(
                        arguments@[i as int]@,
                    ));
                    assert(texts(all@) =~= seq!["nmap"@] + texts(arguments@).take(i + 1));
                }
                i += 1;
            }
            assert(texts(arguments@).take(i as int) == texts(arguments@));
            ProcessCommand { program: "pkexec".to_owned(), arguments: all }
        },
        Platform::MacOs => {
            let mut script: String = "do shell script \"".to_owned();
            script.append("nmap ");
            script.append(join(&arguments, " ").as_str());
            script.append("\" with administrator privileges");
            let mut all: Vec<String> = Vec::new();
            all.push("-e".to_owned());
            all.push(script);
            assert(texts(all@) =~= nmap_arguments(platform, texts(arguments@)));
            ProcessCommand { program: "osascript".to_owned(), arguments: all }
        },
        Platform::Windows => ProcessCommand { program: "nmap".to_owned(), arguments },
        Platform::Other => {
            let none: Vec<String> = Vec::new();
            assert(texts(none@) =~= nmap_arguments(platform, texts(arguments@)));
            ProcessCommand { program: "nmap".to_owned(), arguments: none }
        },
    }
}

/// What the end of the scanner process means for the caller: an exit with
/// success is success, and anything else is an external process failure.
pub fn nmap_result(outcome: ProcessOutcome) -> (result: Result<(), DispatchError>)
    ensures
        outcome matches ProcessOutcome::Exited { success: true } ==> result.is_ok(),
        outcome matches ProcessOutcome::Exited { success: false } ==> (result matches Err(
            DispatchError::ExternalProcessFailure(text),
        ) && text@ == "ExitStatus is not success"@),
        outcome matches ProcessOutcome::NotLaunched(reason) ==> (result matches Err(
            DispatchError::ExternalProcessFailure(text),
        ) && text@ == reason@),
{
    match outcome {
        ProcessOutcome::Exited { success } => {
            if success {
                Ok(())
            } else {
                Err(DispatchError::ExternalProcessFailure("ExitStatus is not success".to_owned()))
            }
        },
        ProcessOutcome::NotLaunched(reason) => Err(DispatchError::ExternalProcessFailure(reason)),
    }
}

} // verus!
