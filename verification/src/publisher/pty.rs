//! What is started in a pseudo-terminal.

use crate::text::{option_view, texts};
use vstd::prelude::*;

verus! {

/// Why a command could not be hosted.
#[derive(Debug)]
pub enum PtyError<S = String> {
    Open(S),
    Spawn { command: S, reason: S },
}

impl View for PtyError {
    type V = PtyError<Seq<char>>;

    open spec fn view(&self) -> PtyError<Seq<char>> {
        match self {
            PtyError::Open(reason) => PtyError::Open(reason@),
            PtyError::Spawn { command, reason } => PtyError::Spawn {
                command: command@,
                reason: reason@,
            },
        }
    }
}

impl PtyError {
    /// The error in words.
    pub fn to_text(&self) -> (words: String)
        ensures
            words@ == (match self@ {
                PtyError::Open(reason) => "could not open a pseudo-terminal: "@ + reason,
                PtyError::Spawn { command, reason } => "could not start "@ + command + ": "@
                    + reason,
            }),
    {
        match self {
            PtyError::Open(reason) => "could not open a pseudo-terminal: ".to_owned().concat(
                reason.as_str(),
            ),
            PtyError::Spawn { command, reason } => "could not start ".to_owned().concat(
                command.as_str(),
            ).concat(": ").concat(reason.as_str()),
        }
    }
}

/// The command to host when the user names none, program first. `configured` is the
/// shell that the environment names. Elsewhere than on Windows it is started as a login
/// shell, so that the session has the profile that the user expects.
pub fn default_shell(windows: bool, configured: &Option<String>) -> (argv: Vec<String>)
    ensures
        texts(argv@) == (if windows {
            seq![
                match option_view(*configured) {
                    Some(shell) => shell,
                    None => "cmd.exe"@,
                },
            ]
        } else {
            seq![
                match option_view(*configured) {
                    Some(shell) => shell,
                    None => "/bin/sh"@,
                },
                "-l"@,
            ]
        }),
{
    let mut argv: Vec<String> = Vec::new();
    match configured {
        Some(shell) => argv.push(shell.as_str().to_owned()),
        None => {
            if windows {
                argv.push("cmd.exe".to_owned());
            } else {
                argv.push("/bin/sh".to_owned());
            }
        },
    }
    if !windows {
        argv.push("-l".to_owned());
    }
    assert(texts(argv@) =~= (if windows {
        seq![argv@[0]@]
    } else {
        seq![argv@[0]@, "-l"@]
    }));
    argv
}

} // verus!
