//! The source reader: how the manual viewer is invoked and what its outcome
//! means. Running the viewer is the caller's part.

use crate::text::{decode_lenient, lenient_text, strict_text};
use vstd::prelude::*;
use vstd::string::StringExecFns;
use vstd::utf8::{decode_utf8, valid_utf8};

verus! {

/// One variable that is set in the viewer's environment.
#[derive(Debug)]
pub struct Setting {
    pub name: String,
    pub value: String,
}

/// One environment setting, as a mathematical value.
pub struct SettingView {
    pub name: Seq<char>,
    pub value: Seq<char>,
}

impl View for Setting {
    type V = SettingView;

    open spec fn view(&self) -> SettingView {
        SettingView { name: self.name@, value: self.value@ }
    }
}

/// How the manual viewer is to be run.
#[derive(Debug)]
pub struct ViewerCommand {
    /// The executable.
    pub program: String,
    /// The positional arguments, in order.
    pub arguments: Vec<String>,
    /// The variables to set in the viewer's environment.
    pub environment: Vec<Setting>,
}

/// The positional arguments for a manual entry: the section, where one is
/// given, then the command.
pub open spec fn viewer_arguments(command: Seq<char>, section: Option<Seq<char>>) -> Seq<
    Seq<char>,
> {
    match section {
        Some(section) => seq![section, command],
        None => seq![command],
    }
}

/// The environment of the viewer: no pager, and a UTF-8 locale without
/// colour or control codes.
pub open spec fn viewer_environment() -> Seq<SettingView> {
    seq![
        SettingView { name: "MANPAGER"@, value: "cat"@ },
        SettingView { name: "LC_ALL"@, value: "C.UTF-8"@ },
        SettingView { name: "LANG"@, value: "C.UTF-8"@ },
    ]
}

/// The texts of a list of strings.
pub open spec fn texts_of(strings: Seq<String>) -> Seq<Seq<char>> {
    Seq::new(strings.len(), |i: int| strings[i]@)
}

/// The views of a list of settings.
pub open spec fn settings_of(settings: Seq<Setting>) -> Seq<SettingView> {
    Seq::new(settings.len(), |i: int| settings[i]@)
}

/// The invocation that fetches the manual entry of `command`, in `section`
/// where one is given.
pub fn viewer_command(command: &str, section: Option<&str>) -> (invocation: ViewerCommand)
    ensures
        invocation.program@ == "man"@,
        texts_of(invocation.arguments@) == viewer_arguments(
            command@,
            match section {
                Some(section) => Some(section@),
                None => None,
            },
        ),
        settings_of(invocation.environment@) == viewer_environment(),
{
    let mut arguments: Vec<String> = Vec::new();
    if let Some(section) = section {
        arguments.push(section.to_owned());
    }
    arguments.push(command.to_owned());
    let mut environment: Vec<Setting> = Vec::new();
    environment.push(Setting { name: "MANPAGER".to_owned(), value: "cat".to_owned() });
    environment.push(Setting { name: "LC_ALL".to_owned(), value: "C.UTF-8".to_owned() });
    environment.push(Setting { name: "LANG".to_owned(), value: "C.UTF-8".to_owned() });
    ViewerCommand { program: "man".to_owned(), arguments, environment }
}

/// How a run of the viewer ended.
#[derive(Debug)]
pub enum ViewerOutcome {
    /// The viewer could not be found or started.
    NotStarted,
    /// The viewer ran and exited.
    Exited {
        /// Whether it exited with status zero.
        success: bool,
        /// What it wrote to its standard output.
        stdout: Vec<u8>,
        /// What it wrote to its standard error.
        stderr: Vec<u8>,
    },
}

/// Why no manual text could be had.
#[derive(Debug)]
pub enum SourceError {
    /// The viewer could not be found or started.
    ToolUnavailable,
    /// The viewer found no entry for the command.
    NotFound {
        /// The command that was looked up.
        command: String,
        /// What the viewer wrote to its standard error.
        stderr: String,
    },
    /// The viewer's output is not UTF-8.
    EncodingError,
}

/// Turns the outcome of a run of the viewer for `command` into the manual
/// text or the failure that the outcome stands for.
pub fn read_outcome(command: &str, outcome: ViewerOutcome) -> (result: Result<String, SourceError>)
    ensures
        match outcome {
            ViewerOutcome::NotStarted => result matches Err(SourceError::ToolUnavailable),
            ViewerOutcome::Exited { success, stdout, stderr } => if !success {
                result matches Err(SourceError::NotFound { command: named, stderr: said })
                    && named@ == command@ && said@ == lenient_text(stderr@)
            } else if valid_utf8(stdout@) {
                result matches Ok(text) && text@ == decode_utf8(stdout@)
            } else {
                result matches Err(SourceError::EncodingError)
            },
        },
{
    match outcome {
        ViewerOutcome::NotStarted => Err(SourceError::ToolUnavailable),
        ViewerOutcome::Exited { success, stdout, stderr } => {
            if !success {
                Err(
                    SourceError::NotFound {
                        command: command.to_owned(),
                        stderr: decode_lenient(stderr.as_slice()),
                    },
                )
            } else {
                match strict_text(stdout) {
                    Some(text) => Ok(text),
                    None => Err(SourceError::EncodingError),
                }
            }
        },
    }
}

/// What a source failure says of itself.
pub open spec fn source_message(error: SourceError) -> Seq<char> {
    match error {
        SourceError::ToolUnavailable => "Failed to execute man command. Is 'man' installed?"@,
        SourceError::NotFound { command, stderr } => "Failed to fetch man page: "@ + stderr@,
        SourceError::EncodingError => "Man page output is not valid UTF-8"@,
    }
}

/// The diagnostic for a failure to read the manual entry of `command`: the
/// command, then what the failure says of itself.
pub open spec fn source_diagnostic(command: Seq<char>, error: SourceError) -> Seq<char> {
    "No manual entry for '"@ + command + "': "@ + source_message(error)
}

impl SourceError {
    /// What the failure says of itself.
    pub fn message(&self) -> (message: String)
        ensures
            message@ == source_message(*self),
    {
        match self {
            SourceError::ToolUnavailable => {
                "Failed to execute man command. Is 'man' installed?".to_owned()
            },
            SourceError::NotFound { command: _, stderr } => {
                let mut message = "Failed to fetch man page: ".to_owned();
                message.append(stderr.as_str());
                message
            },
            SourceError::EncodingError => "Man page output is not valid UTF-8".to_owned(),
        }
    }

    /// The one-line diagnostic for a failure to read the manual entry of
    /// `command`.
    pub fn diagnostic(&self, command: &str) -> (line: String)
        ensures
            line@ == source_diagnostic(command@, *self),
    {
        let mut line = "No manual entry for '".to_owned();
        line.append(command);
        line.append("': ");
        let message = self.message();
        line.append(message.as_str());
        line
    }
}

} // verus!
