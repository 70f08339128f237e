//! Reading the outcome of a shell command. Every command is a shell string,
//! the same way the make targets and the old scripts wrote them, so a pipe or
//! a quoted argument keeps working without being taken apart into an argv.
//! Starting the process is the caller's; what the outcome means is here.
use vstd::prelude::*;
use crate::text::{lossy_text, trim, trimmed, utf8_lossy};

verus! {

broadcast use vstd::string::group_string_axioms;

/// How a command string is handed to the shell: the program, its plain
/// arguments, and an argument passed on verbatim, without the quoting that
/// the platform's argument passing would add.
#[derive(Debug, PartialEq, Eq)]
pub struct ShellCommand {
    pub program: String,
    pub args: Vec<String>,
    pub raw: Option<String>,
}

/// The shell that runs `cmd`: `sh -c` elsewhere, `cmd /S /C` on Windows.
///
/// cmd does not read the `\"` that ordinary argument passing writes for a
/// quote inside an argument, so `git commit -m "release v1.2.3"` reached git
/// as 2 broken words. The string goes in untouched, in one outer pair of
/// quotes, and with `/S` cmd strips only that pair, so a command that itself
/// starts with a quote survives too.
pub fn shell(cmd: &str, windows: bool) -> (r: ShellCommand)
    ensures
        !windows ==> r.program@ == "sh"@ && r.args@.len() == 2 && r.args@[0]@ == "-c"@
            && r.args@[1]@ == cmd@ && r.raw is None,
        windows ==> ({
            &&& r.program@ == "cmd"@
            &&& r.args@.len() == 2
            &&& r.args@[0]@ == "/S"@
            &&& r.args@[1]@ == "/C"@
            &&& r.raw matches Some(raw) && raw@ == "\""@ + cmd@ + "\""@
        }),
{
    if windows {
        let mut raw = String::new();
        raw.append("\"");
        raw.append(cmd);
        raw.append("\"");
        ShellCommand {
            program: "cmd".to_owned(),
            args: vec!["/S".to_owned(), "/C".to_owned()],
            raw: Some(raw),
        }
    } else {
        ShellCommand {
            program: "sh".to_owned(),
            args: vec!["-c".to_owned(), cmd.to_owned()],
            raw: None,
        }
    }
}

/// Why a command counts as failed.
#[derive(Debug, PartialEq, Eq)]
pub enum RunError {
    /// The command exited non zero.
    Failed { cmd: String },
    /// A quiet command exited non zero; `output` is what it wrote, stdout then
    /// stderr, for the caller to show.
    FailedQuietly { cmd: String, output: String },
    /// A credentialed command exited non zero. The command is not named, it
    /// may spell out where its secret comes from.
    SecretFailed,
}

/// The outcome of a command that runs with the terminal: a non zero exit
/// fails it.
pub fn exit_outcome(cmd: &str, success: bool) -> (r: Result<(), RunError>)
    ensures
        success <==> r is Ok,
        r matches Err(e) ==> (e matches RunError::Failed { cmd: c } && c@ == cmd@),
{
    if success {
        Ok(())
    } else {
        Err(RunError::Failed { cmd: cmd.to_owned() })
    }
}

/// What a captured command printed: its stdout, decoded, without whitespace
/// around it. A non zero exit fails it.
pub fn captured(cmd: &str, success: bool, stdout: &[u8]) -> (r: Result<String, RunError>)
    ensures
        success <==> r is Ok,
        r matches Ok(text) ==> text@ == trimmed(utf8_lossy(stdout@)),
        r matches Err(e) ==> (e matches RunError::Failed { cmd: c } && c@ == cmd@),
{
    if !success {
        return Err(RunError::Failed { cmd: cmd.to_owned() });
    }
    let text = lossy_text(stdout);
    Ok(trim(text.as_str()))
}

/// The outcome of a command that reads a secret from the environment.
pub fn run_secret(success: bool) -> (r: Result<(), RunError>)
    ensures
        success <==> r is Ok,
        r matches Err(e) ==> e == RunError::SecretFailed,
{
    if success {
        Ok(())
    } else {
        Err(RunError::SecretFailed)
    }
}

/// What a probing command said, stdout then stderr, whatever its exit:
/// a non zero exit is a normal answer there. `None` for a command that could
/// not be started, which says nothing.
pub fn probe(output: Option<(&[u8], &[u8])>) -> (r: String)
    ensures
        output is None ==> r@ == Seq::<char>::empty(),
        output matches Some((out, err)) ==> r@ == utf8_lossy(out@) + utf8_lossy(err@),
{
    match output {
        None => String::new(),
        Some((out, err)) => {
            let mut text = lossy_text(out);
            let rest = lossy_text(err);
            text.append(rest.as_str());
            text
        },
    }
}

/// The outcome of a command run quietly, so that a parallel lane's output does
/// not mangle another's: its output, stdout then stderr, which a failure
/// carries for the caller to show.
pub fn run_quiet(cmd: &str, success: bool, stdout: &[u8], stderr: &[u8]) -> (r: Result<
    String,
    RunError,
>)
    ensures
        success <==> r is Ok,
        r matches Ok(text) ==> text@ == utf8_lossy(stdout@) + utf8_lossy(stderr@),
        r matches Err(e) ==> (e matches RunError::FailedQuietly { cmd: c, output } && c@ == cmd@
            && output@ == utf8_lossy(stdout@) + utf8_lossy(stderr@)),
{
    let text = probe(Some((stdout, stderr)));
    if success {
        Ok(text)
    } else {
        Err(RunError::FailedQuietly { cmd: cmd.to_owned(), output: text })
    }
}

} // verus!
