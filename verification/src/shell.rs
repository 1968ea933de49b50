//! Which shell to run where no program was asked for.

use vstd::prelude::*;
use vstd::string::StringExecFns;

verus! {

/// What the password database says of the user's shell.
#[derive(Debug, PartialEq, Eq)]
pub enum PasswdShell {
    /// The database has no entry for the user.
    NoEntry,
    /// The shell that the entry names.
    Shell(String),
    /// The entry names a shell, in bytes that are no text.
    NotText,
}

/// The user's shell could not be made out.
#[derive(Clone, Copy, Debug, PartialEq, Eq, Structural)]
pub struct ShellUnresolved {}

/// Determine which shell to run.
/// We take the contents of the `SHELL` variable first, then
/// fall back to looking it up from the password database, and to `/bin/sh`
/// where the database does not know the user.
pub fn get_shell(env_shell: Option<String>, passwd: PasswdShell) -> (r: Result<
    String,
    ShellUnresolved,
>)
    ensures
        match env_shell {
            Some(shell) => r matches Ok(got) && got@ == shell@,
            None => match passwd {
                PasswdShell::NoEntry => r matches Ok(got) && got@ == "/bin/sh"@,
                PasswdShell::Shell(shell) => r matches Ok(got) && got@ == shell@,
                PasswdShell::NotText => r is Err,
            },
        },
{
    match env_shell {
        Some(shell) => Ok(shell),
        None => match passwd {
            PasswdShell::NoEntry => Ok(String::from_str("/bin/sh")),
            PasswdShell::Shell(shell) => Ok(shell),
            PasswdShell::NotText => Err(ShellUnresolved {  }),
        },
    }
}

/// The shell to run on Windows: what the `ComSpec` variable names, else
/// `cmd.exe`.
pub fn get_shell_windows(comspec: Option<String>) -> (r: String)
    ensures
        r@ == match comspec {
            Some(shell) => shell@,
            None => "cmd.exe"@,
        },
{
    match comspec {
        Some(shell) => shell,
        None => String::from_str("cmd.exe"),
    }
}

} // verus!
