//! Decisions of the desktop shell: the start-hidden flag, the command line that
//! starts the application at login, the tray menu and disk usage.
use vstd::prelude::*;

use crate::text::same_text;

verus! {

/// The command-line flag that starts the application with its window hidden.
pub open spec fn hidden_flag() -> Seq<char> {
    "--hidden"@
}

/// Whether the application was started with the `--hidden` flag among its
/// arguments.
pub fn starts_hidden(args: &Vec<String>) -> (r: bool)
    ensures
        r == exists|i: int| 0 <= i < args@.len() && #[trigger] args@[i]@ == hidden_flag(),
{
    let mut i: usize = 0;
    while i < args.len()
        invariant
            i <= args@.len(),
            forall|j: int| 0 <= j < i ==> #[trigger] args@[j]@ != hidden_flag(),
        decreases args@.len() - i,
    {
        if same_text(args[i].as_str(), "--hidden") {
            return true;
        }
        i += 1;
    }
    false
}

/// The command line registered to start the application at login: the quoted
/// executable path followed by `--hidden`.
pub fn launch_command(exe_path: &str) -> (r: String)
    ensures
        r@ == "\""@ + exe_path@ + "\" --hidden"@,
{
    let mut r = String::from_str("\"");
    r.append(exe_path);
    r.append("\" --hidden");
    r
}

/// What a tray menu entry asks for.
#[derive(Clone, Copy, Debug, PartialEq, Eq, Structural)]
pub enum TrayCommand {
    /// Show and focus the main window.
    ShowWindow,
    /// Leave the application.
    Quit,
    /// Nothing.
    Nothing,
}

/// The command for a tray menu entry, by the entry's id.
pub fn menu_action(id: &str) -> (c: TrayCommand)
    ensures
        c == if id@ == "show"@ {
            TrayCommand::ShowWindow
        } else if id@ == "quit"@ {
            TrayCommand::Quit
        } else {
            TrayCommand::Nothing
        },
{
    if same_text(id, "show") {
        TrayCommand::ShowWindow
    } else if same_text(id, "quit") {
        TrayCommand::Quit
    } else {
        TrayCommand::Nothing
    }
}

/// The bytes in use on a disk: its size less the space still available, or
/// zero where the host reports more available than the disk holds.
pub fn used_space(total: u64, available: u64) -> (r: u64)
    ensures
        r == if available <= total {
            total - available
        } else {
            0
        },
{
    if available <= total {
        total - available
    } else {
        0
    }
}

} // verus!
