use crate::text::{split, split_on};
use vstd::prelude::*;

verus! {

/// Shells tried in order of preference: PowerShell 7+, PowerShell 5.1, cmd.
pub fn shell_candidates() -> (v: Vec<String>)
    ensures
        v@.len() == 3,
        v@[0]@ == "pwsh"@,
        v@[1]@ == "powershell"@,
        v@[2]@ == "cmd"@,
{
    let mut v: Vec<String> = Vec::new();
    v.push(String::from_str("pwsh"));
    v.push(String::from_str("powershell"));
    v.push(String::from_str("cmd"));
    v
}

/// The shell chosen when `on_path[i]` tells whether candidate `i` was found
/// on the PATH (entries past the first found one are never looked at).
pub open spec fn chosen_shell(on_path: Seq<bool>) -> Seq<char> {
    if on_path.len() > 0 && on_path[0] {
        "pwsh"@
    } else if on_path.len() > 1 && on_path[1] {
        "powershell"@
    } else {
        "cmd"@
    }
}

/// The shell chosen is always one of the candidates, and the most preferred
/// one, `pwsh`, is chosen whenever it is found.
pub proof fn lemma_chosen_shell_is_candidate(on_path: Seq<bool>)
    ensures
        chosen_shell(on_path) == "pwsh"@ || chosen_shell(on_path) == "powershell"@
            || chosen_shell(on_path) == "cmd"@,
        on_path.len() > 0 && on_path[0] ==> chosen_shell(on_path) == "pwsh"@,
{
}

/// Find the best available shell: the first candidate found on the PATH,
/// falling back to `cmd`.
pub fn default_shell(on_path: &Vec<bool>) -> (shell: String)
    ensures
        shell@ == chosen_shell(on_path@),
{
    let candidates = shell_candidates();
    let mut i: usize = 0;
    while i < 3 && i < on_path.len()
        invariant
            i <= 3,
            candidates@.len() == 3,
            candidates@[0]@ == "pwsh"@,
            candidates@[1]@ == "powershell"@,
            candidates@[2]@ == "cmd"@,
            forall|j: int| 0 <= j < i ==> !on_path@[j],
        decreases 3 - i,
    {
        if on_path[i] {
            return candidates[i].clone();
        }
        i = i + 1;
    }
    String::from_str("cmd")
}

/// Extensions tried when the PATHEXT variable cannot be read.
pub const DEFAULT_PATHEXT: &'static str = ".EXE;.CMD;.BAT";

/// The file names under which a command is looked for in each directory of
/// the PATH, in order: the bare name, then the name with each extension.
pub open spec fn command_file_names(name: Seq<char>, pathext: Seq<char>) -> Seq<Seq<char>> {
    seq![name] + split_on(pathext, ';').map_values(|ext: Seq<char>| name + ext)
}

/// The file names to try for `name`, given the PATHEXT variable (`None`
/// when it is unset or not valid Unicode).
pub fn candidate_file_names(name: &str, pathext: Option<&str>) -> (out: Vec<String>)
    ensures
        out@.len() == command_file_names(
            name@,
            match pathext {
                Some(p) => p@,
                None => DEFAULT_PATHEXT@,
            },
        ).len(),
        forall|k: int|
            0 <= k < out@.len() ==> #[trigger] out@[k]@ == command_file_names(
                name@,
                match pathext {
                    Some(p) => p@,
                    None => DEFAULT_PATHEXT@,
                },
            )[k],
{
    let exts_text: &str = match pathext {
        Some(p) => p,
        None => DEFAULT_PATHEXT,
    };
    let exts = split(exts_text, ';');
    let ghost want = command_file_names(name@, exts_text@);
    let mut out: Vec<String> = Vec::new();
    out.push(String::from_str(name));
    let mut i: usize = 0;
    while i < exts.len()
        invariant
            i <= exts@.len() == split_on(exts_text@, ';').len(),
            forall|k: int| 0 <= k < exts@.len() ==> #[trigger] exts@[k]@ == split_on(exts_text@, ';')[k],
            want == command_file_names(name@, exts_text@),
            out@.len() == i + 1,
            forall|k: int| 0 <= k < out@.len() ==> #[trigger] out@[k]@ == want[k],
        decreases exts@.len() - i,
    {
        let candidate = String::from_str(name).concat(exts[i].as_str());
        out.push(candidate);
        i = i + 1;
    }
    out
}

/// Console mode bit `ENABLE_PROCESSED_OUTPUT` of windows-sys (`0x1`).
#[verifier::external_body]
fn enable_processed_output() -> (bit: u32)
    ensures
        bit == 0x1,
{
    windows_sys::Win32::System::Console::ENABLE_PROCESSED_OUTPUT
}

/// Console mode bit `ENABLE_VIRTUAL_TERMINAL_PROCESSING` of windows-sys
/// (`0x4`).
#[verifier::external_body]
fn enable_virtual_terminal_processing_bit() -> (bit: u32)
    ensures
        bit == 0x4,
{
    windows_sys::Win32::System::Console::ENABLE_VIRTUAL_TERMINAL_PROCESSING
}

/// The console mode to set so that escape sequences written to stdout are
/// rendered: the current mode (`None` when it could not be read, in which
/// case nothing is set) with processed output and virtual terminal
/// processing switched on.
pub fn enable_virtual_terminal_processing(current: Option<u32>) -> (new_mode: Option<u32>)
    ensures
        new_mode == match current {
            Some(mode) => Some(mode | 0x1 | 0x4),
            None => None::<u32>,
        },
{
    match current {
        Some(mode) => Some(mode | enable_processed_output() | enable_virtual_terminal_processing_bit()),
        None => None,
    }
}

} // verus!
