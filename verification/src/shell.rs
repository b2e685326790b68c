//! Shell functions that install an alias for the picker.
use vstd::prelude::*;
use crate::text::{replace_all, replaced, str_eq};

verus! {

/// A shell for which an alias can be written.
#[derive(Debug, Clone, Copy, PartialEq, Eq)]
pub enum Shell {
    Zsh,
    Bash,
    Fish,
    Cmd,
    Powershell,
}

/// The word in each template that stands for the alias's name.
pub const ALIAS_PLACEHOLDER: &'static str = "SAVEPATH_ALIAS_PLACEHOLDER";

/// The alias function for zsh.
pub const ZSH: &'static str = "SAVEPATH_ALIAS_PLACEHOLDER() {{\n    SAP_CMD=$(\n        savepathcmd $@\n    ) && eval $SAP_CMD\n}}";

/// The alias function for bash.
pub const BASH: &'static str = "function SAVEPATH_ALIAS_PLACEHOLDER () {\n    SAP_CMD=$(\n        savepathcmd $@\n    ) && eval $SAP_CMD; \n}";

/// The alias function for fish (installed with `| source`).
pub const FISH: &'static str = "function SAVEPATH_ALIAS_PLACEHOLDER\n    savepathcmd $argv | source\nend\n";

/// The alias script for the Windows command prompt.
pub const CMD: &'static str = "@echo off \nsavepathcmd !*& | source /C";

/// The alias function for PowerShell.
pub const POWERSHELL: &'static str = "function SAVEPATH_ALIAS_PLACEHOLDER { \nsavepathcmd $args | source\n}";

/// The template of the alias for `shell`.
pub open spec fn shell_template(shell: Shell) -> Seq<char> {
    match shell {
        Shell::Zsh => ZSH@,
        Shell::Bash => BASH@,
        Shell::Fish => FISH@,
        Shell::Cmd => CMD@,
        Shell::Powershell => POWERSHELL@,
    }
}

/// The template of the alias for `shell`.
pub fn get_shell_template(shell: Shell) -> (t: &'static str)
    ensures
        t@ == shell_template(shell),
{
    match shell {
        Shell::Zsh => ZSH,
        Shell::Bash => BASH,
        Shell::Fish => FISH,
        Shell::Cmd => CMD,
        Shell::Powershell => POWERSHELL,
    }
}

/// Name for what `str::to_lowercase` returns for a string: its characters
/// mapped to lowercase by the Unicode rules of the standard library.
pub uninterp spec fn lowercase(s: Seq<char>) -> Seq<char>;

/// Calls `str::to_lowercase`. Its contract claims only that the result is
/// `lowercase(s)`, a fixed function of the characters of `s`.
#[verifier::external_body]
fn to_lowercase(s: &str) -> (r: String)
    ensures
        r@ == lowercase(s@),
{
    s.to_lowercase()
}

/// The shell that an already lowercased name stands for: `zsh`, `bash` or
/// `fish`.
pub open spec fn shell_named(name: Seq<char>) -> Option<Shell> {
    if name == "zsh"@ {
        Some(Shell::Zsh)
    } else if name == "bash"@ {
        Some(Shell::Bash)
    } else if name == "fish"@ {
        Some(Shell::Fish)
    } else {
        None
    }
}

/// The shell that the lowercased name `name` stands for.
pub fn shell_from_lowercase(name: &str) -> (r: Option<Shell>)
    ensures
        r == shell_named(name@),
{
    if str_eq(name, "zsh") {
        Some(Shell::Zsh)
    } else if str_eq(name, "bash") {
        Some(Shell::Bash)
    } else if str_eq(name, "fish") {
        Some(Shell::Fish)
    } else {
        None
    }
}

/// The shell that `s` names, in any case.
pub fn shell_from_str(s: &str) -> (r: Option<Shell>)
    ensures
        r == shell_named(lowercase(s@)),
{
    let lower = to_lowercase(s);
    shell_from_lowercase(lower.as_str())
}

/// The shell an alias is written for: the one asked for, else bash.
pub open spec fn alias_shell(shell: Option<Shell>) -> Shell {
    match shell {
        Some(s) => s,
        None => Shell::Bash,
    }
}

/// The alias is written from the template of the shell asked for, or from
/// the bash template where none was asked for; each shell has its own
/// template.
pub proof fn lemma_alias_for_asked_shell(s: Shell)
    ensures
        alias_shell(Some(s)) == s,
        alias_shell(None) == Shell::Bash,
        shell_template(Shell::Zsh) == ZSH@,
        shell_template(Shell::Bash) == BASH@,
        shell_template(Shell::Fish) == FISH@,
        shell_template(Shell::Cmd) == CMD@,
        shell_template(Shell::Powershell) == POWERSHELL@,
        ZSH@ != BASH@,
        ZSH@ != FISH@,
        BASH@ != FISH@,
{
    reveal_strlit("SAVEPATH_ALIAS_PLACEHOLDER() {{\n    SAP_CMD=$(\n        savepathcmd $@\n    ) && eval $SAP_CMD\n}}");
    reveal_strlit("function SAVEPATH_ALIAS_PLACEHOLDER () {\n    SAP_CMD=$(\n        savepathcmd $@\n    ) && eval $SAP_CMD; \n}");
    reveal_strlit("function SAVEPATH_ALIAS_PLACEHOLDER\n    savepathcmd $argv | source\nend\n");
    assert(ZSH@[0] != BASH@[0]);
    assert(ZSH@[0] != FISH@[0]);
    assert(BASH@.len() != FISH@.len());
}

/// The alias script for `shell` (bash where none is given), with the alias
/// named `alias_name`.
pub fn alias_script(shell: Option<Shell>, alias_name: &str) -> (r: String)
    ensures
        r@ == replaced(shell_template(alias_shell(shell)), ALIAS_PLACEHOLDER@, alias_name@),
{
    let chosen = match shell {
        Some(s) => s,
        None => Shell::Bash,
    };
    proof {
        reveal_strlit("SAVEPATH_ALIAS_PLACEHOLDER");
    }
    replace_all(get_shell_template(chosen), ALIAS_PLACEHOLDER, alias_name)
}

} // verus!
