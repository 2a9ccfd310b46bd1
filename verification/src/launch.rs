//! How a shell is started so that it emits the markers: which arguments it
//! gets, and what is typed into it first.

use vstd::prelude::*;
use vstd::string::{StringExecFns, StringSliceAdditionalSpecFns};

verus! {

/// The shells that have an integration script.
#[derive(Debug, Clone, Copy, PartialEq, Eq, Structural)]
pub enum ShellKind {
    Bash,
    Zsh,
    Other,
}

/// Whether `text` ends with `suffix`.
pub open spec fn ends_with(text: Seq<u8>, suffix: Seq<u8>) -> bool {
    text.len() >= suffix.len() && text.subrange(text.len() - suffix.len(), text.len() as int)
        == suffix
}

/// The name `bash`.
pub open spec fn bash_name() -> Seq<u8> {
    seq![0x62u8, 0x61u8, 0x73u8, 0x68u8]
}

/// The name `zsh`.
pub open spec fn zsh_name() -> Seq<u8> {
    seq![0x7au8, 0x73u8, 0x68u8]
}

/// The kind of the shell at path `shell`, told by the end of the path.
pub open spec fn shell_kind_of(shell: Seq<u8>) -> ShellKind {
    if ends_with(shell, bash_name()) {
        ShellKind::Bash
    } else if ends_with(shell, zsh_name()) {
        ShellKind::Zsh
    } else {
        ShellKind::Other
    }
}

/// Tells the kind of a shell from its path.
pub fn shell_kind(shell: &str) -> (kind: ShellKind)
    ensures
        kind == shell_kind_of(shell.spec_bytes()),
{
    let path = shell.as_bytes();
    let n = path.len();
    if n >= 4 && path[n - 4] == 0x62 && path[n - 3] == 0x61 && path[n - 2] == 0x73 && path[n - 1]
        == 0x68 {
        assert(path@.subrange(n - 4, n as int) =~= bash_name());
        ShellKind::Bash
    } else {
        if n >= 3 && path[n - 3] == 0x7a && path[n - 2] == 0x73 && path[n - 1] == 0x68 {
            assert(path@.subrange(n - 3, n as int) =~= zsh_name());
            ShellKind::Zsh
        } else {
            ShellKind::Other
        }
    }
}

/// A launch plan as a mathematical value.
pub struct LaunchPlanView {
    pub args: Seq<Seq<char>>,
    pub first_input: Seq<char>,
}

/// How to start a shell with its integration script.
#[derive(Debug, Clone, PartialEq, Eq)]
pub struct LaunchPlan {
    /// The arguments to start the shell with.
    pub args: Vec<String>,
    /// What to type into the shell once it runs; empty for nothing.
    pub first_input: String,
}

impl View for LaunchPlan {
    type V = LaunchPlanView;

    open spec fn view(&self) -> LaunchPlanView {
        LaunchPlanView {
            args: self.args@.map_values(|a: String| a@),
            first_input: self.first_input@,
        }
    }
}

/// The plan for a shell of this kind.
///
/// Bash reads its integration script as its startup file. Zsh has no such
/// argument: it is started plainly and told to source the script. Any other
/// shell is started plainly, without markers.
pub open spec fn plan_for(kind: ShellKind, bash_script: Seq<char>, zsh_script: Seq<char>)
    -> LaunchPlanView {
    match kind {
        ShellKind::Bash => LaunchPlanView {
            args: seq!["--rcfile"@, bash_script],
            first_input: Seq::empty(),
        },
        ShellKind::Zsh => LaunchPlanView {
            args: Seq::empty(),
            first_input: "source "@ + zsh_script + "\n"@,
        },
        ShellKind::Other => LaunchPlanView { args: Seq::empty(), first_input: Seq::empty() },
    }
}

/// Plans the start of the shell at path `shell`, given where the integration
/// scripts for bash and for zsh lie.
pub fn launch_plan(shell: &str, bash_script: &str, zsh_script: &str) -> (plan: LaunchPlan)
    ensures
        plan@ == plan_for(shell_kind_of(shell.spec_bytes()), bash_script@, zsh_script@),
{
    let mut args: Vec<String> = Vec::new();
    let mut first_input = String::new();
    match shell_kind(shell) {
        ShellKind::Bash => {
            args.push(String::from_str("--rcfile"));
            args.push(String::from_str(bash_script));
        },
        ShellKind::Zsh => {
            first_input.append("source ");
            first_input.append(zsh_script);
            first_input.append("\n");
        },
        ShellKind::Other => {},
    }
    let plan = LaunchPlan { args, first_input };
    assert(plan@.args =~= plan_for(
        shell_kind_of(shell.spec_bytes()),
        bash_script@,
        zsh_script@,
    ).args);
    plan
}

} // verus!
