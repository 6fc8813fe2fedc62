//! The `bin` command: print where a toolchain binary is, or exit with a code saying why not.
use vstd::prelude::*;

verus! {

/// The tools whose binary can be located.
#[derive(PartialEq, Eq, Structural, Clone, Copy, Debug)]
pub enum BinTool {
    Node,
    Npm,
    Pnpm,
    Yarn,
}

/// Why a binary could not be printed.
#[derive(PartialEq, Eq, Structural, Clone, Copy, Debug)]
pub enum BinExitCode {
    /// The package manager is not configured.
    NotConfigured,
    /// The tool is not installed.
    NotInstalled,
}

/// The process exit code for a reason.
pub fn exit_code(code: BinExitCode) -> (r: i32)
    ensures
        r == match code {
            BinExitCode::NotConfigured => 1i32,
            BinExitCode::NotInstalled => 2i32,
        },
{
    match code {
        BinExitCode::NotConfigured => 1,
        BinExitCode::NotInstalled => 2,
    }
}

/// What the command ends with.
pub enum BinOutcome {
    /// Print the binary's path.
    Print(String),
    /// Exit with the code.
    Exit(i32),
    /// Fail with the toolchain's error: it holds no Node.js tool.
    MissingNode,
}

/// Decides the command's outcome from whether the toolchain holds the Node.js tool (every
/// tool needs it), whether the package manager is configured (Node.js always is) and the
/// binary's path when the tool is installed.
pub fn bin(tool: BinTool, node_in_toolchain: bool, manager_configured: bool, bin_path: Option<String>) -> (r: BinOutcome)
    ensures
        !node_in_toolchain ==> r == BinOutcome::MissingNode,
        node_in_toolchain && tool != BinTool::Node && !manager_configured ==> r == BinOutcome::Exit(1),
        node_in_toolchain && (tool == BinTool::Node || manager_configured) ==> match bin_path {
            Some(p) => r matches BinOutcome::Print(q) && q@ == p@,
            None => r == BinOutcome::Exit(2),
        },
{
    if !node_in_toolchain {
        return BinOutcome::MissingNode;
    }
    if tool != BinTool::Node && !manager_configured {
        return BinOutcome::Exit(exit_code(BinExitCode::NotConfigured));
    }
    match bin_path {
        Some(p) => BinOutcome::Print(p),
        None => BinOutcome::Exit(exit_code(BinExitCode::NotInstalled)),
    }
}

}
