use moon_actions::action::ActionStatus;
use moon_actions::bin::{bin, exit_code, BinExitCode, BinOutcome, BinTool};
use moon_actions::download::{
    arch_to_string, download_url, get_archive_file, get_archive_file_path, should_download, HostOs, NodeArch, ProtoError,
};
use moon_actions::language::typescript;
use moon_actions::setup::{needs_override_registration, setup_tool, setup_tool_finish, Runtime, SetupPlan};

#[test]
fn bin_prints_installed_tools() {
    match bin(BinTool::Node, true, false, Some("/tools/node/bin/node".into())) {
        BinOutcome::Print(p) => assert_eq!(p, "/tools/node/bin/node"),
        _ => panic!("expected a path"),
    }
    assert!(matches!(bin(BinTool::Node, true, true, None), BinOutcome::Exit(2)));
    assert!(matches!(bin(BinTool::Pnpm, true, false, Some("/p".into())), BinOutcome::Exit(1)));
    assert!(matches!(bin(BinTool::Yarn, true, true, None), BinOutcome::Exit(2)));
    assert!(matches!(bin(BinTool::Npm, true, true, Some("/npm".into())), BinOutcome::Print(_)));
    assert!(matches!(bin(BinTool::Node, false, true, Some("/n".into())), BinOutcome::MissingNode));
    assert!(matches!(bin(BinTool::Pnpm, false, false, None), BinOutcome::MissingNode));
    assert_eq!(exit_code(BinExitCode::NotConfigured), 1);
    assert_eq!(exit_code(BinExitCode::NotInstalled), 2);
}

#[test]
fn archive_names() {
    assert_eq!(get_archive_file_path("18.12.0", HostOs::Linux, NodeArch::X64).ok().as_deref(), Some("node-v18.12.0-linux-x64"));
    assert_eq!(get_archive_file("18.12.0", HostOs::MacOs, NodeArch::Arm64).ok().as_deref(), Some("node-v18.12.0-darwin-arm64.tar.gz"));
    assert_eq!(get_archive_file("18.12.0", HostOs::Windows, NodeArch::X86).ok().as_deref(), Some("node-v18.12.0-win-x86.zip"));
    assert_eq!(get_archive_file("16.0.0", HostOs::Linux, NodeArch::Arm).ok().as_deref(), Some("node-v16.0.0-linux-armv7l.tar.gz"));
    assert_eq!(arch_to_string(NodeArch::Ppc64), "ppc64le");
    assert_eq!(arch_to_string(NodeArch::S390x), "s390x");
}

#[test]
fn unsupported_architectures() {
    match get_archive_file_path("18.0.0", HostOs::MacOs, NodeArch::X86) {
        Err(ProtoError::UnsupportedArchitecture(tool, arch)) => {
            assert_eq!(tool, "Node.js");
            assert_eq!(arch, "x86");
        }
        Ok(_) => panic!("expected an error"),
    }
    assert!(get_archive_file("18.0.0", HostOs::Windows, NodeArch::Arm64).is_err());
    assert!(get_archive_file("18.0.0", HostOs::Linux, NodeArch::X86).is_err());
}

#[test]
fn download_addresses() {
    assert_eq!(
        download_url("18.12.0", HostOs::Linux, NodeArch::X64, None).ok().as_deref(),
        Some("https://nodejs.org/dist/v18.12.0/node-v18.12.0-linux-x64.tar.gz")
    );
    assert_eq!(
        download_url("18.12.0", HostOs::MacOs, NodeArch::X86, Some("https://mirror/node.tgz")).ok().as_deref(),
        Some("https://mirror/node.tgz")
    );
    assert!(download_url("18.12.0", HostOs::MacOs, NodeArch::X86, None).is_err());
    assert!(should_download(false));
    assert!(!should_download(true));
}

#[test]
fn setup_decisions() {
    assert!(matches!(setup_tool(&Runtime::System), SetupPlan::Skip));
    match setup_tool(&Runtime::Node("18.12.0".into())) {
        SetupPlan::SetupNode(v) => assert_eq!(v, "18.12.0"),
        SetupPlan::Skip => panic!("expected a setup"),
    }
    let node = SetupPlan::SetupNode("18.12.0".into());
    let done = setup_tool_finish(&node, 0, 77);
    assert_eq!(done.status, ActionStatus::Skipped);
    assert_eq!(done.last_version_check_time, Some(77));
    let done = setup_tool_finish(&node, 2, 78);
    assert_eq!(done.status, ActionStatus::Passed);
    assert_eq!(done.last_version_check_time, Some(78));
    let done = setup_tool_finish(&setup_tool(&Runtime::System), 3, 79);
    assert_eq!(done.status, ActionStatus::Skipped);
    assert_eq!(done.last_version_check_time, None);
    assert!(needs_override_registration(false));
    assert!(!needs_override_registration(true));
}

#[test]
fn typescript_language() {
    let ts = typescript();
    assert_eq!(ts.binary, "tsc");
    assert_eq!(ts.default_version, "4.8.4");
    assert_eq!(ts.file_exts, vec!["ts", "tsx", "cts", "mts", "d.ts", "d.cts", "d.mts"]);
    assert_eq!(ts.vendor_bins_dir, None);
    assert_eq!(ts.vendor_dir.as_deref(), Some("node_modules/@types"));
}
