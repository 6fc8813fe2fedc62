//! Where the Node.js archive for a version, system and architecture is downloaded from.
use vstd::prelude::*;

verus! {

/// The operating systems Node.js archives are built for.
#[derive(PartialEq, Eq, Structural, Clone, Copy, Debug)]
pub enum HostOs {
    MacOs,
    Linux,
    Windows,
}

/// The processor architectures Node.js archives are named by.
#[derive(PartialEq, Eq, Structural, Clone, Copy, Debug)]
pub enum NodeArch {
    Arm,
    Arm64,
    Ppc64,
    S390x,
    X64,
    X86,
}

/// Why an archive could not be named.
#[derive(Debug)]
pub enum ProtoError {
    /// The tool and the architecture it is not built for.
    UnsupportedArchitecture(String, String),
}

/// The architecture as Node.js archives name it.
pub open spec fn arch_label(arch: NodeArch) -> Seq<char> {
    match arch {
        NodeArch::Arm => "armv7l"@,
        NodeArch::Arm64 => "arm64"@,
        NodeArch::Ppc64 => "ppc64le"@,
        NodeArch::S390x => "s390x"@,
        NodeArch::X64 => "x64"@,
        NodeArch::X86 => "x86"@,
    }
}

/// The system as Node.js archives name it.
pub open spec fn os_label(os: HostOs) -> Seq<char> {
    match os {
        HostOs::MacOs => "darwin"@,
        HostOs::Linux => "linux"@,
        HostOs::Windows => "win"@,
    }
}

/// Whether Node.js is built for the architecture on the system.
pub open spec fn supported(os: HostOs, arch: NodeArch) -> bool {
    match os {
        HostOs::MacOs => arch == NodeArch::X64 || arch == NodeArch::Arm64,
        HostOs::Linux => arch != NodeArch::X86,
        HostOs::Windows => arch == NodeArch::X64 || arch == NodeArch::X86,
    }
}

/// The extension of the archive on the system.
pub open spec fn archive_ext(os: HostOs) -> Seq<char> {
    if os == HostOs::Windows {
        "zip"@
    } else {
        "tar.gz"@
    }
}

/// The architecture as Node.js archives name it.
pub fn arch_to_string(arch: NodeArch) -> (r: String)
    ensures
        r@ == arch_label(arch),
{
    match arch {
        NodeArch::Arm => String::from_str("armv7l"),
        NodeArch::Arm64 => String::from_str("arm64"),
        NodeArch::Ppc64 => String::from_str("ppc64le"),
        NodeArch::S390x => String::from_str("s390x"),
        NodeArch::X64 => String::from_str("x64"),
        NodeArch::X86 => String::from_str("x86"),
    }
}

/// The archive name without extension, `node-v<version>-<system>-<arch>`, or an error
/// when Node.js is not built for the architecture on the system.
pub fn get_archive_file_path(version: &str, os: HostOs, arch: NodeArch) -> (r: Result<String, ProtoError>)
    ensures
        r is Ok <==> supported(os, arch),
        r is Ok <==> match os {
            HostOs::MacOs => arch == NodeArch::X64 || arch == NodeArch::Arm64,
            HostOs::Linux => arch == NodeArch::X64 || arch == NodeArch::Arm || arch == NodeArch::Arm64
                || arch == NodeArch::Ppc64 || arch == NodeArch::S390x,
            HostOs::Windows => arch == NodeArch::X64 || arch == NodeArch::X86,
        },
        r matches Ok(p) ==> p@ == "node-v"@ + version@ + "-"@ + os_label(os) + "-"@ + arch_label(arch),
        r matches Err(ProtoError::UnsupportedArchitecture(tool, a)) ==> tool@ == "Node.js"@ && a@ == arch_label(arch),
{
    let ok = match os {
        HostOs::MacOs => arch == NodeArch::X64 || arch == NodeArch::Arm64,
        HostOs::Linux => arch != NodeArch::X86,
        HostOs::Windows => arch == NodeArch::X64 || arch == NodeArch::X86,
    };
    if !ok {
        return Err(ProtoError::UnsupportedArchitecture(String::from_str("Node.js"), arch_to_string(arch)));
    }
    let mut p = String::from_str("node-v");
    p.append(version);
    p.append("-");
    match os {
        HostOs::MacOs => p.append("darwin"),
        HostOs::Linux => p.append("linux"),
        HostOs::Windows => p.append("win"),
    }
    p.append("-");
    let a = arch_to_string(arch);
    p.append(a.as_str());
    Ok(p)
}

/// The archive file name: its name and the system's archive extension.
pub fn get_archive_file(version: &str, os: HostOs, arch: NodeArch) -> (r: Result<String, ProtoError>)
    ensures
        r is Ok <==> supported(os, arch),
        r matches Ok(p) ==> p@ == "node-v"@ + version@ + "-"@ + os_label(os) + "-"@ + arch_label(arch) + "."@ + archive_ext(os),
        r matches Err(ProtoError::UnsupportedArchitecture(tool, a)) ==> tool@ == "Node.js"@ && a@ == arch_label(arch),
{
    let mut p = match get_archive_file_path(version, os, arch) {
        Ok(p) => p,
        Err(e) => {
            return Err(e);
        },
    };
    p.append(".");
    if os == HostOs::Windows {
        p.append("zip");
    } else {
        p.append("tar.gz");
    }
    Ok(p)
}

/// Where the archive is downloaded from: the given address, else the Node.js
/// distribution server's address for the version's archive.
pub fn download_url(version: &str, os: HostOs, arch: NodeArch, from_url: Option<&str>) -> (r: Result<String, ProtoError>)
    ensures
        from_url matches Some(u) ==> r matches Ok(s) && s@ == u@,
        from_url is None ==> (r is Ok <==> supported(os, arch)),
        from_url is None ==> (r matches Ok(s) ==> s@ == "https://nodejs.org/dist/v"@ + version@ + "/"@
            + ("node-v"@ + version@ + "-"@ + os_label(os) + "-"@ + arch_label(arch) + "."@ + archive_ext(os))),
{
    match from_url {
        Some(u) => Ok(u.to_owned()),
        None => {
            let file = match get_archive_file(version, os, arch) {
                Ok(f) => f,
                Err(e) => {
                    return Err(e);
                },
            };
            let mut s = String::from_str("https://nodejs.org/dist/v");
            s.append(version);
            s.append("/");
            s.append(file.as_str());
            Ok(s)
        },
    }
}

/// Whether the archive is downloaded: not when the file is already there.
pub fn should_download(to_file_exists: bool) -> (r: bool)
    ensures
        r == !to_file_exists,
{
    !to_file_exists
}

/// The architectures Node.js is built for on each system: x64 and arm64 on macOS; x64,
/// armv7l, arm64, ppc64le and s390x on Linux; x64 and x86 on Windows.
pub proof fn law_supported_architectures(os: HostOs, arch: NodeArch)
    ensures
        supported(os, arch) <==> match os {
            HostOs::MacOs => arch == NodeArch::X64 || arch == NodeArch::Arm64,
            HostOs::Linux => arch == NodeArch::X64 || arch == NodeArch::Arm || arch == NodeArch::Arm64
                || arch == NodeArch::Ppc64 || arch == NodeArch::S390x,
            HostOs::Windows => arch == NodeArch::X64 || arch == NodeArch::X86,
        },
{
}

}
