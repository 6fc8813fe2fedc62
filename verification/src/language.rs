//! The languages a project can be written in, as the toolchain knows them.
use vstd::prelude::*;

verus! {

/// What the toolchain knows of a language.
pub struct Language {
    /// The language's main binary.
    pub binary: String,
    /// The version used when none is configured.
    pub default_version: String,
    /// The extensions of its source files.
    pub file_exts: Vec<String>,
    /// Where installed dependencies keep their binaries, if anywhere.
    pub vendor_bins_dir: Option<String>,
    /// Where installed dependencies are kept, if anywhere.
    pub vendor_dir: Option<String>,
}

/// TypeScript.
pub fn typescript() -> (l: Language)
    ensures
        l.binary@ == "tsc"@,
        l.default_version@ == "4.8.4"@,
        l.file_exts@.map_values(|e: String| e@) == seq!["ts"@, "tsx"@, "cts"@, "mts"@, "d.ts"@, "d.cts"@, "d.mts"@],
        l.vendor_bins_dir is None,
        l.vendor_dir matches Some(d) && d@ == "node_modules/@types"@,
{
    let mut exts: Vec<String> = Vec::new();
    exts.push(String::from_str("ts"));
    exts.push(String::from_str("tsx"));
    exts.push(String::from_str("cts"));
    exts.push(String::from_str("mts"));
    exts.push(String::from_str("d.ts"));
    exts.push(String::from_str("d.cts"));
    exts.push(String::from_str("d.mts"));
    let l = Language {
        binary: String::from_str("tsc"),
        default_version: String::from_str("4.8.4"),
        file_exts: exts,
        vendor_bins_dir: None,
        vendor_dir: Some(String::from_str("node_modules/@types")),
    };
    assert(l.file_exts@.map_values(|e: String| e@) =~= seq!["ts"@, "tsx"@, "cts"@, "mts"@, "d.ts"@, "d.cts"@, "d.mts"@]);
    l
}

}
