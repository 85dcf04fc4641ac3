use vstd::prelude::*;

verus! {

/// Static build metadata that can be shared across frontends and tests.
#[derive(Debug, Clone, Copy, PartialEq, Eq)]
pub struct CoreBuildInfo {
    pub crate_name: &'static str,
    pub crate_version: &'static str,
    pub wasm_safe: bool,
}

/// Metadata about this build of the rules library.
pub fn build_info() -> (r: CoreBuildInfo)
    ensures
        r.crate_name@ == "gto-core"@,
        r.crate_version@ == "0.1.0"@,
        r.wasm_safe,
{
    CoreBuildInfo { crate_name: "gto-core", crate_version: "0.1.0", wasm_safe: true }
}

} // verus!
