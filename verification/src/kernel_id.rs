//! Kernels as the host and the code generation name them to each other.

use vstd::prelude::*;

verus! {

/// A kernel's definition without the compiler's context: the crate by its
/// name and hash, and the definition's number in it.
#[derive(Debug)]
pub struct TyCtxtLessKernelId {
    pub crate_name: String,
    pub crate_hash_hi: u64,
    pub crate_hash_lo: u64,
    pub index: u64,
}

impl TyCtxtLessKernelId {
    /// The kernel id of the definition with number `index` in the crate
    /// called `crate_name` whose disambiguator has the fingerprint
    /// `fingerprint`.
    pub fn from_def_id(crate_name: &str, fingerprint: (u64, u64), index: usize) -> (id: Self)
        ensures
            id.crate_name@ == crate_name@,
            id.crate_hash_hi == fingerprint.0,
            id.crate_hash_lo == fingerprint.1,
            id.index == index,
    {
        let (crate_hash_hi, crate_hash_lo) = fingerprint;
        TyCtxtLessKernelId {
            crate_name: crate_name.to_owned(),
            crate_hash_hi,
            crate_hash_lo,
            index: index as u64,
        }
    }
}

/// What the host is asked to create a function for.
#[derive(Debug)]
pub enum HostCreateFuncMessage {
    /// An unmodified function in some crate.
    ImplDefId(TyCtxtLessKernelId),
}

} // verus!
