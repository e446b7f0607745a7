//! Which functions of the standard library are replaced, in device code,
//! by stubs that abort.

use vstd::prelude::*;
use crate::meta::same_text;

verus! {

/// A stub that device code calls in place of a function that it cannot
/// have.
#[derive(Clone, Copy, Debug, PartialEq, Eq, Structural, Hash)]
pub enum Stub {
    RustAllocZeroed,
    RustAlloc,
    RustOom,
    RustDealloc,
    RustUsableSize,
    RustRealloc,
    RustAllocExcess,
    RustReallocExcess,
    RustGrowInPlace,
    RustShrinkInPlace,
    HandleAllocError,
    RustPanicWithHook,
    BeginPanic,
    BeginPanicFmt,
    PanicImpl,
    PanicFmt,
    PanicBoundsCheck,
    SliceIndexOrderFail,
    SliceIndexLenFail,
    SliceIndexOverflowFail,
    SliceErrorFail,
    RustEhPersonality,
}

/// What is called in place of a definition.
#[derive(Clone, Copy, Debug, PartialEq, Eq, Structural, Hash)]
pub enum Replacement {
    /// The definition itself.
    Keep,
    /// The kernel instance that was registered for the definition's path.
    Custom(u64),
    /// One of the stubs that are built in.
    Builtin(Stub),
}

/// `str::strip_prefix` of the standard library with a text as the
/// pattern: the text without the prefix, where it starts with the prefix,
/// and `None` where it does not.
#[verifier::external_body]
pub(crate) fn strip_prefix<'a>(text: &'a str, prefix: &str) -> (rest: Option<&'a str>)
    ensures
        match rest {
            Some(rest) => text@ == prefix@ + rest@,
            None => !prefix@.is_prefix_of(text@),
        },
{
    text.strip_prefix(prefix)
}

/// Whether `path` is the path `abs_path` of a definition, or, where
/// `abs_path` is in `core`, the same path in the copy of `core` that the
/// standard library is built against.
pub open spec fn spec_path_matches(path: Seq<char>, abs_path: Seq<char>) -> bool {
    path == abs_path || ("core::"@.is_prefix_of(abs_path)
        && "rustc_std_workspace_core::"@.is_prefix_of(path) && abs_path.skip("core::"@.len() as int)
        == path.skip("rustc_std_workspace_core::"@.len() as int))
}

/// Tells whether `path` is the path `abs_path` of a definition, in `core`
/// or in its copy.
pub fn path_matches(path: &str, abs_path: &str) -> (matches: bool)
    ensures
        matches == spec_path_matches(path@, abs_path@),
{
    if same_text(path, abs_path) {
        return true;
    }
    match strip_prefix(abs_path, "core::") {
        Some(suffix) => match strip_prefix(path, "rustc_std_workspace_core::") {
            Some(path_suffix) => {
                proof {
                    let core = "core::"@;
                    let workspace = "rustc_std_workspace_core::"@;
                    assert(core.is_prefix_of(abs_path@)) by {
                        assert((core + suffix@).subrange(0, core.len() as int) =~= core);
                    }
                    assert(workspace.is_prefix_of(path@)) by {
                        assert((workspace + path_suffix@).subrange(0, workspace.len() as int)
                            =~= workspace);
                    }
                    assert(abs_path@.skip(core.len() as int) =~= suffix@);
                    assert(path@.skip(workspace.len() as int) =~= path_suffix@);
                }
                same_text(suffix, path_suffix)
            },
            None => false,
        },
        None => false,
    }
}

/// The stub that is built in for the definition at `path`, if there is
/// one.
pub open spec fn spec_builtin_stub(path: Seq<char>) -> Option<Stub> {
    if spec_path_matches(path, "alloc::alloc::__rust_alloc_zeroed"@) {
        Some(Stub::RustAllocZeroed)
    } else if spec_path_matches(path, "alloc::alloc::__rust_alloc"@) {
        Some(Stub::RustAlloc)
    } else if spec_path_matches(path, "alloc::alloc::__rust_oom"@) {
        Some(Stub::RustOom)
    } else if spec_path_matches(path, "alloc::alloc::__rust_dealloc"@) {
        Some(Stub::RustDealloc)
    } else if spec_path_matches(path, "alloc::alloc::__rust_usable_size"@) {
        Some(Stub::RustUsableSize)
    } else if spec_path_matches(path, "alloc::alloc::__rust_realloc"@) {
        Some(Stub::RustRealloc)
    } else if spec_path_matches(path, "alloc::alloc::__rust_alloc_excess"@) {
        Some(Stub::RustAllocExcess)
    } else if spec_path_matches(path, "alloc::alloc::__rust_realloc_excess"@) {
        Some(Stub::RustReallocExcess)
    } else if spec_path_matches(path, "alloc::alloc::__rust_grow_in_place"@) {
        Some(Stub::RustGrowInPlace)
    } else if spec_path_matches(path, "alloc::alloc::handle_alloc_error"@) {
        Some(Stub::HandleAllocError)
    } else if spec_path_matches(path, "std::panicking::rust_panic_with_hook"@) {
        Some(Stub::RustPanicWithHook)
    } else if spec_path_matches(path, "std::rt::begin_panic"@) {
        Some(Stub::BeginPanic)
    } else if spec_path_matches(path, "std::rt::begin_panic_fmt"@) {
        Some(Stub::BeginPanicFmt)
    } else if spec_path_matches(path, "core::panicking::panic_fmt::panic_impl"@) {
        Some(Stub::PanicImpl)
    } else if spec_path_matches(path, "core::panicking::panic_fmt"@) {
        Some(Stub::PanicFmt)
    } else if spec_path_matches(path, "core::panicking::panic_bounds_check"@) {
        Some(Stub::PanicBoundsCheck)
    } else if spec_path_matches(path, "core::slice::slice_index_order_fail"@) {
        Some(Stub::SliceIndexOrderFail)
    } else if spec_path_matches(path, "core::slice::slice_index_len_fail"@) {
        Some(Stub::SliceIndexLenFail)
    } else if spec_path_matches(path, "core::slice::slice_index_overflow_fail"@) {
        Some(Stub::SliceIndexOverflowFail)
    } else if spec_path_matches(path, "core::str::slice_error_fail"@) {
        Some(Stub::SliceErrorFail)
    } else if spec_path_matches(path, "panic_unwind::real_imp::rust_eh_personality"@) {
        Some(Stub::RustEhPersonality)
    } else {
        None
    }
}

/// The stub that is built in for the definition at `path`, if there is
/// one.
pub fn builtin_stub(path: &str) -> (stub: Option<Stub>)
    ensures
        stub == spec_builtin_stub(path@),
{
    if path_matches(path, "alloc::alloc::__rust_alloc_zeroed") {
        Some(Stub::RustAllocZeroed)
    } else if path_matches(path, "alloc::alloc::__rust_alloc") {
        Some(Stub::RustAlloc)
    } else if path_matches(path, "alloc::alloc::__rust_oom") {
        Some(Stub::RustOom)
    } else if path_matches(path, "alloc::alloc::__rust_dealloc") {
        Some(Stub::RustDealloc)
    } else if path_matches(path, "alloc::alloc::__rust_usable_size") {
        Some(Stub::RustUsableSize)
    } else if path_matches(path, "alloc::alloc::__rust_realloc") {
        Some(Stub::RustRealloc)
    } else if path_matches(path, "alloc::alloc::__rust_alloc_excess") {
        Some(Stub::RustAllocExcess)
    } else if path_matches(path, "alloc::alloc::__rust_realloc_excess") {
        Some(Stub::RustReallocExcess)
    } else if path_matches(path, "alloc::alloc::__rust_grow_in_place") {
        Some(Stub::RustGrowInPlace)
    } else if path_matches(path, "alloc::alloc::handle_alloc_error") {
        Some(Stub::HandleAllocError)
    } else if path_matches(path, "std::panicking::rust_panic_with_hook") {
        Some(Stub::RustPanicWithHook)
    } else if path_matches(path, "std::rt::begin_panic") {
        Some(Stub::BeginPanic)
    } else if path_matches(path, "std::rt::begin_panic_fmt") {
        Some(Stub::BeginPanicFmt)
    } else if path_matches(path, "core::panicking::panic_fmt::panic_impl") {
        Some(Stub::PanicImpl)
    } else if path_matches(path, "core::panicking::panic_fmt") {
        Some(Stub::PanicFmt)
    } else if path_matches(path, "core::panicking::panic_bounds_check") {
        Some(Stub::PanicBoundsCheck)
    } else if path_matches(path, "core::slice::slice_index_order_fail") {
        Some(Stub::SliceIndexOrderFail)
    } else if path_matches(path, "core::slice::slice_index_len_fail") {
        Some(Stub::SliceIndexLenFail)
    } else if path_matches(path, "core::slice::slice_index_overflow_fail") {
        Some(Stub::SliceIndexOverflowFail)
    } else if path_matches(path, "core::str::slice_error_fail") {
        Some(Stub::SliceErrorFail)
    } else if path_matches(path, "panic_unwind::real_imp::rust_eh_personality") {
        Some(Stub::RustEhPersonality)
    } else {
        None
    }
}

/// A registered replacement: the path of a definition and the kernel
/// instance that is called in its place.
#[derive(Debug)]
pub struct CustomStub {
    pub path: String,
    pub instance: u64,
}

/// The choice of replacements.
#[derive(Debug)]
pub struct Stubber {
    /// Are we stubbing the built-in stubs?
    pub builtins: bool,
    /// Replacements that come before the built-in ones. Of two for one
    /// path the first counts.
    pub stubs: Vec<CustomStub>,
}

/// The kernel instance that the first `bound` of `stubs` register for
/// `path`: that of the first of them with this path.
pub open spec fn spec_custom_stub(stubs: Seq<CustomStub>, path: Seq<char>, bound: int) -> Option<u64>
    decreases bound,
{
    if bound <= 0 {
        None
    } else {
        match spec_custom_stub(stubs, path, bound - 1) {
            Some(instance) => Some(instance),
            None => if stubs[bound - 1].path@ == path {
                Some(stubs[bound - 1].instance)
            } else {
                None
            },
        }
    }
}

/// A path that was found among some stubs is found among more.
pub proof fn lemma_custom_stub_stays(stubs: Seq<CustomStub>, path: Seq<char>, bound: int, above: int)
    requires
        bound <= above,
        spec_custom_stub(stubs, path, bound) is Some,
    ensures
        spec_custom_stub(stubs, path, above) == spec_custom_stub(stubs, path, bound),
    decreases above - bound,
{
    if bound < above {
        lemma_custom_stub_stays(stubs, path, bound, above - 1);
    }
}

/// The path that the stubs themselves live under.
pub open spec fn spec_stub_module() -> Seq<char> {
    "geobacter_runtime_core::codegen::stubbing"@
}

impl Default for Stubber {
    fn default() -> (stubber: Self)
        ensures
            stubber.builtins,
            stubber.stubs@ == Seq::<CustomStub>::empty(),
    {
        Stubber { builtins: true, stubs: Vec::new() }
    }
}

impl Stubber {
    /// What is called in place of the definition at `path`: the definition
    /// itself where it is one of the stubs; else what was registered for
    /// the path; else, where the built-in stubs are in use, the one for
    /// the path; else the definition itself.
    pub open spec fn spec_stub_def_id(&self, path: Seq<char>) -> Replacement {
        if spec_stub_module().is_prefix_of(path) {
            Replacement::Keep
        } else if spec_custom_stub(self.stubs@, path, self.stubs@.len() as int) is Some {
            Replacement::Custom(spec_custom_stub(self.stubs@, path, self.stubs@.len() as int)->0)
        } else if !self.builtins {
            Replacement::Keep
        } else {
            match spec_builtin_stub(path) {
                Some(stub) => Replacement::Builtin(stub),
                None => Replacement::Keep,
            }
        }
    }

    /// Chooses what is called in place of the definition at `path`.
    pub fn stub_def_id(&self, path: &str) -> (replacement: Replacement)
        ensures
            replacement == self.spec_stub_def_id(path@),
    {
        match strip_prefix(path, "geobacter_runtime_core::codegen::stubbing") {
            Some(rest) => {
                proof {
                    assert((spec_stub_module() + rest@).subrange(
                        0,
                        spec_stub_module().len() as int,
                    ) =~= spec_stub_module());
                }
                // this is one of our stubs.
                return Replacement::Keep;
            },
            None => {},
        }
        // let an entry in stubs override our builtin stubs:
        let mut i: usize = 0;
        while i < self.stubs.len()
            invariant
                i <= self.stubs@.len(),
                !spec_stub_module().is_prefix_of(path@),
                spec_custom_stub(self.stubs@, path@, i as int) is None,
            decreases self.stubs@.len() - i,
        {
            if same_text(self.stubs[i].path.as_str(), path) {
                proof {
                    lemma_custom_stub_stays(self.stubs@, path@, i + 1, self.stubs@.len() as int);
                }
                return Replacement::Custom(self.stubs[i].instance);
            }
            i = i + 1;
        }
        if !self.builtins {
            return Replacement::Keep;
        }
        // check for the builtins:
        match builtin_stub(path) {
            Some(stub) => Replacement::Builtin(stub),
            None => Replacement::Keep,
        }
    }
}

/// The pass that replaces the allocator's functions.
#[derive(Clone, Copy, Debug)]
pub struct AllocPass;

/// The stub for the allocator function at `path`, if it is one.
pub open spec fn spec_alloc_stub(path: Seq<char>) -> Option<Stub> {
    if path == "alloc::heap::::__rust_alloc"@ {
        Some(Stub::RustAlloc)
    } else if path == "alloc::heap::::__rust_alloc_zeroed"@ {
        Some(Stub::RustAllocZeroed)
    } else if path == "alloc::heap::::__rust_realloc"@ {
        Some(Stub::RustRealloc)
    } else if path == "alloc::heap::::__rust_oom"@ {
        Some(Stub::RustOom)
    } else if path == "alloc::heap::::__rust_usable_size"@ {
        Some(Stub::RustUsableSize)
    } else if path == "alloc::heap::::__rust_dealloc"@ {
        Some(Stub::RustDealloc)
    } else if path == "alloc::heap::::__rust_alloc_excess"@ {
        Some(Stub::RustAllocExcess)
    } else if path == "alloc::heap::::__rust_realloc_excess"@ {
        Some(Stub::RustReallocExcess)
    } else if path == "alloc::heap::::__rust_grow_in_place"@ {
        Some(Stub::RustGrowInPlace)
    } else if path == "alloc::heap::::__rust_shrink_in_place"@ {
        Some(Stub::RustShrinkInPlace)
    } else {
        None
    }
}

impl AllocPass {
    /// The stub that replaces the definition at `path`: one for each of
    /// the allocator's functions, and none for another definition.
    pub fn pass_type(&self, path: &str) -> (stub: Option<Stub>)
        ensures
            stub == spec_alloc_stub(path@),
    {
        if same_text(path, "alloc::heap::::__rust_alloc") {
            Some(Stub::RustAlloc)
        } else if same_text(path, "alloc::heap::::__rust_alloc_zeroed") {
            Some(Stub::RustAllocZeroed)
        } else if same_text(path, "alloc::heap::::__rust_realloc") {
            Some(Stub::RustRealloc)
        } else if same_text(path, "alloc::heap::::__rust_oom") {
            Some(Stub::RustOom)
        } else if same_text(path, "alloc::heap::::__rust_usable_size") {
            Some(Stub::RustUsableSize)
        } else if same_text(path, "alloc::heap::::__rust_dealloc") {
            Some(Stub::RustDealloc)
        } else if same_text(path, "alloc::heap::::__rust_alloc_excess") {
            Some(Stub::RustAllocExcess)
        } else if same_text(path, "alloc::heap::::__rust_realloc_excess") {
            Some(Stub::RustReallocExcess)
        } else if same_text(path, "alloc::heap::::__rust_grow_in_place") {
            Some(Stub::RustGrowInPlace)
        } else if same_text(path, "alloc::heap::::__rust_shrink_in_place") {
            Some(Stub::RustShrinkInPlace)
        } else {
            None
        }
    }
}

} // verus!
