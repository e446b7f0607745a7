use hsa_rt::kernel_id::{HostCreateFuncMessage, TyCtxtLessKernelId};
use hsa_rt::stubbing::{
    builtin_stub, path_matches, AllocPass, CustomStub, Replacement, Stub, Stubber,
};

#[test]
fn paths_in_core_match_their_copy() {
    assert!(path_matches("core::panicking::panic_fmt", "core::panicking::panic_fmt"));
    assert!(path_matches(
        "rustc_std_workspace_core::panicking::panic_fmt",
        "core::panicking::panic_fmt"
    ));
    assert!(!path_matches("rustc_std_workspace_core::panicking::panic", "core::panicking::panic_fmt"));
    assert!(!path_matches("rustc_std_workspace_core::rt::begin_panic", "std::rt::begin_panic"));
    assert!(!path_matches("core::panicking::panic_fmt", "rustc_std_workspace_core::panicking::panic_fmt"));
    assert!(path_matches("", ""));
    assert!(path_matches("rustc_std_workspace_core::", "core::"));
    assert!(!path_matches("core::panicking", "core::panicking::panic_fmt"));
}

#[test]
fn builtin_stubs_by_path() {
    let cases = [
        ("alloc::alloc::__rust_alloc_zeroed", Stub::RustAllocZeroed),
        ("alloc::alloc::__rust_alloc", Stub::RustAlloc),
        ("alloc::alloc::__rust_oom", Stub::RustOom),
        ("alloc::alloc::__rust_dealloc", Stub::RustDealloc),
        ("alloc::alloc::__rust_usable_size", Stub::RustUsableSize),
        ("alloc::alloc::__rust_realloc", Stub::RustRealloc),
        ("alloc::alloc::__rust_alloc_excess", Stub::RustAllocExcess),
        ("alloc::alloc::__rust_realloc_excess", Stub::RustReallocExcess),
        ("alloc::alloc::__rust_grow_in_place", Stub::RustGrowInPlace),
        ("alloc::alloc::handle_alloc_error", Stub::HandleAllocError),
        ("std::panicking::rust_panic_with_hook", Stub::RustPanicWithHook),
        ("std::rt::begin_panic", Stub::BeginPanic),
        ("std::rt::begin_panic_fmt", Stub::BeginPanicFmt),
        ("core::panicking::panic_fmt::panic_impl", Stub::PanicImpl),
        ("core::panicking::panic_fmt", Stub::PanicFmt),
        ("core::panicking::panic_bounds_check", Stub::PanicBoundsCheck),
        ("core::slice::slice_index_order_fail", Stub::SliceIndexOrderFail),
        ("core::slice::slice_index_len_fail", Stub::SliceIndexLenFail),
        ("core::slice::slice_index_overflow_fail", Stub::SliceIndexOverflowFail),
        ("core::str::slice_error_fail", Stub::SliceErrorFail),
        ("panic_unwind::real_imp::rust_eh_personality", Stub::RustEhPersonality),
        ("rustc_std_workspace_core::panicking::panic_bounds_check", Stub::PanicBoundsCheck),
        ("rustc_std_workspace_core::str::slice_error_fail", Stub::SliceErrorFail),
    ];
    for (path, stub) in cases {
        assert_eq!(builtin_stub(path), Some(stub), "{}", path);
    }
    assert_eq!(builtin_stub("alloc::alloc::__rust_shrink_in_place"), None);
    assert_eq!(builtin_stub("alloc::alloc::__rust_alloc_zeroed2"), None);
    assert_eq!(builtin_stub("std::rt::begin"), None);
    assert_eq!(builtin_stub(""), None);
}

#[test]
fn stubber_prefers_registered_replacements() {
    let mut stubber = Stubber::default();
    assert!(stubber.builtins);
    assert!(stubber.stubs.is_empty());
    assert_eq!(stubber.stub_def_id("std::rt::begin_panic"), Replacement::Builtin(Stub::BeginPanic));
    assert_eq!(stubber.stub_def_id("my::function"), Replacement::Keep);
    stubber.stubs.push(CustomStub { path: "std::rt::begin_panic".to_string(), instance: 11 });
    stubber.stubs.push(CustomStub { path: "my::function".to_string(), instance: 12 });
    stubber.stubs.push(CustomStub { path: "my::function".to_string(), instance: 13 });
    stubber.stubs.push(CustomStub {
        path: "geobacter_runtime_core::codegen::stubbing::stubs::abort".to_string(),
        instance: 14,
    });
    assert_eq!(stubber.stub_def_id("std::rt::begin_panic"), Replacement::Custom(11));
    assert_eq!(stubber.stub_def_id("my::function"), Replacement::Custom(12));
    assert_eq!(
        stubber.stub_def_id("core::panicking::panic_fmt"),
        Replacement::Builtin(Stub::PanicFmt)
    );
    // A stub is not replaced.
    assert_eq!(
        stubber.stub_def_id("geobacter_runtime_core::codegen::stubbing::stubs::abort"),
        Replacement::Keep
    );
    assert_eq!(stubber.stub_def_id("geobacter_runtime_core::codegen::stubbing"), Replacement::Keep);
    stubber.builtins = false;
    assert_eq!(stubber.stub_def_id("core::panicking::panic_fmt"), Replacement::Keep);
    assert_eq!(stubber.stub_def_id("std::rt::begin_panic"), Replacement::Custom(11));
}

#[test]
fn allocator_functions_are_replaced() {
    let cases = [
        ("alloc::heap::::__rust_alloc", Stub::RustAlloc),
        ("alloc::heap::::__rust_alloc_zeroed", Stub::RustAllocZeroed),
        ("alloc::heap::::__rust_realloc", Stub::RustRealloc),
        ("alloc::heap::::__rust_oom", Stub::RustOom),
        ("alloc::heap::::__rust_usable_size", Stub::RustUsableSize),
        ("alloc::heap::::__rust_dealloc", Stub::RustDealloc),
        ("alloc::heap::::__rust_alloc_excess", Stub::RustAllocExcess),
        ("alloc::heap::::__rust_realloc_excess", Stub::RustReallocExcess),
        ("alloc::heap::::__rust_grow_in_place", Stub::RustGrowInPlace),
        ("alloc::heap::::__rust_shrink_in_place", Stub::RustShrinkInPlace),
    ];
    for (path, stub) in cases {
        assert_eq!(AllocPass.pass_type(path), Some(stub), "{}", path);
    }
    assert_eq!(AllocPass.pass_type("alloc::heap::__rust_alloc"), None);
    assert_eq!(AllocPass.pass_type("alloc::alloc::__rust_alloc"), None);
    assert_eq!(AllocPass.pass_type(""), None);
}

#[test]
fn kernel_id_from_plain_values() {
    let id = TyCtxtLessKernelId::from_def_id("my_crate", (0x1122, 0x3344), 77);
    assert_eq!(id.crate_name, "my_crate");
    assert_eq!(id.crate_hash_hi, 0x1122);
    assert_eq!(id.crate_hash_lo, 0x3344);
    assert_eq!(id.index, 77);
    let HostCreateFuncMessage::ImplDefId(inner) = HostCreateFuncMessage::ImplDefId(id);
    assert_eq!(inner.index, 77);
}
