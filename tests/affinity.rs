use micro_optimize_algo::affinity::{
    get_core_ids, get_current_cpu, pin_start, pin_step, pin_to_core, pin_to_current_core,
    pin_to_first_core, restore_affinity, save_affinity, set_affinity, unpin, CpuPinGuard,
    PinAction, PinEvent, PinStage, PinTarget,
};
use micro_optimize_algo::layout::{sort_key_from_lowered, term_width_from, truncate, variant_sort_key};

#[test]
fn test_pin_guard() {
    let guard = CpuPinGuard::new();
    if guard.is_pinned() {
        assert!(guard.core_id().is_some());
    }
    drop(guard);
}

#[test]
fn test_pin_unpin_cycle() {
    let core = pin_to_first_core();
    if core.is_some() {
        assert!(unpin(), "Unpin should succeed after pin");
    }
}

#[test]
fn portable_platform_degrades_to_no_op() {
    assert_eq!(get_core_ids(), None);
    assert_eq!(get_current_cpu(), None);
    assert!(save_affinity());
    assert!(!set_affinity(0));
    assert!(restore_affinity());
    assert!(!pin_to_core(0));
    assert_eq!(pin_to_current_core(), None);
    assert!(unpin());
    let g = CpuPinGuard::with_core(3);
    assert!(!g.is_pinned());
    assert_eq!(g.core_id(), None);
    assert!(!CpuPinGuard::first_core().is_pinned());
}

#[test]
fn session_falls_back_to_first_core() {
    let (stage, action) = pin_start(PinTarget::CurrentCore);
    assert_eq!(action, PinAction::QueryCurrentCpu);
    let (stage, action) = pin_step(stage, PinEvent::CurrentCpu(Some(3)));
    assert_eq!(action, PinAction::Pin(3));
    let (stage, action) = pin_step(stage, PinEvent::Pinned(false));
    assert_eq!(action, PinAction::QueryCoreIds);
    let (stage, action) = pin_step(stage, PinEvent::CoreIds(Some(vec![0, 1])));
    assert_eq!(action, PinAction::Pin(0));
    let (stage, action) = pin_step(stage, PinEvent::Pinned(true));
    assert_eq!(action, PinAction::Finish(Some(0)));
    assert_eq!(stage, PinStage::Done(Some(0)));
    let (_, action) = pin_step(stage, PinEvent::Pinned(false));
    assert_eq!(action, PinAction::Finish(Some(0)));
}

#[test]
fn session_outcomes() {
    let (s, _) = pin_start(PinTarget::CurrentCore);
    let (s, a) = pin_step(s, PinEvent::CurrentCpu(Some(2)));
    assert_eq!(a, PinAction::Pin(2));
    let (_, a) = pin_step(s, PinEvent::Pinned(true));
    assert_eq!(a, PinAction::Finish(Some(2)));

    let (s, a) = pin_start(PinTarget::FirstCore);
    assert_eq!(a, PinAction::QueryCoreIds);
    let (_, a) = pin_step(s, PinEvent::CoreIds(Some(vec![])));
    assert_eq!(a, PinAction::Finish(None));

    let (s, a) = pin_start(PinTarget::Core(5));
    assert_eq!(a, PinAction::Pin(5));
    let (_, a) = pin_step(s, PinEvent::Pinned(false));
    assert_eq!(a, PinAction::Finish(None));

    let (s, _) = pin_start(PinTarget::CurrentCore);
    let (_, a) = pin_step(s, PinEvent::Pinned(true));
    assert_eq!(a, PinAction::Finish(None));
}

#[test]
fn terminal_width_is_clamped() {
    assert_eq!(term_width_from(None), 80);
    assert_eq!(term_width_from(Some(10)), 40);
    assert_eq!(term_width_from(Some(500)), 200);
    assert_eq!(term_width_from(Some(120)), 120);
}

#[test]
fn truncation_counts_characters() {
    assert_eq!(truncate("hello world", 8), "hello...");
    assert_eq!(truncate("hello", 5), "hello");
    assert_eq!(truncate("héllo wörld", 6), "hél...");
    assert_eq!(truncate("hello", 2), "...");
    assert_eq!(truncate("", 0), "");
}

#[test]
fn variant_display_order_keys() {
    let empty = String::new();
    assert_eq!(variant_sort_key("ORIGINAL", None), (0, empty.clone(), empty.clone()));
    assert_eq!(variant_sort_key("Scalar_Opt", None), (1, "scalar_opt".to_string(), empty.clone()));
    assert_eq!(variant_sort_key("c-original", None), (2, "unknown".to_string(), "c-original".to_string()));
    assert_eq!(variant_sort_key("C_Orig", Some("GCC")), (2, "gcc".to_string(), "c_orig".to_string()));
    assert_eq!(variant_sort_key("x86_64-AVX2", None), (3, "x86_64-avx2".to_string(), empty.clone()));
    assert_eq!(variant_sort_key("c-x86_64-simd", Some("Clang")), (3, "c-x86_64-simd".to_string(), "clang".to_string()));
    assert_eq!(sort_key_from_lowered("neon", "gcc"), (3, "neon".to_string(), empty.clone()));
    assert_eq!(sort_key_from_lowered("originals", "gcc"), (1, "originals".to_string(), empty.clone()));
    let mut names = vec!["x86_64-asm", "c-original", "scalar_opt", "original"];
    names.sort_by_key(|n| variant_sort_key(n, Some("gcc")));
    assert_eq!(names, vec!["original", "scalar_opt", "c-original", "x86_64-asm"]);
}
