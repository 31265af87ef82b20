use micro_optimize_algo::payload::call_vs_branch::{
    add_ten, double, generate_test_data, process_inline, process_with_calls, square,
    CallVsBranchRunner,
};
use micro_optimize_algo::payload::dispatch::{
    self, dispatch_elseif, dispatch_operation, ElseIfVsJumpTableRunner,
};
use micro_optimize_algo::payload::dot_product::DotProductRunner;
use micro_optimize_algo::payload::xoroshiro::{generate_stream, xoroshiro_original, XoroshiroRunner};
use micro_optimize_algo::payload::call_vs_branch;

fn expected_result(value: u32) -> u32 {
    let step1 = value.wrapping_mul(2);
    let step2 = step1.wrapping_add(10);
    step2.wrapping_mul(step2)
}

#[test]
fn test_process_with_calls() {
    for v in [0, 1, 5, 10, 100, 1000] {
        assert_eq!(process_with_calls(v), expected_result(v), "process_with_calls({}) failed", v);
    }
}

#[test]
fn test_process_inline() {
    for v in [0, 1, 5, 10, 100, 1000] {
        assert_eq!(process_inline(v), expected_result(v), "process_inline({}) failed", v);
    }
}

#[test]
fn mod_test_all_variants() {
    call_vs_branch::verify_all().expect("All variants should produce correct results");
    dispatch::verify_all().expect("All variants should produce correct results");
}

#[test]
fn test_expected_computation() {
    let variants: [(&str, fn(u32) -> u32); 2] =
        [("original", process_with_calls), ("inline", process_inline)];
    for (name, f) in variants {
        assert_eq!(f(5), 400, "{}: process(5) should be 400", name);
    }
}

#[test]
fn test_zero() {
    let variants: [(&str, fn(u32) -> u32); 2] =
        [("original", process_with_calls), ("inline", process_inline)];
    for (name, f) in variants {
        assert_eq!(f(0), 100, "{}: process(0) should be 100", name);
    }
}

#[test]
fn helper_steps_wrap() {
    assert_eq!(double(7), 14);
    assert_eq!(add_ten(7), 17);
    assert_eq!(square(7), 49);
    assert_eq!(double(0x8000_0001), 2);
    assert_eq!(add_ten(u32::MAX), 9);
    assert_eq!(square(0x1_0000), 0);
    assert_eq!(process_with_calls(u32::MAX), expected_result(u32::MAX));
}

#[test]
fn call_vs_branch_test_data_is_fixed() {
    let data = generate_test_data(3);
    assert_eq!(data, vec![69, 14, 86]);
    let more = generate_test_data(1000);
    assert_eq!(&more[..3], &data[..]);
    assert!(more.iter().all(|&v| v < 512));
    assert!(generate_test_data(0).is_empty());
}

#[test]
fn test_all_opcodes() {
    let variants: [(&str, fn(u8, u32) -> u32); 2] =
        [("original", dispatch_operation), ("elseif", dispatch_elseif)];
    let value = 12u32;
    for (name, f) in variants {
        assert_eq!(f(0, value), 12, "{}: op 0", name);
        assert_eq!(f(1, value), 24, "{}: op 1", name);
        assert_eq!(f(2, value), 36, "{}: op 2", name);
        assert_eq!(f(3, value), 48, "{}: op 3", name);
        assert_eq!(f(4, value), 60, "{}: op 4", name);
        assert_eq!(f(5, value), 72, "{}: op 5", name);
        assert_eq!(f(6, value), 84, "{}: op 6", name);
        assert_eq!(f(7, value), 96, "{}: op 7", name);
        assert_eq!(f(8, value), 0, "{}: invalid op", name);
    }
}

#[test]
fn test_edge_values() {
    let variants: [(&str, fn(u8, u32) -> u32); 2] =
        [("original", dispatch_operation), ("elseif", dispatch_elseif)];
    for (name, f) in variants {
        assert_eq!(f(0, 0), 0, "{}: 0 * anything = 0", name);
        assert_eq!(f(0, 1), 1, "{}: identity of 1", name);
        assert_eq!(f(1, 1000000), 2000000, "{}: large value", name);
    }
}

#[test]
fn dispatch_wraps_and_rejects_invalid_opcodes() {
    assert_eq!(dispatch_operation(1, u32::MAX), u32::MAX.wrapping_mul(2));
    assert_eq!(dispatch_operation(7, 0x2000_0000), 0);
    assert_eq!(dispatch_operation(255, 10), 0);
    assert_eq!(dispatch_elseif(255, 10), 0);
    assert_eq!(dispatch_elseif(3, 10), 40);
}

#[test]
fn dispatch_test_data_is_fixed() {
    let data = dispatch::generate_test_data(3);
    assert_eq!(data, vec![(5, 218), (5, 930), (6, 432)]);
    let more = dispatch::generate_test_data(500);
    assert!(more.iter().all(|&(op, v)| op < 8 && (1..=1000).contains(&v)));
}

#[test]
fn test_xoroshiro_known_value() {
    let mut s0 = 1;
    let mut s1 = 0;
    let result = xoroshiro_original(&mut s0, &mut s1);
    assert_eq!(result, 131073, "First generated number should be 131073 for seed (1, 0)");
    assert_eq!((s0, s1), (562949955518465, 268435456));
    assert_eq!(xoroshiro_original(&mut s0, &mut s1), 598409205645317);
}

#[test]
fn test_xoroshiro_determinism() {
    let variants: [(&str, fn(&mut u64, &mut u64) -> u64); 1] = [("original", xoroshiro_original)];
    for (name, f) in variants {
        let mut s0_a = 0x12345678;
        let mut s1_a = 0x87654321;
        let mut s0_b = 0x12345678;
        let mut s1_b = 0x87654321;
        for _ in 0..100 {
            let res_a = f(&mut s0_a, &mut s1_a);
            let res_b = f(&mut s0_b, &mut s1_b);
            assert_eq!(res_a, res_b, "Variant {} should be deterministic", name);
        }
    }
}

#[test]
fn test_all_variants_match_original() {
    let seed_lo = 0xdeadbeef;
    let seed_hi = 0xcafebab;
    let stream = generate_stream(seed_lo, seed_hi, 1000);
    let mut s0 = seed_lo;
    let mut s1 = seed_hi;
    for (i, &exp) in stream.iter().enumerate() {
        let got = xoroshiro_original(&mut s0, &mut s1);
        assert_eq!(got, exp, "Variant {} mismatch at index {}", "original", i);
    }
}

#[test]
fn xoroshiro_stream_starts_with_known_values() {
    assert_eq!(generate_stream(1, 0, 2), vec![131073, 598409205645317]);
    assert!(generate_stream(1, 0, 0).is_empty());
    let runner = XoroshiroRunner;
    let reference = runner.reference_stream();
    assert_eq!(reference.len(), 100);
    assert_eq!(reference, generate_stream(0xdeadbeef, 0xcafebab, 100));
}

#[test]
fn runner_descriptors() {
    assert_eq!(CallVsBranchRunner.name(), "call_vs_branch");
    assert_eq!(CallVsBranchRunner.category(), "control_flow");
    assert!(CallVsBranchRunner.verify().is_ok());
    assert_eq!(ElseIfVsJumpTableRunner.name(), "elseif_vs_jumptable");
    assert_eq!(ElseIfVsJumpTableRunner.category(), "control_flow");
    assert!(ElseIfVsJumpTableRunner.verify().is_ok());
    assert_eq!(XoroshiroRunner.name(), "xoroshiro128++");
    assert_eq!(XoroshiroRunner.category(), "random");
    assert_eq!(DotProductRunner.name(), "dot_product");
    assert_eq!(DotProductRunner.category(), "math");
    assert!(DotProductRunner.description().contains("sum of products"));
}

#[test]
fn dispatch_benchmark_keeps_last_result() {
    let data = dispatch::generate_test_data(50);
    let (avg, min, max, _std_dev, last) =
        dispatch::benchmark_function(&dispatch_operation, &data, 5);
    let (op, v) = data[49];
    assert_eq!(last, dispatch_operation(op, v));
    assert!(min <= avg && avg <= max);
    assert_eq!(dispatch::benchmark_function(&dispatch_operation, &data, 0), (0, 0, 0, 0, 0));
    assert_eq!(dispatch::benchmark_function(&dispatch_elseif, &[], 3).4, 0);
}

#[test]
fn xoroshiro_benchmark_statistics_are_consistent() {
    let stats = micro_optimize_algo::payload::xoroshiro::benchmark_variant(&xoroshiro_original, 64, 60);
    assert!(stats.min <= stats.avg && stats.avg <= stats.max);
}
