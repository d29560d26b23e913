use soft_matrix_gpu::chunk::{
    memory_budget, Chunk, ChunkPlan, ENTRY_BYTES, FALLBACK_BUDGET, LIVE_BUFFERS,
};
use soft_matrix_gpu::rounding::{
    divide_single, round_half_even, round_to_limit, to_single, unit_around, DOUBLE_LIMIT,
    QUOTIENT_SCALE, SINGLE_LIMIT,
};
use soft_matrix_gpu::window::{extract_windows, ideal_window_size};

#[test]
fn halves_go_to_even() {
    assert_eq!(round_half_even(5, 2), 2);
    assert_eq!(round_half_even(7, 2), 4);
    assert_eq!(round_half_even(8, 3), 3);
    assert_eq!(round_half_even(7, 3), 2);
}

#[test]
fn units_double_at_the_limit() {
    assert_eq!(unit_around(SINGLE_LIMIT - 1, SINGLE_LIMIT), 1);
    assert_eq!(unit_around(SINGLE_LIMIT, SINGLE_LIMIT), 2);
    assert_eq!(unit_around(4 * SINGLE_LIMIT, SINGLE_LIMIT), 8);
}

#[test]
fn rounding_agrees_with_the_hardware() {
    let singles: [u32; 9] =
        [0, 1, 44100, 16777215, 16777217, 16777219, 33554433, 4294967295, 2147483649];
    for x in singles {
        assert_eq!(to_single(x), (x as f32) as u128);
    }
    let doubles: [u64; 5] = [0, 9007199254740993, 9007199254740995, u64::MAX, 12884901888];
    for x in doubles {
        assert_eq!(round_to_limit(x as u128, DOUBLE_LIMIT), (x as f64) as u128);
    }
}

#[test]
fn quotients_agree_with_the_hardware() {
    for (a, b) in [(44100u32, 20u32), (1, 3), (2, 3), (96001, 7), (4294967295, 20), (7, 16777215)] {
        let exact = to_single(a);
        let by = to_single(b);
        let expected = ((a as f32 / b as f32) as f64 * 18446744073709551616.0) as u128;
        assert_eq!(divide_single(exact, by), expected);
    }
    assert_eq!(divide_single(5, 2), 2 * QUOTIENT_SCALE + QUOTIENT_SCALE / 2);
}

#[test]
fn window_sizes_of_common_rates() {
    assert_eq!(ideal_window_size(44100, 20), 4096);
    assert_eq!(ideal_window_size(48000, 20), 4096);
    assert_eq!(ideal_window_size(96000, 20), 8192);
    assert_eq!(ideal_window_size(192000, 20), 16384);
    assert_eq!(ideal_window_size(8000, 20), 512);
}

#[test]
fn window_sizes_at_the_edges() {
    assert_eq!(ideal_window_size(0, 20), 1);
    assert_eq!(ideal_window_size(20, 20), 1);
    assert_eq!(ideal_window_size(21, 20), 2);
    assert_eq!(ideal_window_size(40, 20), 2);
    assert_eq!(ideal_window_size(41, 20), 4);
    assert_eq!(ideal_window_size(u32::MAX, 20), 268435456);
    for rate in [1u32, 19, 640, 641, 20480, 20481, 16777217, 335544320, 335544333] {
        let least = (rate as f32 / 20.0f32).ceil() as usize;
        assert_eq!(ideal_window_size(rate, 20), least.next_power_of_two());
    }
}

#[test]
fn a_window_spans_one_period() {
    for rate in [8000usize, 44100, 192000] {
        let w = ideal_window_size(rate as u32, 20);
        assert!(rate <= w * 20);
        assert!(w / 2 * 20 < rate);
    }
}

#[test]
fn windows_are_cut_between_silence() {
    let weigh = |x: i64, h: i64| x * h;
    let (flat, count) = extract_windows(&[1, 2, 3, 4, 5], &[1, 10, 100, 1000], 2, 0, &weigh);
    assert_eq!(count, 3);
    assert_eq!(flat, vec![0, 0, 100, 2000, 1, 20, 300, 4000, 3, 40, 500, 0]);
}

#[test]
fn an_empty_channel_has_a_silent_window() {
    let weigh = |x: i64, h: i64| x + h;
    let (flat, count) = extract_windows(&[], &[1, 2], 1, 7, &weigh);
    assert_eq!(count, 1);
    assert_eq!(flat, vec![8, 9]);
}

#[test]
fn a_short_channel_has_no_window() {
    let weigh = |x: i64, _h: i64| x;
    let (flat, count) = extract_windows(&[1], &[1, 1, 1, 1, 1], 1, 0, &weigh);
    assert_eq!(count, 0);
    assert!(flat.is_empty());
}

#[test]
fn budgets_agree_with_the_hardware() {
    for total in [0u64, 1, 3, 100, 12884901888, 25769803776, 9007199254740993, u64::MAX] {
        assert_eq!(memory_budget(Some(total)), (total as f64 * 0.67) as u64);
    }
    assert_eq!(memory_budget(Some(100)), 67);
    assert_eq!(memory_budget(None), FALLBACK_BUDGET);
    assert_eq!(memory_budget(None), 8 * 1024 * 1024 * 1024);
}

#[test]
fn what_fits_is_one_chunk() {
    let plan = ChunkPlan::new(100, 4096, Some(12884901888), 4);
    assert_eq!(plan.num_chunks, 1);
    assert_eq!(plan.chunk_windows, 100);
    assert_eq!(plan.guard, 4);
    let whole = Chunk { core_start: 0, core_end: 100, proc_start: 0, proc_end: 100 };
    assert_eq!(plan.chunk(0), whole);
    assert_eq!(whole.len(), 100);
}

#[test]
fn chunks_have_guards() {
    // One window of four entries takes 448 bytes; three of them fit into 1345 of 2008 bytes.
    let plan = ChunkPlan::new(8, 4, Some(2008), 2);
    assert_eq!(plan.budget, 1345);
    assert_eq!(plan.chunk_windows, 3);
    assert_eq!(plan.num_chunks, 3);
    assert_eq!(plan.chunk(0), Chunk { core_start: 0, core_end: 3, proc_start: 0, proc_end: 5 });
    assert_eq!(plan.chunk(1), Chunk { core_start: 3, core_end: 6, proc_start: 1, proc_end: 8 });
    assert_eq!(plan.chunk(2), Chunk { core_start: 6, core_end: 8, proc_start: 4, proc_end: 8 });
}

#[test]
fn a_chunk_has_a_window_and_a_guard() {
    let plan = ChunkPlan::new(3, 4096, Some(0), 0);
    assert_eq!(plan.chunk_windows, 1);
    assert_eq!(plan.guard, 1);
    assert_eq!(plan.num_chunks, 3);
    assert_eq!(plan.chunk(1), Chunk { core_start: 1, core_end: 2, proc_start: 0, proc_end: 3 });
}

#[test]
fn every_window_is_kept_once() {
    for memory in [0u64, 700, 1400, 2100, 5000] {
        let plan = ChunkPlan::new(7, 4, Some(memory), 1);
        let mut seen = vec![0; 7];
        for k in 0..plan.num_chunks {
            let chunk = plan.chunk(k);
            for w in chunk.core_start..chunk.core_end {
                seen[w] += 1;
            }
        }
        assert_eq!(seen, vec![1; 7]);
    }
}

#[test]
fn a_core_window_sees_its_context() {
    let plan = ChunkPlan::new(9, 4, Some(1400), 2);
    assert!(plan.num_chunks > 1);
    for k in 0..plan.num_chunks {
        let chunk = plan.chunk(k);
        for w in chunk.core_start..chunk.core_end {
            let local = w - chunk.proc_start;
            let first = chunk.proc_start + local.saturating_sub(2);
            let last = chunk.proc_start + (local + 2).min(chunk.len() - 1);
            assert_eq!(first, w.saturating_sub(2));
            assert_eq!(last, (w + 2).min(8));
        }
    }
}

#[test]
fn cores_fit_the_budget() {
    for memory in [700u64, 1400, 2100, 5000, 9000] {
        let plan = ChunkPlan::new(12, 4, Some(memory), 1);
        let bytes = 4 * 8 * 14;
        let windows = plan.chunk_windows as u64;
        assert!(windows <= 1 || windows * bytes <= plan.budget);
        assert!(windows == 12 || plan.budget < (windows + 1) * bytes);
    }
}

#[test]
fn budgets_are_about_two_thirds() {
    for total in [0u64, 1, 1000, 8589934592, 25769803776] {
        let budget = memory_budget(Some(total)) as u128;
        assert!(100 * budget <= 68 * total as u128);
        assert!(66 * total as u128 <= 100 * budget + 100);
    }
}

#[test]
fn a_pass_is_bounded() {
    for memory in [0u64, 700, 1400, 2100, 9000] {
        for context in [0usize, 1, 3, 20] {
            let plan = ChunkPlan::new(12, 4, Some(memory), context);
            for k in 0..plan.num_chunks {
                let n = plan.chunk(k).len();
                assert!(0 < n && n <= plan.chunk_windows + 2 * plan.guard);
            }
        }
    }
}

#[test]
fn a_pass_takes_bounded_memory() {
    for memory in [0u64, 700, 1400, 2100, 9000] {
        for context in [0usize, 1, 3, 20] {
            let plan = ChunkPlan::new(12, 4, Some(memory), context);
            let counted = 4 * 8 * 14;
            let room = plan.budget.max(counted);
            for k in 0..plan.num_chunks {
                let taken = plan.chunk(k).len() as u64 * 4 * ENTRY_BYTES * LIVE_BUFFERS;
                assert!(7 * taken <= 8 * (room + 2 * plan.guard as u64 * counted));
            }
        }
    }
    // A full core with two full guards: seven windows in 16 buffers of four entries.
    let plan = ChunkPlan::new(20, 4, Some(2008), 2);
    assert_eq!(plan.chunk(1).len() as u64 * 4 * ENTRY_BYTES * LIVE_BUFFERS, 3584);
}
