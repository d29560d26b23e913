use soft_matrix_gpu::overlap::lay_down;
use soft_matrix_gpu::upmix::{Recording, UpmixError, Upmixer};

/// A device that answers channel `c` with the left windows times `c + 1`.
fn run(samples: &[i64], memory: Option<u64>, context: usize) -> ([Vec<i64>; 6], usize) {
    let weigh = |x: i64, h: i64| x * h;
    let recording = Recording::new(samples, samples, vec![1i64, 2, 3, 4], 0, &weigh);
    let recording = match recording {
        Ok(recording) => recording,
        Err(_) => panic!("no window"),
    };
    let mix = |sum: i64, entry: i64| sum + entry;
    let accumulate = |sum: i64, weight: i64| sum + weight;
    let mut upmixer = Upmixer::new(recording, memory, context, 0i64, mix, accumulate);
    let chunks = upmixer.chunk_plan().num_chunks;
    while let Some(chunk) = upmixer.next_chunk() {
        let (left, right) = upmixer.chunk_windows(&chunk);
        assert_eq!(left, right);
        assert_eq!(left.len(), chunk.len() * 4);
        let answer: [Vec<i64>; 6] =
            std::array::from_fn(|c| left.iter().map(|x| x * (c as i64 + 1)).collect());
        upmixer.accept(&answer);
    }
    let settle = |sum: i64, weight: i64| if weight > 0 { sum / weight } else { sum };
    (upmixer.finish(&settle), chunks)
}

#[test]
fn what_goes_in_comes_out() {
    let samples = [5, -3, 8, 100, 7, 2, 9];
    let (channels, chunks) = run(&samples, None, 0);
    assert_eq!(chunks, 1);
    for c in 0..6 {
        let expected: Vec<i64> = samples.iter().map(|x| x * (c as i64 + 1)).collect();
        assert_eq!(channels[c], expected);
    }
}

#[test]
fn splitting_does_not_matter() {
    let samples: Vec<i64> = (1..40).collect();
    let (whole, one) = run(&samples, None, 3);
    assert_eq!(one, 1);
    for memory in [0u64, 700, 1500, 2200, 6000] {
        let (split, chunks) = run(&samples, Some(memory), 3);
        assert!(chunks > 1);
        assert_eq!(split, whole);
    }
}

#[test]
fn the_output_is_as_long_as_the_input() {
    for len in 0..12usize {
        let samples = vec![1i64; len];
        let (channels, _) = run(&samples, Some(0), 1);
        for channel in &channels {
            assert_eq!(channel.len(), len);
        }
    }
}

#[test]
fn guards_are_discarded() {
    let weigh = |x: i64, _h: i64| x;
    let recording = match Recording::new(&[1i64, 1, 1, 1], &[1, 1, 1, 1], vec![1, 1], 0, &weigh) {
        Ok(recording) => recording,
        Err(_) => panic!("no window"),
    };
    assert_eq!(recording.num_windows, 5);
    let mix = |sum: i64, entry: i64| sum * 10 + entry;
    let accumulate = |sum: i64, weight: i64| sum + weight;
    let mut upmixer = Upmixer::new(recording, Some(0), 1, 0i64, mix, accumulate);
    let mut k = 0;
    while let Some(chunk) = upmixer.next_chunk() {
        // Core windows hold the number of their chunk, guard windows hold nines.
        let mut one: Vec<i64> = vec![9; chunk.len() * 2];
        for w in chunk.core_start..chunk.core_end {
            for s in 0..2 {
                one[(w - chunk.proc_start) * 2 + s] = k;
            }
        }
        let answer: [Vec<i64>; 6] = std::array::from_fn(|_| one.clone());
        upmixer.accept(&answer);
        k += 1;
    }
    assert_eq!(k, 5);
    let settle = |sum: i64, weight: i64| sum * 100 + weight;
    let channels = upmixer.finish(&settle);
    assert_eq!(channels[0], vec![102, 1202, 2302, 3402]);
    assert_eq!(channels[5], channels[0]);
}

#[test]
fn the_end_is_heard_once() {
    let weigh = |x: i64, _h: i64| x;
    let samples = [1i64, 1, 1, 1, 1];
    let recording = match Recording::new(&samples, &samples, vec![1i64; 4], 0, &weigh) {
        Ok(recording) => recording,
        Err(_) => panic!("no window"),
    };
    let mix = |sum: i64, _entry: i64| sum + 1;
    let accumulate = |sum: i64, weight: i64| sum + weight;
    let mut upmixer = Upmixer::new(recording, None, 0, 0i64, mix, accumulate);
    while let Some(chunk) = upmixer.next_chunk() {
        let answer: [Vec<i64>; 6] = std::array::from_fn(|_| vec![1; chunk.len() * 4]);
        upmixer.accept(&answer);
    }
    let keep = |sum: i64, weight: i64| sum * 10 + weight;
    assert_eq!(upmixer.finish(&keep)[3], vec![22, 22, 22, 22, 11]);
}

#[test]
fn without_a_window_there_is_nothing_to_upmix() {
    let weigh = |x: i64, _h: i64| x;
    let empty: [i64; 0] = [];
    match Recording::new(&empty, &empty, vec![1i64], 0, &weigh) {
        Ok(_) => panic!("there is a window"),
        Err(error) => {
            assert_eq!(error, UpmixError::TooShort);
            assert_eq!(error.message(), "Input is too short to process");
        }
    }
}

#[test]
fn a_longer_right_channel_is_cut() {
    let weigh = |x: i64, _h: i64| x;
    let left = [1i64, 2];
    let right = [5i64, 6, 7, 8];
    let recording = match Recording::new(&left, &right, vec![1i64, 1], 0, &weigh) {
        Ok(recording) => recording,
        Err(_) => panic!("no window"),
    };
    let mix = |sum: i64, entry: i64| sum + entry;
    let accumulate = |sum: i64, weight: i64| sum + weight;
    let upmixer = Upmixer::new(recording, None, 0, 0i64, mix, accumulate);
    let chunk = match upmixer.next_chunk() {
        Some(chunk) => chunk,
        None => panic!("no chunk"),
    };
    let (l, r) = upmixer.chunk_windows(&chunk);
    assert_eq!(l, &[0, 1, 1, 2, 2, 0]);
    assert_eq!(r, &[0, 5, 5, 6, 6, 7]);
}

#[test]
fn items_are_laid_down_in_place() {
    let step = |sum: i64, item: i64| sum * 10 + item;
    let mut sums = vec![1i64, 1, 1, 1];
    lay_down(&mut sums, 1, &[5, 6, 7, 8], 2, 2, &step);
    assert_eq!(sums, vec![1, 17, 18, 1]);
}

#[test]
fn samples_may_be_fractions() {
    let weigh = |x: f32, h: f32| (x * h, 0.0f32);
    let samples = [0.5f32, -0.25, 1.5, 0.125];
    let recording = match Recording::new(&samples, &samples, vec![0.25f32, 1.0], 0.0, &weigh) {
        Ok(recording) => recording,
        Err(_) => panic!("no window"),
    };
    let mix = |sum: f32, entry: (f32, f32)| sum + entry.0.clamp(-4.0, 4.0);
    let accumulate = |sum: f32, weight: f32| sum + weight;
    let mut upmixer = Upmixer::new(recording, Some(0), 1, 0.0f32, mix, accumulate);
    while let Some(chunk) = upmixer.next_chunk() {
        let windows = upmixer.chunk_windows(&chunk).0.to_vec();
        let answer: [Vec<(f32, f32)>; 6] = std::array::from_fn(|_| windows.clone());
        upmixer.accept(&answer);
    }
    let settle = |sum: f32, weight: f32| {
        let value = if weight > 1e-6 { sum / weight } else { sum };
        value.clamp(-1.0, 1.0)
    };
    assert_eq!(upmixer.finish(&settle)[2], vec![0.5, -0.25, 1.0, 0.125]);
}

/// A device that answers a window with itself plus the windows of both channels up to `radius` away.
fn run_with_context(
    left: &[i64],
    right: &[i64],
    memory: Option<u64>,
    radius: usize,
) -> ([Vec<i64>; 6], usize) {
    let weigh = |x: i64, h: i64| x * h;
    let recording = match Recording::new(left, right, vec![1i64, 2, 3, 4], 0, &weigh) {
        Ok(recording) => recording,
        Err(_) => panic!("no window"),
    };
    let mix = |sum: i64, entry: i64| sum * 3 + entry;
    let accumulate = |sum: i64, weight: i64| sum + weight;
    let mut upmixer = Upmixer::new(recording, memory, radius, 0i64, mix, accumulate);
    let chunks = upmixer.chunk_plan().num_chunks;
    while let Some(chunk) = upmixer.next_chunk() {
        let n = chunk.len();
        let (left, right) = upmixer.chunk_windows(&chunk);
        let mut one: Vec<i64> = Vec::new();
        for w in 0..n {
            for s in 0..4 {
                let mut value = left[w * 4 + s];
                for v in w.saturating_sub(radius)..=(w + radius).min(n - 1) {
                    value += left[v * 4..v * 4 + 4].iter().sum::<i64>();
                    value += left[v * 4 + s] * (10 + v as i64 - w as i64);
                    value += right[v * 4 + s] * (100 + v as i64 - w as i64);
                }
                one.push(value);
            }
        }
        let answer: [Vec<i64>; 6] = std::array::from_fn(|_| one.clone());
        upmixer.accept(&answer);
    }
    let settle = |sum: i64, weight: i64| sum * 100 + weight;
    (upmixer.finish(&settle), chunks)
}

#[test]
fn chunks_are_not_heard() {
    let samples: Vec<i64> = (0..50).map(|i| (i * 37) % 19 - 9).collect();
    for radius in [0usize, 1, 2, 5] {
        let (whole, one) = run_with_context(&samples, &samples, None, radius);
        assert_eq!(one, 1);
        for memory in [0u64, 1500, 4000, 6000] {
            let (split, chunks) = run_with_context(&samples, &samples, Some(memory), radius);
            assert!(chunks > 1);
            assert_eq!(split, whole);
        }
    }
}

#[test]
fn a_sample_hears_its_neighbourhood() {
    let hop = 2;
    let left: Vec<i64> = (0..60).map(|i| (i * 37) % 19 + 1).collect();
    let right: Vec<i64> = (0..60).map(|i| (i * 23) % 17 + 1).collect();
    for radius in [0usize, 1, 3] {
        let reach = (radius + 2) * hop;
        let (whole, _) = run_with_context(&left, &right, None, radius);
        for sample in [0usize, 1, 25, 26, 59] {
            let disturb = |channel: &[i64]| -> Vec<i64> {
                let far = |j: usize| j.abs_diff(sample) >= reach;
                channel.iter().enumerate().map(|(j, x)| if far(j) { -500 } else { *x }).collect()
            };
            let (other, _) = run_with_context(&disturb(&left), &disturb(&right), Some(0), radius);
            for c in 0..6 {
                assert_eq!(whole[c][sample], other[c][sample]);
            }
            assert!(whole[0] != other[0]);
        }
        // The farthest sample that is heard.
        let mut near = left.clone();
        near[25 + reach - 2] += 1;
        let (other, _) = run_with_context(&near, &right, None, radius);
        assert!(whole[0][25] != other[0][25]);
    }
}

#[test]
fn excess_on_the_right_is_ignored() {
    let left: Vec<i64> = (0..11).map(|i| i * i % 7 + 1).collect();
    // Two samples are a hop: what is heard of the right ends with the twelfth.
    let mut short: Vec<i64> = (0..11).map(|i| i * 3 % 5 + 1).collect();
    let expected = run_with_context(&left, &short, None, 1).0;
    short.push(0);
    let mut long = short.clone();
    long.extend([9, -9, 9, 100, 7, 7, 7]);
    for right in [short, long.clone()] {
        let channels = run_with_context(&left, &right, Some(0), 1).0;
        assert_eq!(channels, expected);
        for channel in &channels {
            assert_eq!(channel.len(), left.len());
        }
    }
    long[11] = 1;
    assert!(run_with_context(&left, &long, None, 1).0 != expected);
}
