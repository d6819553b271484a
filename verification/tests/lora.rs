use candle_core::{Device, Tensor};
use candle_lora::{create_backend, BackendHandle, CpuLoraBackend, DeviceKind, LoraBackend,
    LoraLinearRt, MetalLoraBackend};

fn dev() -> Device {
    Device::Cpu
}

/// x: [2, 4], all entries small integers.
fn sample_x() -> Tensor {
    Tensor::new(&[[1f32, 2., 3., 4.], [5., 6., 7., 8.]], &dev()).unwrap()
}

/// w: [3, 4].
fn sample_w() -> Tensor {
    Tensor::new(&[[1f32, 0., 2., 1.], [0., 1., 1., 3.], [2., 1., 0., 1.]], &dev()).unwrap()
}

/// bias: [3].
fn sample_b() -> Tensor {
    Tensor::new(&[1f32, 2., 3.], &dev()).unwrap()
}

/// lora_a: [1, 4], lora_b: [3, 1].
fn sample_adapter() -> (Tensor, Tensor) {
    let a = Tensor::new(&[[1f32, 1., 2., 1.]], &dev()).unwrap();
    let b = Tensor::new(&[[1f32], [2.], [3.]], &dev()).unwrap();
    (a, b)
}

fn scalar(v: f32) -> Tensor {
    Tensor::new(v, &dev()).unwrap()
}

/// Expected adapted forward for rank-2 input, computed with plain loops.
fn expected_rank2(
    x: &[Vec<f32>],
    w: &[Vec<f32>],
    bias: &[f32],
    a: &[Vec<f32>],
    b: &[Vec<f32>],
    scale: f32,
) -> Vec<Vec<f32>> {
    let batch = x.len();
    let out = w.len();
    let rank = a.len();
    let mut r = vec![vec![0f32; out]; batch];
    for bi in 0..batch {
        for o in 0..out {
            let mut acc = bias[o];
            for i in 0..x[bi].len() {
                acc += x[bi][i] * w[o][i];
            }
            let mut delta = 0f32;
            for rr in 0..rank {
                let mut xa = 0f32;
                for i in 0..x[bi].len() {
                    xa += x[bi][i] * a[rr][i];
                }
                delta += xa * b[o][rr];
            }
            r[bi][o] = acc + scale * delta;
        }
    }
    r
}

fn to2(t: &Tensor) -> Vec<Vec<f32>> {
    t.to_vec2::<f32>().unwrap()
}

#[test]
fn no_adapter_matches_plain_linear() {
    let unit = LoraLinearRt::new(sample_w(), Some(sample_b()), "base".to_string());
    let y = unit.forward(&sample_x()).unwrap();
    let manual = sample_x()
        .matmul(&sample_w().t().unwrap())
        .unwrap()
        .broadcast_add(&sample_b())
        .unwrap();
    assert_eq!(to2(&y), to2(&manual));
    assert_eq!(y.dims(), &[2, 3]);
}

#[test]
fn adapter_rank2_exact_values() {
    let mut unit = LoraLinearRt::new(sample_w(), Some(sample_b()), "q_proj".to_string());
    let (a, b) = sample_adapter();
    unit.set_adapter(a, b, scalar(2.0));
    let y = unit.forward(&sample_x()).unwrap();
    let expected = expected_rank2(
        &[vec![1., 2., 3., 4.], vec![5., 6., 7., 8.]],
        &[vec![1., 0., 2., 1.], vec![0., 1., 1., 3.], vec![2., 1., 0., 1.]],
        &[1., 2., 3.],
        &[vec![1., 1., 2., 1.]],
        &[vec![1.], vec![2.], vec![3.]],
        2.0,
    );
    assert_eq!(to2(&y), expected);
}

#[test]
fn rank3_matches_per_slice() {
    let mut unit = LoraLinearRt::new(sample_w(), Some(sample_b()), "v_proj".to_string());
    let (a, b) = sample_adapter();
    unit.set_adapter(a, b, scalar(2.0));
    let vals: Vec<f32> = (0..24).map(|v| (v % 7) as f32).collect();
    let x3 = Tensor::from_vec(vals, (2, 3, 4), &dev()).unwrap();
    let y3 = unit.forward(&x3).unwrap();
    assert_eq!(y3.dims(), &[2, 3, 3]);
    let y3v = y3.to_vec3::<f32>().unwrap();
    for i in 0..2 {
        let slice = x3.get(i).unwrap();
        let ys = unit.forward(&slice).unwrap();
        assert_eq!(to2(&ys), y3v[i]);
    }
}

#[test]
fn clear_restores_default() {
    let mut unit = LoraLinearRt::new(sample_w(), Some(sample_b()), "o_proj".to_string());
    let fresh = LoraLinearRt::new(sample_w(), Some(sample_b()), "o_proj".to_string());
    let (a, b) = sample_adapter();
    unit.set_adapter(a, b, scalar(2.0));
    assert_ne!(to2(&unit.forward(&sample_x()).unwrap()), to2(&fresh.forward(&sample_x()).unwrap()));
    unit.clear_adapter();
    assert_eq!(to2(&unit.forward(&sample_x()).unwrap()), to2(&fresh.forward(&sample_x()).unwrap()));
}

#[test]
fn backend_selection_is_deterministic() {
    assert!(matches!(create_backend(DeviceKind::Metal), BackendHandle::Metal(_)));
    assert!(matches!(create_backend(DeviceKind::Cpu), BackendHandle::Cpu(_)));
    assert!(matches!(create_backend(DeviceKind::Cuda), BackendHandle::Cpu(_)));
    assert!(matches!(create_backend(DeviceKind::Metal), BackendHandle::Metal(_)));
}

#[test]
fn cross_backend_agreement() {
    let (a, b) = sample_adapter();
    let s = scalar(2.0);
    let cpu = CpuLoraBackend::new();
    let metal = MetalLoraBackend::new();
    let w = sample_w();
    let bias = sample_b();
    let x = sample_x();
    let y_cpu = cpu
        .forward(&x, &w, Some(&bias), Some(&a), Some(&b), Some(&s))
        .unwrap();
    let y_metal = metal
        .forward(&x, &w, Some(&bias), Some(&a), Some(&b), Some(&s))
        .unwrap();
    assert_eq!(to2(&y_cpu), to2(&y_metal));
}

#[test]
fn cross_backend_agreement_non_contiguous_input() {
    let (a, b) = sample_adapter();
    let s = scalar(2.0);
    let w = sample_w();
    // A transposed tensor: logically [2, 4] but not contiguous in memory.
    let x = Tensor::new(
        &[[1f32, 5.], [2., 6.], [3., 7.], [4., 8.]],
        &dev(),
    )
    .unwrap()
    .t()
    .unwrap();
    assert!(!x.is_contiguous());
    let y_cpu = CpuLoraBackend::new()
        .forward(&x, &w, None, Some(&a), Some(&b), Some(&s))
        .unwrap();
    let y_metal = MetalLoraBackend::new()
        .forward(&x, &w, None, Some(&a), Some(&b), Some(&s))
        .unwrap();
    assert_eq!(to2(&y_cpu), to2(&y_metal));
}

#[test]
fn rank_mismatch_reported() {
    // lora_a has 1 row, lora_b has 2 columns: the shared rank disagrees.
    let a = Tensor::new(&[[1f32, 1., 2., 1.]], &dev()).unwrap();
    let b = Tensor::new(&[[1f32, 1.], [2., 0.], [3., 1.]], &dev()).unwrap();
    let s = scalar(1.0);
    let w = sample_w();
    let x = sample_x();
    let r_cpu = CpuLoraBackend::new().forward(&x, &w, None, Some(&a), Some(&b), Some(&s));
    assert!(r_cpu.is_err());
    let r_metal = MetalLoraBackend::new().forward(&x, &w, None, Some(&a), Some(&b), Some(&s));
    let msg = r_metal.unwrap_err().to_string();
    assert!(msg.contains("xa @ B.T"), "message was: {msg}");
    assert!(msg.contains("[2, 1]"), "message was: {msg}");
    assert!(msg.contains("[2, 3]"), "message was: {msg}");
}

#[test]
fn in_features_mismatch_errors() {
    let unit = LoraLinearRt::new(sample_w(), None, "bad".to_string());
    let x = Tensor::new(&[[1f32, 2., 3., 4., 5.], [5., 6., 7., 8., 9.]], &dev()).unwrap();
    assert!(unit.forward(&x).is_err());
}

#[test]
fn adapter_dtype_is_coerced_to_input() {
    let mut unit = LoraLinearRt::new(sample_w(), Some(sample_b()), "k_proj".to_string());
    let a = Tensor::new(&[[1f64, 1., 2., 1.]], &dev()).unwrap();
    let b = Tensor::new(&[[1f64], [2.], [3.]], &dev()).unwrap();
    unit.set_adapter(a, b, scalar(2.0));
    let y = unit.forward(&sample_x()).unwrap();
    let expected = expected_rank2(
        &[vec![1., 2., 3., 4.], vec![5., 6., 7., 8.]],
        &[vec![1., 0., 2., 1.], vec![0., 1., 1., 3.], vec![2., 1., 0., 1.]],
        &[1., 2., 3.],
        &[vec![1., 1., 2., 1.]],
        &[vec![1.], vec![2.], vec![3.]],
        2.0,
    );
    assert_eq!(to2(&y), expected);
}

#[test]
fn set_adapter_replaces_previous() {
    let mut unit = LoraLinearRt::new(sample_w(), Some(sample_b()), "swap".to_string());
    let (a, b) = sample_adapter();
    unit.set_adapter(a, b, scalar(5.0));
    let a2 = Tensor::new(&[[0f32, 1., 0., 1.]], &dev()).unwrap();
    let b2 = Tensor::new(&[[2f32], [0.], [1.]], &dev()).unwrap();
    unit.set_adapter(a2, b2, scalar(3.0));
    let y = unit.forward(&sample_x()).unwrap();
    let expected = expected_rank2(
        &[vec![1., 2., 3., 4.], vec![5., 6., 7., 8.]],
        &[vec![1., 0., 2., 1.], vec![0., 1., 1., 3.], vec![2., 1., 0., 1.]],
        &[1., 2., 3.],
        &[vec![0., 1., 0., 1.]],
        &[vec![2.], vec![0.], vec![1.]],
        3.0,
    );
    assert_eq!(to2(&y), expected);
}

#[test]
fn zero_scale_equals_base() {
    let mut unit = LoraLinearRt::new(sample_w(), Some(sample_b()), "zero".to_string());
    let fresh = LoraLinearRt::new(sample_w(), Some(sample_b()), "zero".to_string());
    let (a, b) = sample_adapter();
    unit.set_adapter(a, b, scalar(0.0));
    assert_eq!(to2(&unit.forward(&sample_x()).unwrap()), to2(&fresh.forward(&sample_x()).unwrap()));
}

#[test]
fn empty_batch_is_accepted() {
    let unit = LoraLinearRt::new(sample_w(), Some(sample_b()), "empty".to_string());
    let x = Tensor::zeros((0, 4), candle_core::DType::F32, &dev()).unwrap();
    let y = unit.forward(&x).unwrap();
    assert_eq!(y.dims(), &[0, 3]);
}

#[test]
fn name_is_kept() {
    let unit = LoraLinearRt::new(sample_w(), None, "attn.q_proj".to_string());
    assert_eq!(unit.name(), "attn.q_proj");
}

#[test]
fn rank1_input_errors() {
    let unit = LoraLinearRt::new(sample_w(), Some(sample_b()), "r1".to_string());
    let x = Tensor::new(&[1f32, 2., 3., 4.], &dev()).unwrap();
    assert!(unit.forward(&x).is_err());
}

#[test]
fn rank4_without_adapter_matches_slices() {
    let unit = LoraLinearRt::new(sample_w(), Some(sample_b()), "r4".to_string());
    let vals: Vec<f32> = (0..48).map(|v| (v % 5) as f32).collect();
    let x4 = Tensor::from_vec(vals, (2, 2, 3, 4), &dev()).unwrap();
    let y4 = unit.forward(&x4).unwrap();
    assert_eq!(y4.dims(), &[2, 2, 3, 3]);
    for i in 0..2 {
        for j in 0..2 {
            let slice = x4.get(i).unwrap().get(j).unwrap();
            let ys = unit.forward(&slice).unwrap();
            assert_eq!(to2(&ys), y4.get(i).unwrap().get(j).unwrap().to_vec2::<f32>().unwrap());
        }
    }
}

#[test]
fn rank4_with_adapter_errors() {
    let mut unit = LoraLinearRt::new(sample_w(), Some(sample_b()), "r4a".to_string());
    let (a, b) = sample_adapter();
    unit.set_adapter(a, b, scalar(2.0));
    let vals: Vec<f32> = (0..48).map(|v| (v % 5) as f32).collect();
    let x4 = Tensor::from_vec(vals, (2, 2, 3, 4), &dev()).unwrap();
    assert!(unit.forward(&x4).is_err());
}

#[test]
fn zero_leading_dim_rank3_is_rejected() {
    // For rank-3 and rank-4 inputs the restore reshape computes its hole by
    // dividing by the product of the leading dimensions; a zero product is
    // rejected, unlike the zero-batch rank-2 case.
    let unit = LoraLinearRt::new(sample_w(), Some(sample_b()), "zl".to_string());
    let x = Tensor::zeros((0, 5, 4), candle_core::DType::F32, &dev()).unwrap();
    assert!(x.is_contiguous());
    assert!(unit.forward(&x).is_err());
}
