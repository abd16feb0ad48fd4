use magnetar_provider_cpu::kernels::elementwise;
use magnetar_provider_cpu::{
    attention, dequantize_placeholder, dtype_conversion, embedding_lookup, gelu, layout_conversion,
    matmul, quantize_placeholder, residual_add, rmsnorm, rope, silu, softmax_rows, Arithmetic,
    ComputeDType, HostTensor, ReferenceCpuError, ReferenceCpuErrorCode, TensorLayoutKind,
};

struct Host;

impl Arithmetic for Host {
    fn add(&self, x: u32, y: u32) -> u32 {
        (f32::from_bits(x) + f32::from_bits(y)).to_bits()
    }

    fn sub(&self, x: u32, y: u32) -> u32 {
        (f32::from_bits(x) - f32::from_bits(y)).to_bits()
    }

    fn mul(&self, x: u32, y: u32) -> u32 {
        (f32::from_bits(x) * f32::from_bits(y)).to_bits()
    }

    fn div(&self, x: u32, y: u32) -> u32 {
        (f32::from_bits(x) / f32::from_bits(y)).to_bits()
    }

    fn sqrt(&self, x: u32) -> u32 {
        f32::from_bits(x).sqrt().to_bits()
    }

    fn exp(&self, x: u32) -> u32 {
        f32::from_bits(x).exp().to_bits()
    }

    fn tanh(&self, x: u32) -> u32 {
        f32::from_bits(x).tanh().to_bits()
    }

    fn sin_cos(&self, x: u32) -> (u32, u32) {
        let (sin, cos) = f32::from_bits(x).sin_cos();
        (sin.to_bits(), cos.to_bits())
    }

    fn powf(&self, x: u32, y: u32) -> u32 {
        f32::from_bits(x).powf(f32::from_bits(y)).to_bits()
    }

    fn from_integer(&self, n: u64) -> u32 {
        (n as f32).to_bits()
    }

    fn narrow(&self, wide: u64) -> u32 {
        (f64::from_bits(wide) as f32).to_bits()
    }

    fn display(&self, x: u32) -> String {
        format!("{}", f32::from_bits(x))
    }
}

fn tensor(shape: &[u64], data: &[f32]) -> HostTensor {
    HostTensor::new(shape.to_vec(), data.iter().map(|x| x.to_bits()).collect()).unwrap()
}

fn raw(shape: &[u64], data: &[f32]) -> HostTensor {
    HostTensor { shape: shape.to_vec(), data: data.iter().map(|x| x.to_bits()).collect() }
}

fn values(t: &HostTensor) -> Vec<f32> {
    t.data.iter().map(|x| f32::from_bits(*x)).collect()
}

fn close(a: &[f32], b: &[f32]) -> bool {
    a.len() == b.len() && a.iter().zip(b).all(|(x, y)| (x - y).abs() < 1e-5)
}

fn shape_error<T>(r: Result<T, ReferenceCpuError>) -> String {
    match r {
        Ok(_) => panic!("a refusal was expected"),
        Err(e) => {
            assert_eq!(e.code, ReferenceCpuErrorCode::ShapeUnsupported);
            e.reason
        }
    }
}

fn series(rows: u64, cols: u64, seed: f32) -> HostTensor {
    let data: Vec<f32> =
        (0..rows * cols).map(|i| ((i as f32) * 0.37 + seed).sin()).collect();
    tensor(&[rows, cols], &data)
}

fn rows_of(t: &HostTensor, from: u64, to: u64) -> HostTensor {
    let cols = t.shape[1];
    HostTensor {
        shape: vec![to - from, cols],
        data: t.data[(from * cols) as usize..(to * cols) as usize].to_vec(),
    }
}

#[test]
fn a_tensor_holds_as_many_elements_as_its_shape_calls_for() {
    let t = HostTensor::new(vec![2, 3], vec![0; 6]).unwrap();
    assert_eq!(t.rows_cols().unwrap(), (2, 3));
    let e = HostTensor::new(vec![2, 3], vec![0; 5]).unwrap_err();
    assert_eq!(e.reason, "shape [2, 3] expects 6 elements, got 5");
    assert_eq!(e.message(), "reference-cpu-shape-unsupported: shape [2, 3] expects 6 elements, got 5");
    let e = HostTensor::new(vec![u64::MAX, 2], vec![]).unwrap_err();
    assert_eq!(
        e.reason,
        "shape [18446744073709551615, 2] element count overflows the host address space"
    );
    assert_eq!(HostTensor::new(vec![], vec![7]).unwrap().data, vec![7]);
    assert_eq!(
        HostTensor::new(vec![], vec![7]).unwrap().rows_cols().unwrap_err().reason,
        "expected rank-2 tensor, got shape []"
    );
}

#[test]
fn matmul_gives_the_product() {
    let a = tensor(&[2, 2], &[1.0, 2.0, 3.0, 4.0]);
    let b = tensor(&[2, 2], &[5.0, 6.0, 7.0, 8.0]);
    let c = matmul(&Host, &a, &b, false, false).unwrap();
    assert_eq!(c.shape, vec![2, 2]);
    assert_eq!(values(&c), vec![19.0, 22.0, 43.0, 50.0]);
}

#[test]
fn matmul_takes_either_operand_as_its_transpose() {
    let a = tensor(&[2, 3], &[1.0, 2.0, 3.0, 4.0, 5.0, 6.0]);
    let at = tensor(&[3, 2], &[1.0, 4.0, 2.0, 5.0, 3.0, 6.0]);
    let b = tensor(&[3, 2], &[7.0, 8.0, 9.0, 10.0, 11.0, 12.0]);
    let bt = tensor(&[2, 3], &[7.0, 9.0, 11.0, 8.0, 10.0, 12.0]);
    let expected = matmul(&Host, &a, &b, false, false).unwrap();
    assert_eq!(values(&expected), vec![58.0, 64.0, 139.0, 154.0]);
    assert_eq!(matmul(&Host, &at, &b, true, false).unwrap(), expected);
    assert_eq!(matmul(&Host, &a, &bt, false, true).unwrap(), expected);
    assert_eq!(matmul(&Host, &at, &bt, true, true).unwrap(), expected);
}

#[test]
fn the_product_of_the_transposes_in_reverse_is_the_transpose() {
    let a = series(3, 5, 0.1);
    let b = series(5, 4, 0.7);
    let t = matmul(&Host, &a, &b, false, false).unwrap();
    let u = matmul(&Host, &b, &a, true, true).unwrap();
    assert_eq!(u.shape, vec![4, 3]);
    for row in 0..3 {
        for col in 0..4 {
            assert_eq!(u.data[col * 3 + row], t.data[row * 4 + col]);
        }
    }
}

#[test]
fn what_is_not_a_number_stays_so_under_transposition() {
    let a = tensor(&[2, 2], &[f32::NAN, 1.0, 2.0, 3.0]);
    let b = tensor(&[2, 2], &[0.0, 4.0, 5.0, f32::INFINITY]);
    let t = matmul(&Host, &a, &b, false, false).unwrap();
    let u = matmul(&Host, &b, &a, true, true).unwrap();
    let nan = |bits: u32| f32::from_bits(bits).is_nan();
    assert!(nan(t.data[0]) && nan(u.data[0]));
    assert!(nan(t.data[1]) && nan(u.data[2]));
    assert_eq!((t.data[2], u.data[1]), (15.0_f32.to_bits(), 15.0_f32.to_bits()));
    assert_eq!(t.data[3], f32::INFINITY.to_bits());
    assert_eq!(u.data[3], f32::INFINITY.to_bits());
}

#[test]
fn matmul_adds_from_the_left_bit_for_bit() {
    let a = series(3, 5, 0.1);
    let b = series(5, 4, 0.7);
    let c = matmul(&Host, &a, &b, false, false).unwrap();
    for row in 0..3 {
        for col in 0..4 {
            let mut sum = 0.0_f32;
            for inner in 0..5 {
                sum += f32::from_bits(a.data[row * 5 + inner]) * f32::from_bits(b.data[inner * 4 + col]);
            }
            assert_eq!(c.data[row * 4 + col], sum.to_bits());
        }
    }
}

#[test]
fn matmul_leaves_out_no_product() {
    let a = tensor(&[1, 2], &[0.0, 1.0]);
    let b = tensor(&[2, 1], &[f32::NAN, 1.0]);
    assert!(values(&matmul(&Host, &a, &b, false, false).unwrap())[0].is_nan());
}

#[test]
fn matmul_refuses_what_does_not_fit() {
    let a = tensor(&[2, 3], &[0.0; 6]);
    let b = tensor(&[2, 2], &[0.0; 4]);
    let v = tensor(&[4], &[0.0; 4]);
    assert_eq!(
        shape_error(matmul(&Host, &a, &b, false, false)),
        "matmul inner dimension mismatch: 3 vs 2"
    );
    assert_eq!(
        shape_error(matmul(&Host, &v, &b, false, false)),
        "expected rank-2 tensor, got shape [4]"
    );
    assert_eq!(
        shape_error(matmul(&Host, &b, &v, false, false)),
        "expected rank-2 tensor, got shape [4]"
    );
}

#[test]
fn matmul_of_nothing_is_zero() {
    let a = tensor(&[2, 0], &[]);
    let b = tensor(&[0, 3], &[]);
    let c = matmul(&Host, &a, &b, false, false).unwrap();
    assert_eq!(c.shape, vec![2, 3]);
    assert_eq!(c.data, vec![0; 6]);
}

#[test]
fn embedding_copies_the_selected_rows() {
    let table = tensor(&[3, 2], &[1.0, 2.0, 3.0, 4.0, 5.0, 6.0]);
    let ids = tensor(&[4], &[2.0, 0.0, -0.0, 1.0]);
    let out = embedding_lookup(&Host, &table, &ids).unwrap();
    assert_eq!(out.shape, vec![4, 2]);
    assert_eq!(values(&out), vec![5.0, 6.0, 1.0, 2.0, 1.0, 2.0, 3.0, 4.0]);
    let none = embedding_lookup(&Host, &table, &tensor(&[0], &[])).unwrap();
    assert_eq!(none.shape, vec![0, 2]);
}

#[test]
fn embedding_refuses_the_first_id_that_selects_no_row() {
    let table = tensor(&[2, 2], &[1.0, 2.0, 3.0, 4.0]);
    let look = |ids: &[f32]| shape_error(embedding_lookup(&Host, &table, &raw(&[1], ids)));
    assert_eq!(look(&[1.0, -1.0]), "token id -1 is not a non-negative integer");
    assert_eq!(look(&[0.5, -1.0]), "token id 0.5 is not a non-negative integer");
    assert_eq!(look(&[f32::NAN]), "token id NaN is not a non-negative integer");
    assert_eq!(look(&[f32::INFINITY]), "token id inf is not a non-negative integer");
    assert_eq!(look(&[2.0]), "token id 2 exceeds vocabulary size 2");
    assert_eq!(look(&[16777216.0]), "token id 16777216 exceeds vocabulary size 2");
    assert_eq!(look(&[1e30]), "token id 18446744073709551615 exceeds vocabulary size 2");
    assert_eq!(
        shape_error(embedding_lookup(&Host, &tensor(&[1], &[1.0]), &tensor(&[1], &[0.0]))),
        "expected rank-2 tensor, got shape [1]"
    );
}

#[test]
fn rmsnorm_divides_by_the_root_of_the_mean_square() {
    let x = tensor(&[1, 2], &[3.0, 4.0]);
    let w = tensor(&[2], &[1.0, 2.0]);
    let out = rmsnorm(&Host, &x, &w, 1e-6_f32.to_bits()).unwrap();
    let scale = 1.0_f32 / (12.5_f32 + 1e-6).sqrt();
    assert_eq!(out.shape, vec![1, 2]);
    assert_eq!(values(&out), vec![3.0 * scale * 1.0, 4.0 * scale * 2.0]);
}

#[test]
fn rmsnorm_takes_weights_by_column_or_by_element() {
    let x = tensor(&[2, 2], &[3.0, 4.0, 1.0, 1.0]);
    let eps = 1e-6_f32.to_bits();
    let by_vector = rmsnorm(&Host, &x, &tensor(&[2], &[2.0, 3.0]), eps).unwrap();
    let by_row = rmsnorm(&Host, &x, &tensor(&[1, 2], &[2.0, 3.0]), eps).unwrap();
    let by_element =
        rmsnorm(&Host, &x, &tensor(&[2, 2], &[2.0, 3.0, 2.0, 3.0]), eps).unwrap();
    assert_eq!(by_vector, by_row);
    assert_eq!(by_vector, by_element);
    let other = rmsnorm(&Host, &x, &tensor(&[2, 2], &[2.0, 3.0, 4.0, 5.0]), eps).unwrap();
    assert_eq!(other.data[..2], by_vector.data[..2]);
    assert_ne!(other.data[2..], by_vector.data[2..]);
    let cube = tensor(&[1, 2, 2], &[3.0, 4.0, 1.0, 1.0]);
    let flat = rmsnorm(&Host, &cube, &tensor(&[2, 2], &[2.0, 3.0, 2.0, 3.0]), eps).unwrap();
    assert_eq!(flat.shape, vec![1, 2, 2]);
    assert_eq!(flat.data, by_vector.data);
}

#[test]
fn rmsnorm_refuses_what_it_cannot_normalise() {
    let eps = 1e-6_f32.to_bits();
    let x = tensor(&[2, 2], &[1.0; 4]);
    let w = tensor(&[2], &[1.0; 2]);
    assert_eq!(
        shape_error(rmsnorm(&Host, &tensor(&[], &[1.0]), &w, eps)),
        "RMSNorm expects at least one dimension"
    );
    assert_eq!(
        shape_error(rmsnorm(&Host, &tensor(&[2, 0], &[]), &w, eps)),
        "RMSNorm hidden dimension must be non-zero"
    );
    assert_eq!(
        shape_error(rmsnorm(&Host, &raw(&[2, 2], &[1.0; 3]), &w, eps)),
        "RMSNorm data length 3 is not divisible by hidden dimension 2"
    );
    assert_eq!(
        shape_error(rmsnorm(&Host, &x, &tensor(&[3], &[1.0; 3]), eps)),
        "RMSNorm weight shape must be [2], [1, 2], input shape [2, 2], or [2, 2], got [3]"
    );
    assert_eq!(
        shape_error(rmsnorm(&Host, &x, &w, 0.0_f32.to_bits())),
        "RMSNorm epsilon must be positive"
    );
    assert_eq!(
        shape_error(rmsnorm(&Host, &x, &w, (-1.0_f32).to_bits())),
        "RMSNorm epsilon must be positive"
    );
    assert_eq!(
        shape_error(rmsnorm(&Host, &x, &w, f32::NAN.to_bits())),
        "RMSNorm epsilon must be positive"
    );
    assert!(rmsnorm(&Host, &x, &w, f32::INFINITY.to_bits()).is_ok());
    assert_eq!(
        shape_error(rmsnorm(&Host, &raw(&[3, 2], &[1.0; 4]), &w, eps)),
        "shape [3, 2] expects 6 elements, got 4"
    );
}

#[test]
fn rope_rotates_pairs_by_their_position() {
    let base = 10000.0_f32;
    let x = tensor(&[2, 4], &[1.0, 2.0, 3.0, 4.0, 5.0, 6.0, 7.0, 8.0]);
    let out = rope(&Host, &x, base.to_bits(), 1.0_f32.to_bits(), 4, 0).unwrap();
    assert_eq!(out.data[..4], x.data[..4]);
    let mut expected = vec![];
    for pair in 0..2 {
        let frequency = base.powf(-2.0 * (pair as f32) / 4.0);
        let (sin, cos) = (1.0_f32 * frequency).sin_cos();
        let even = 5.0 + 2.0 * pair as f32;
        let odd = even + 1.0;
        expected.push(even * cos - odd * sin);
        expected.push(even * sin + odd * cos);
    }
    assert_eq!(values(&out)[4..], expected[..]);
}

#[test]
fn rope_leaves_the_rest_of_a_row_alone() {
    let x = series(3, 6, 0.2);
    let out = rope(&Host, &x, 10000.0_f32.to_bits(), 0.5_f32.to_bits(), 2, 7).unwrap();
    for row in 0..3 {
        assert_eq!(out.data[row * 6 + 2..(row + 1) * 6], x.data[row * 6 + 2..(row + 1) * 6]);
        assert_ne!(out.data[row * 6..row * 6 + 2], x.data[row * 6..row * 6 + 2]);
    }
}

#[test]
fn rope_of_a_decoded_row_is_that_of_the_whole_sequence() {
    let x = series(5, 4, 0.4);
    let (base, scale) = (10000.0_f32.to_bits(), 1.0_f32.to_bits());
    let whole = rope(&Host, &x, base, scale, 4, 3).unwrap();
    for row in 0..5 {
        let one = rope(&Host, &rows_of(&x, row, row + 1), base, scale, 4, 3 + row).unwrap();
        assert_eq!(one, rows_of(&whole, row, row + 1));
    }
}

#[test]
fn rope_refuses_its_parameters() {
    let x = series(1, 4, 0.0);
    let (base, scale) = (10000.0_f32.to_bits(), 1.0_f32.to_bits());
    for dimension in [0, 3, 6] {
        assert_eq!(
            shape_error(rope(&Host, &x, base, scale, dimension, 0)),
            format!(
                "RoPE dimension {dimension} must be positive, even, and at most the row width 4"
            )
        );
    }
    for bad in [0.0, -1.0, f32::INFINITY, f32::NAN] {
        assert_eq!(
            shape_error(rope(&Host, &x, bad.to_bits(), scale, 4, 0)),
            "RoPE base must be finite and positive"
        );
        assert_eq!(
            shape_error(rope(&Host, &x, base, bad.to_bits(), 4, 0)),
            "RoPE scale must be finite and positive"
        );
    }
    assert_eq!(
        shape_error(rope(&Host, &tensor(&[4], &[0.0; 4]), base, scale, 4, 0)),
        "expected rank-2 tensor, got shape [4]"
    );
    assert_eq!(
        shape_error(rope(&Host, &raw(&[1, 4], &[0.0; 5]), base, scale, 4, 0)),
        "shape [1, 4] expects 4 elements, got 5"
    );
}

#[test]
fn softmax_normalises_each_row() {
    let x = tensor(&[2, 2], &[0.0, 0.0, 1000.0, 1001.0]);
    let out = values(&softmax_rows(&Host, &x).unwrap());
    assert_eq!(out[..2], [0.5, 0.5]);
    let e = (-1.0_f32).exp();
    assert_eq!(out[2..], [e / (e + 1.0), 1.0 / (e + 1.0)]);
    let masked = softmax_rows(&Host, &tensor(&[1, 2], &[f32::NEG_INFINITY, 3.0])).unwrap();
    assert_eq!(values(&masked), vec![0.0, 1.0]);
}

#[test]
fn softmax_refuses_rows_without_a_finite_largest_element() {
    let bad = |row: &[f32]| {
        let mut data = vec![0.0, 0.0];
        data.extend_from_slice(row);
        softmax_rows(&Host, &tensor(&[2, 2], &data)).unwrap_err()
    };
    for row in [
        [f32::NEG_INFINITY, f32::NEG_INFINITY],
        [f32::INFINITY, 0.0],
        [f32::NAN, f32::NAN],
        [f32::NAN, f32::NEG_INFINITY],
    ] {
        let e = bad(&row);
        assert_eq!(e.code, ReferenceCpuErrorCode::ExecutionFailed);
        assert_eq!(e.reason, "softmax row 1 has no finite entry to normalize");
        assert_eq!(e.id(), "reference-cpu-execution-failed");
    }
    assert_eq!(
        shape_error(softmax_rows(&Host, &tensor(&[2], &[0.0, 0.0]))),
        "expected rank-2 tensor, got shape [2]"
    );
    assert_eq!(
        shape_error(softmax_rows(&Host, &raw(&[1, 2], &[0.0, 0.0, 0.0]))),
        "shape [1, 2] expects 2 elements, got 3"
    );
}

#[test]
fn attention_of_one_token_is_its_value() {
    let q = tensor(&[1, 2], &[1.0, 0.0]);
    let v = tensor(&[1, 2], &[5.0, 6.0]);
    let out = attention(&Host, &q, &q, &v, 1, 2, None, None, true).unwrap();
    assert_eq!(values(&out), vec![5.0, 6.0]);
}

fn plain_attention(
    q: &HostTensor,
    k: &HostTensor,
    v: &HostTensor,
    heads: usize,
    kv_heads: usize,
    width: usize,
    window: Option<usize>,
    causal: bool,
) -> Vec<u32> {
    let f = |t: &HostTensor, i: usize| f32::from_bits(t.data[i]);
    let (queries, keys) = (q.shape[0] as usize, k.shape[0] as usize);
    let (qw, kw) = (heads * width, kv_heads * width);
    let scale = 1.0 / (width as f32).sqrt();
    let mut out = vec![0_u32; queries * qw];
    for head in 0..heads {
        let kv_head = head / (heads / kv_heads);
        for query in 0..queries {
            let position = keys - queries + query;
            let seen: Vec<usize> = (0..keys)
                .filter(|key| !causal || *key <= position)
                .filter(|key| window.map_or(true, |w| *key + w > position))
                .collect();
            let scores: Vec<f32> = seen
                .iter()
                .map(|key| {
                    let mut dot = 0.0_f32;
                    for d in 0..width {
                        dot += f(q, query * qw + head * width + d) * f(k, key * kw + kv_head * width + d);
                    }
                    dot * scale
                })
                .collect();
            let max = scores.iter().copied().fold(f32::NEG_INFINITY, f32::max);
            let lifted: Vec<f32> = scores.iter().map(|s| (s - max).exp()).collect();
            let sum: f32 = lifted.iter().sum();
            for d in 0..width {
                let mut total = 0.0_f32;
                for (weight, key) in lifted.iter().zip(&seen) {
                    total += (weight / sum) * f(v, key * kw + kv_head * width + d);
                }
                out[query * qw + head * width + d] = total.to_bits();
            }
        }
    }
    out
}

#[test]
fn attention_is_the_weighted_sum_of_the_values_that_a_query_sees() {
    let q = series(4, 8, 0.1);
    let k = series(6, 4, 0.5);
    let v = series(6, 4, 0.9);
    let cases = [(None, true), (None, false), (Some(1), true), (Some(3), true), (Some(100), true)];
    for (window, causal) in cases {
        let out = attention(&Host, &q, &k, &v, 4, 2, Some(2), window, causal).unwrap();
        assert_eq!(out.shape, vec![4, 8]);
        let expected =
            plain_attention(&q, &k, &v, 4, 2, 2, window.map(|w| w as usize), causal);
        assert_eq!(out.data, expected);
    }
}

#[test]
fn attention_of_a_decoded_query_is_that_of_the_whole_sequence() {
    let q = series(5, 4, 0.3);
    let k = series(5, 4, 0.6);
    let v = series(5, 4, 0.8);
    for window in [None, Some(2)] {
        let whole = attention(&Host, &q, &k, &v, 2, 2, None, window, true).unwrap();
        for row in 0..5 {
            let one = attention(
                &Host,
                &rows_of(&q, row, row + 1),
                &rows_of(&k, 0, row + 1),
                &rows_of(&v, 0, row + 1),
                2,
                2,
                None,
                window,
                true,
            )
            .unwrap();
            assert_eq!(one, rows_of(&whole, row, row + 1));
        }
    }
}

#[test]
fn attention_of_the_last_queries_is_the_last_rows() {
    let q = series(4, 4, 0.3);
    let k = series(4, 4, 0.6);
    let v = series(4, 4, 0.8);
    for causal in [true, false] {
        let whole = attention(&Host, &q, &k, &v, 2, 2, None, None, causal).unwrap();
        let last = rows_of(&q, 1, 4);
        assert_eq!(
            attention(&Host, &last, &k, &v, 2, 2, None, None, causal).unwrap(),
            rows_of(&whole, 1, 4)
        );
    }
}

#[test]
fn keys_that_a_query_does_not_see_play_no_part() {
    let q = series(3, 4, 0.3);
    let k = series(5, 4, 0.6);
    let v = series(5, 4, 0.8);
    let out = attention(&Host, &q, &k, &v, 2, 2, None, Some(2), true).unwrap();
    for query in 0..3_u64 {
        let seen = query + 1..query + 3;
        let elsewhere = |t: &HostTensor| {
            let mut changed = t.clone();
            for row in (0..5_u64).filter(|row| !seen.contains(row)) {
                for col in 0..4 {
                    changed.data[(row * 4 + col) as usize] = 9.0_f32.to_bits();
                }
            }
            changed
        };
        let other =
            attention(&Host, &q, &elsewhere(&k), &elsewhere(&v), 2, 2, None, Some(2), true).unwrap();
        assert_eq!(rows_of(&other, query, query + 1), rows_of(&out, query, query + 1));
        assert_ne!(other, out);
    }
}

#[test]
fn a_window_as_long_as_the_keys_is_no_window() {
    let q = series(3, 4, 0.3);
    let k = series(5, 4, 0.6);
    let v = series(5, 4, 0.8);
    let whole = attention(&Host, &q, &k, &v, 2, 2, None, None, true).unwrap();
    for window in [5, 6, u64::MAX] {
        let out = attention(&Host, &q, &k, &v, 2, 2, None, Some(window), true).unwrap();
        assert_eq!(out, whole);
    }
    assert_ne!(attention(&Host, &q, &k, &v, 2, 2, None, Some(4), true).unwrap(), whole);
}

#[test]
fn attention_groups_share_their_keys_and_values() {
    let q = series(2, 4, 0.2);
    let k = series(2, 2, 0.4);
    let v = series(2, 2, 0.6);
    let twice = |t: &HostTensor| {
        let mut data = vec![];
        for row in 0..2 {
            data.extend_from_slice(&t.data[row * 2..row * 2 + 2]);
            data.extend_from_slice(&t.data[row * 2..row * 2 + 2]);
        }
        HostTensor { shape: vec![2, 4], data }
    };
    assert_eq!(
        attention(&Host, &q, &k, &v, 2, 2, Some(1), None, true).unwrap(),
        attention(&Host, &q, &twice(&k), &twice(&v), 2, 2, None, None, true).unwrap()
    );
}

#[test]
fn attention_refuses_its_parameters() {
    let q = series(2, 4, 0.1);
    let k = series(2, 4, 0.2);
    let call = |q: &HostTensor, k: &HostTensor, v: &HostTensor, h, d, kv, w, c| {
        shape_error(attention(&Host, q, k, v, h, d, kv, w, c))
    };
    assert_eq!(
        call(&q, &k, &series(3, 4, 0.0), 2, 2, None, None, true),
        "shape mismatch: [2, 4] vs [3, 4]"
    );
    for (h, d, kv) in [(0, 2, None), (2, 0, None), (2, 2, Some(0))] {
        assert_eq!(
            call(&q, &k, &k, h, d, kv, None, true),
            "head_count, kv_head_count, and head_dimension must all be positive"
        );
    }
    assert_eq!(
        call(&q, &k, &k, 3, 2, Some(2), None, true),
        "head_count 3 must be an exact multiple of kv_head_count 2"
    );
    assert_eq!(
        call(&q, &k, &k, 2, 2, None, Some(0), true),
        "window_size must be positive; a zero window admits no keys"
    );
    assert_eq!(
        call(&q, &k, &k, 2, 2, None, Some(1), false),
        "window_size is only defined for causal attention"
    );
    let v = tensor(&[4], &[0.0; 4]);
    assert_eq!(
        call(&v, &k, &k, 2, 2, None, None, true),
        "expected rank-2 tensor, got shape [4]"
    );
    assert_eq!(
        call(&q, &v, &v, 2, 2, None, None, true),
        "expected rank-2 tensor, got shape [4]"
    );
    assert_eq!(
        call(&series(3, 4, 0.0), &k, &k, 2, 2, None, None, true),
        "q sequence length 3 cannot exceed k/v sequence length 2"
    );
    assert_eq!(
        call(&q, &k, &k, 2, 3, None, None, true),
        "head_count * head_dimension must equal q row width 4, got 2 * 3"
    );
    assert_eq!(
        call(&q, &k, &k, 2, 2, Some(1), None, true),
        "kv_head_count * head_dimension must equal k/v row width 4, got 1 * 2"
    );
}

#[test]
fn silu_is_the_product_with_the_sigmoid() {
    let x = tensor(&[3], &[0.0, 1.0, -2.0]);
    let out = silu(&Host, &x);
    assert_eq!(out.shape, vec![3]);
    let expected: Vec<f32> =
        [0.0_f32, 1.0, -2.0].iter().map(|x| x * (1.0 / (1.0 + (-x).exp()))).collect();
    assert_eq!(values(&out), expected);
    assert!(close(&values(&out), &[0.0, 0.7310586, -0.23840584]));
}

#[test]
fn gelu_is_the_tanh_approximation() {
    let x = tensor(&[3], &[0.0, 1.0, -2.0]);
    let out = gelu(&Host, &x);
    let expected: Vec<f32> = [0.0_f32, 1.0, -2.0]
        .iter()
        .map(|&x| 0.5 * x * (1.0 + (0.797_884_6_f32 * (x + 0.044715 * x * x * x)).tanh()))
        .collect();
    assert_eq!(values(&out), expected);
    assert!(close(&values(&out), &[0.0, 0.841192, -0.0454023]));
}

#[test]
fn sums_and_products_go_element_by_element() {
    let a = tensor(&[2], &[1.0, 2.0]);
    let b = tensor(&[2], &[3.0, 4.0]);
    assert_eq!(values(&elementwise::add(&Host, &a, &b).unwrap()), vec![4.0, 6.0]);
    assert_eq!(values(&elementwise::mul(&Host, &a, &b).unwrap()), vec![3.0, 8.0]);
    assert_eq!(
        residual_add(&Host, &a, &b).unwrap(),
        elementwise::add(&Host, &a, &b).unwrap()
    );
    let short = raw(&[2], &[10.0]);
    assert_eq!(values(&elementwise::add(&Host, &a, &short).unwrap()), vec![11.0]);
    let row = tensor(&[1, 2], &[3.0, 4.0]);
    assert_eq!(
        shape_error(elementwise::add(&Host, &a, &row)),
        "shape mismatch: [2] vs [1, 2]"
    );
    assert_eq!(
        shape_error(elementwise::mul(&Host, &row, &a)),
        "shape mismatch: [1, 2] vs [2]"
    );
}

#[test]
fn conversions_are_the_identity_or_refused() {
    let x = tensor(&[1], &[1.0]);
    let f32s = ComputeDType::Float32;
    assert_eq!(dtype_conversion(&x, f32s, f32s).unwrap(), x);
    let e = dtype_conversion(&x, f32s, ComputeDType::BrainFloat16).unwrap_err();
    assert_eq!(e.code, ReferenceCpuErrorCode::DTypeUnsupported);
    assert_eq!(
        e.reason,
        "Reference CPU only supports explicit f32; requested Float32 -> BrainFloat16"
    );
    assert_eq!(
        dtype_conversion(&x, ComputeDType::SInt8, ComputeDType::SInt8).unwrap_err().reason,
        "Reference CPU only supports explicit f32; requested SInt8 -> SInt8"
    );
    let flat = TensorLayoutKind::Contiguous;
    assert_eq!(layout_conversion(&x, flat, flat).unwrap(), x);
    let e = layout_conversion(&x, flat, TensorLayoutKind::Strided).unwrap_err();
    assert_eq!(e.code, ReferenceCpuErrorCode::LayoutUnsupported);
    assert_eq!(
        e.reason,
        "strided layout conversion is a defined placeholder, not yet implemented (requested Contiguous -> Strided)"
    );
    assert_eq!(
        layout_conversion(&x, TensorLayoutKind::Strided, flat).unwrap_err().reason,
        "strided layout conversion is a defined placeholder, not yet implemented (requested Strided -> Contiguous)"
    );
    assert_eq!(
        layout_conversion(&x, TensorLayoutKind::Paged, flat).unwrap_err().reason,
        "Reference CPU only supports contiguous layout; requested Paged -> Contiguous"
    );
}

#[test]
fn quantized_formats_are_refused() {
    for e in [quantize_placeholder(), dequantize_placeholder()] {
        assert_eq!(e.code, ReferenceCpuErrorCode::DTypeUnsupported);
        assert_eq!(
            e.message(),
            "reference-cpu-dtype-unsupported: Reference CPU has no quantized kernel implementation"
        );
    }
}
