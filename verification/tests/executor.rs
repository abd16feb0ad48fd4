use magnetar_provider_cpu::{
    Arithmetic, ArtifactBinding, CapabilityBinding, CapabilityVersion, ComputeDType, FallbackClass, FallbackPolicyContext, HostTensor,
    KernelError, KernelErrorCode, KernelId, KernelImplementationFamily, KernelInvocation,
    KernelObservation, KernelObservationKind, KernelResult, KernelResultStatus,
    MemoryAction, MemoryAllocationClass, MemoryAllocationOwner, MemoryAllocationRequest,
    MemoryLedger, MemoryPlacement, MemorySession, OperatorAttributeValue, OperatorFamily,
    OperatorId, ProviderCancellationOutcome, ProviderExecutionErrorCode, ProviderExecutionHandle,
    ProviderExecutionPhase, ReferenceCpuErrorCode, ReferenceCpuExecutor, ResourceAffinity,
    SchedulingState, Table, TensorLayoutKind, TensorResourceDescriptor,
    TensorResidency, TensorResourceFacts, TensorValue, REFERENCE_CPU_PROVIDER_NAME,
};

struct Host;

impl Arithmetic for Host {
    fn add(&self, x: u32, y: u32) -> u32 {
        (f32::from_bits(x) + f32::from_bits(y)).to_bits()
    }

    fn sub(&self, x: u32, y: u32) -> u32 {
        (f32::from_bits(x) - f32::from_bits(y)).to_bits()
    }

    fn mul(&self, x: u32, y: u32) -> u32 {
        (f32::from_bits(x) * f32::from_bits(y)).to_bits()
    }

    fn div(&self, x: u32, y: u32) -> u32 {
        (f32::from_bits(x) / f32::from_bits(y)).to_bits()
    }

    fn sqrt(&self, x: u32) -> u32 {
        f32::from_bits(x).sqrt().to_bits()
    }

    fn exp(&self, x: u32) -> u32 {
        f32::from_bits(x).exp().to_bits()
    }

    fn tanh(&self, x: u32) -> u32 {
        f32::from_bits(x).tanh().to_bits()
    }

    fn sin_cos(&self, x: u32) -> (u32, u32) {
        let (sin, cos) = f32::from_bits(x).sin_cos();
        (sin.to_bits(), cos.to_bits())
    }

    fn powf(&self, x: u32, y: u32) -> u32 {
        f32::from_bits(x).powf(f32::from_bits(y)).to_bits()
    }

    fn from_integer(&self, n: u64) -> u32 {
        (n as f32).to_bits()
    }

    fn narrow(&self, wide: u64) -> u32 {
        (f64::from_bits(wide) as f32).to_bits()
    }

    fn display(&self, x: u32) -> String {
        format!("{}", f32::from_bits(x))
    }
}

fn tensor(shape: &[u64], data: &[f32]) -> HostTensor {
    HostTensor::new(shape.to_vec(), data.iter().map(|x| x.to_bits()).collect()).unwrap()
}

fn raw(shape: &[u64], data: &[f32]) -> HostTensor {
    HostTensor { shape: shape.to_vec(), data: data.iter().map(|x| x.to_bits()).collect() }
}

fn values(t: &HostTensor) -> Vec<f32> {
    t.data.iter().map(|x| f32::from_bits(*x)).collect()
}

fn kernel(name: &str) -> KernelId {
    KernelId {
        provider: REFERENCE_CPU_PROVIDER_NAME.to_string(),
        name: name.to_string(),
        version: CapabilityVersion { major: 1, minor: 0, patch: 0 },
        operator: OperatorId {
            namespace: "magnetar:operator".to_string(),
            name: name.to_string(),
            version: 1,
            family: OperatorFamily::Tensor,
        },
        operator_versions: (1, 1),
        family: KernelImplementationFamily::CpuScalar,
        conformance_profile: None,
    }
}

fn output(id: &str, byte_size: Result<u64, &str>) -> TensorResourceDescriptor {
    TensorResourceDescriptor {
        id: id.to_string(),
        byte_size: match byte_size {
            Ok(n) => Ok(n),
            Err(why) => Err(why.to_string()),
        },
        affinity: bound(id),
    }
}

fn bound(id: &str) -> ResourceAffinity {
    ResourceAffinity {
        provider: Some(REFERENCE_CPU_PROVIDER_NAME.to_string()),
        device: Some("reference-cpu:host:0".to_string()),
        capabilities: vec![CapabilityBinding {
            id: format!("capability of {id}"),
            version: CapabilityVersion { major: 1, minor: 2, patch: 3 },
        }],
        artifacts: vec![ArtifactBinding {
            role: "weights".to_string(),
            fingerprint: format!("fingerprint of {id}"),
        }],
        execution_context: Some(7),
        group: Some(id.len() as u64),
        fallback: FallbackClass::Restartable,
    }
}

fn invocation(name: &str, inputs: &[&str]) -> KernelInvocation {
    KernelInvocation {
        id: "run".to_string(),
        kernel: kernel(name),
        inputs: inputs.iter().map(|x| x.to_string()).collect(),
        outputs: vec![output("out", Ok(16))],
        attributes: Table::new(),
        deadline_millis: None,
    }
}

fn with(mut inv: KernelInvocation, key: &str, value: OperatorAttributeValue) -> KernelInvocation {
    let _ = inv.attributes.insert(key.to_string(), value);
    inv
}

fn integer(n: i64) -> OperatorAttributeValue {
    OperatorAttributeValue::Integer(n)
}

fn text(s: &str) -> OperatorAttributeValue {
    OperatorAttributeValue::Text(s.to_string())
}

fn float(x: f64) -> OperatorAttributeValue {
    OperatorAttributeValue::Float(x.to_bits())
}

fn filled() -> ReferenceCpuExecutor {
    let mut executor = ReferenceCpuExecutor::new();
    executor.write_tensor("a".to_string(), tensor(&[2, 2], &[1.0, 2.0, 3.0, 4.0]));
    executor.write_tensor("b".to_string(), tensor(&[2, 2], &[5.0, 6.0, 7.0, 8.0]));
    executor.write_tensor("v".to_string(), tensor(&[2], &[1.0, 1.0]));
    executor
}

fn run(executor: &mut ReferenceCpuExecutor, inv: &KernelInvocation) -> KernelResult {
    assert!(executor.is_ready(&Host, inv, false));
    executor.execute_invocation(&Host, inv, Ok(()), false)
}

fn succeeds(inv: &KernelInvocation) -> HostTensor {
    let mut executor = filled();
    let r = run(&mut executor, inv);
    assert_eq!(r.status, KernelResultStatus::Succeeded);
    assert_eq!(r.error, None);
    assert_eq!(r.invocation, "run");
    assert_eq!(r.output_readiness.len(), 1);
    assert_eq!(r.output_readiness[0].id, "out");
    assert!(r.output_readiness[0].ready);
    assert_eq!(r.updated_resources, vec![output("out", Ok(16))]);
    let kinds: Vec<KernelObservationKind> =
        executor.observations().iter().map(|o| o.kind).collect();
    assert_eq!(
        kinds,
        vec![
            KernelObservationKind::KernelDispatchStarted,
            KernelObservationKind::KernelDispatchCompleted
        ]
    );
    executor.read_tensor("out").unwrap()
}

fn fails(inv: &KernelInvocation) -> (KernelErrorCode, String) {
    let mut executor = filled();
    let r = run(&mut executor, inv);
    failed_with(&mut executor, r)
}

fn failed_with(executor: &mut ReferenceCpuExecutor, r: KernelResult) -> (KernelErrorCode, String) {
    assert_eq!(r.status, KernelResultStatus::Failed);
    assert!(r.updated_resources.is_empty());
    assert!(r.output_readiness.is_empty());
    assert_eq!(executor.read_tensor("out"), None);
    assert_eq!(executor.read_tensor("a").unwrap().data.len(), 4);
    let e = r.error.unwrap();
    let observations = executor.observations();
    let last = &observations[observations.len() - 1];
    assert_eq!(last.kind, KernelObservationKind::KernelDispatchFailed);
    assert_eq!(last.redacted_metadata[0].key, "error");
    assert_eq!(last.redacted_metadata[0].value, e.id());
    (e.code, e.detail)
}

#[test]
fn a_read_gives_back_what_was_written() {
    let mut executor = ReferenceCpuExecutor::default();
    assert_eq!(executor.read_tensor("x"), None);
    executor.write_tensor("x".to_string(), tensor(&[1], &[1.0]));
    executor.write_tensor("y".to_string(), tensor(&[1], &[2.0]));
    executor.write_tensor("x".to_string(), tensor(&[1], &[3.0]));
    assert_eq!(values(&executor.read_tensor("x").unwrap()), vec![3.0]);
    assert_eq!(values(&executor.read_tensor("y").unwrap()), vec![2.0]);
    assert!(executor.release_tensor("x"));
    assert!(!executor.release_tensor("x"));
    assert_eq!(executor.read_tensor("x"), None);
    assert_eq!(values(&executor.read_tensor("y").unwrap()), vec![2.0]);
}

#[test]
fn an_admitted_write_gives_back_the_memory_that_it_replaces() {
    let mut executor = ReferenceCpuExecutor::new();
    let t = |x: f32| tensor(&[1], &[x]);
    let class = MemoryAllocationClass::Tensor;
    let mut write = |ledger: Ledger, id: &str, x: f32| {
        let owner = MemoryAllocationOwner::Runtime;
        executor.write_tensor_admitted(ledger, id.to_string(), t(x), class, owner)
    };
    let (r, ledger) = write(Ledger::new(None), "x", 1.0);
    assert_eq!(r, Ok(()));
    let (r, ledger) = write(ledger, "y", 2.0);
    assert_eq!(r, Ok(()));
    assert!(ledger.log.iter().all(|entry| entry == "allocate 4"));
    let (r, ledger) = write(Ledger { full: true, ..ledger }, "x", 3.0);
    assert_eq!(r, Err(Full));
    assert_eq!(ledger.log.len(), 3);
    assert_eq!(values(&executor.read_tensor("x").unwrap()), vec![1.0]);
    let (r, ledger) = executor.write_tensor_admitted(
        Ledger { full: false, ..ledger },
        "x".to_string(),
        t(4.0),
        class,
        MemoryAllocationOwner::Runtime,
    );
    assert_eq!(r, Ok(()));
    assert_eq!(ledger.log[3..], ["allocate 4", "release 101"]);
    assert_eq!(values(&executor.read_tensor("x").unwrap()), vec![4.0]);
    let (present, ledger) = executor.release_admitted_tensor(ledger, "x");
    assert!(present);
    let (present, ledger) = executor.release_admitted_tensor(ledger, "x");
    assert!(!present);
    executor.write_tensor("z".to_string(), t(5.0));
    let (present, ledger) = executor.release_admitted_tensor(ledger, "z");
    assert!(present);
    let (present, ledger) = executor.release_admitted_tensor(ledger, "y");
    assert!(present);
    assert_eq!(ledger.log[5..], ["release 103", "release 102"]);
}

#[test]
fn a_value_without_elements_is_not_written() {
    let mut executor = ReferenceCpuExecutor::new();
    let class = MemoryAllocationClass::Tensor;
    let own = || MemoryAllocationOwner::Runtime;
    executor.write_tensor_value("x".to_string(), TensorValue::Opaque);
    assert_eq!(executor.read_tensor_value("x"), None);
    let (r, ledger) = executor.write_tensor_value_admitted(
        Ledger::new(None),
        "x".to_string(),
        TensorValue::Opaque,
        class,
        own(),
    );
    assert_eq!(r, Ok(()));
    assert!(ledger.log.is_empty());
    assert_eq!(executor.read_tensor_value("x"), None);
    let t = tensor(&[1], &[1.0]);
    executor.write_tensor_value("x".to_string(), TensorValue::Host(t.clone()));
    assert_eq!(executor.read_tensor_value("x"), Some(TensorValue::Host(t.clone())));
    let (r, ledger) = executor.write_tensor_value_admitted(
        ledger,
        "y".to_string(),
        TensorValue::Host(t.clone()),
        class,
        own(),
    );
    assert_eq!(r, Ok(()));
    assert_eq!(ledger.log, ["allocate 4"]);
    assert_eq!(executor.read_tensor_value("y"), Some(TensorValue::Host(t.clone())));
    let (r, _) = executor.write_tensor_value_admitted(
        Ledger { full: true, ..ledger },
        "y".to_string(),
        TensorValue::Host(tensor(&[1], &[2.0])),
        class,
        own(),
    );
    assert_eq!(r, Err(Full));
    assert_eq!(executor.read_tensor_value("y"), Some(TensorValue::Host(t)));
}

#[test]
fn memory_is_asked_for_by_the_byte() {
    let mut executor = ReferenceCpuExecutor::new();
    let own = REFERENCE_CPU_PROVIDER_NAME.to_string();
    let (r, ledger) = executor.write_tensor_admitted(
        Ledger::new(None),
        "x".to_string(),
        tensor(&[3], &[1.0, 2.0, 3.0]),
        MemoryAllocationClass::KvCache,
        MemoryAllocationOwner::Runtime,
    );
    assert_eq!(r, Ok(()));
    assert_eq!(
        ledger.asked,
        Some(MemoryAllocationRequest {
            class: MemoryAllocationClass::KvCache,
            size_bytes: 12,
            placement: MemoryPlacement::ProviderOwnedOpaque(own.clone()),
            owner: MemoryAllocationOwner::Runtime,
            affinity: None,
        })
    );
    let (r, ledger) = executor.allocate_workspace(ledger, 1024);
    assert_eq!(r, Ok(102));
    assert_eq!(
        ledger.asked,
        Some(MemoryAllocationRequest {
            class: MemoryAllocationClass::TemporaryWorkspace,
            size_bytes: 1024,
            placement: MemoryPlacement::HostOrdinary,
            owner: MemoryAllocationOwner::Provider(own),
            affinity: None,
        })
    );
    let (r, _) = executor.allocate_workspace(Ledger { full: true, ..ledger }, 1);
    assert_eq!(r, Err(Full));
}

#[test]
fn fallback_is_observed() {
    let mut executor = ReferenceCpuExecutor::new();
    let allowed = FallbackPolicyContext::new(true);
    let free = ResourceAffinity::new(FallbackClass::Transparent);
    let pinned = ResourceAffinity::new(FallbackClass::ProviderPinned);
    assert!(executor.evaluate_fallback_observed(&kernel("add"), &free, &allowed).is_ok());
    let e = executor.evaluate_fallback_observed(&kernel("add"), &pinned, &allowed).unwrap_err();
    assert_eq!(e.code, ReferenceCpuErrorCode::FallbackDenied);
    assert_eq!(e.reason, "Resource Affinity forbids host movement");
    let o = executor.observations();
    let kinds: Vec<KernelObservationKind> = o.iter().map(|o| o.kind).collect();
    assert_eq!(
        kinds,
        vec![
            KernelObservationKind::KernelFallbackConsidered,
            KernelObservationKind::KernelFallbackUsed,
            KernelObservationKind::KernelFallbackConsidered,
            KernelObservationKind::KernelFallbackFailed
        ]
    );
    let key = "magnetar:provider/reference-cpu:add@1.0.0:magnetar:operator/add@1";
    assert!(o.iter().all(|o| o.kernel.as_deref() == Some(key)));
    assert_eq!(o[3].redacted_metadata[0].value, "reference-cpu-fallback-denied");
}

#[test]
fn the_kernels_conform() {
    let facts = TensorResourceFacts {
        descriptor_valid: true,
        host_visible: true,
        lifecycle_ok: true,
        ready: true,
    };
    let mut executor = ReferenceCpuExecutor::new();
    let report = executor.run_conformance_checks(&Host, &facts);
    assert_eq!(ReferenceCpuExecutor::new().run_conformance_checks(&Host, &facts), report.clone());
    assert_eq!(report.profile, "reference-cpu-conformance-v1");
    let names: Vec<&str> = report.checks.iter().map(|c| c.name).collect();
    assert_eq!(
        names,
        vec![
            "matmul-known-output",
            "embedding-known-output",
            "rmsnorm-known-output",
            "rope-baseline-known-output",
            "attention-single-token-known-output",
            "softmax-uniform-input",
            "silu-zero-input",
            "add-known-output",
            "mul-known-output",
            "residual-add-known-output",
            "dtype-conversion-f32-explicit",
            "layout-conversion-contiguous-explicit",
            "tensor-resource-metadata-and-readiness"
        ]
    );
    for check in &report.checks {
        assert!(check.passed, "{}", check.name);
        assert_eq!(check.detail, None);
    }
    assert!(report.is_conformant());
    let o = executor.observations();
    assert_eq!(o.len(), 1);
    assert_eq!(o[0].kind, KernelObservationKind::KernelConformanceResult);
    let metadata: Vec<(&str, &str)> = o[0]
        .redacted_metadata
        .iter()
        .map(|m| (m.key.as_str(), m.value.as_str()))
        .collect();
    assert_eq!(
        metadata,
        vec![("profile", "reference-cpu-conformance-v1"), ("passed", "true"), ("checks", "13")]
    );
}

#[test]
fn a_failed_check_makes_the_report_fail() {
    let facts = TensorResourceFacts {
        descriptor_valid: true,
        host_visible: false,
        lifecycle_ok: true,
        ready: false,
    };
    let mut executor = ReferenceCpuExecutor::new();
    let report = executor.run_conformance_checks(&Host, &facts);
    assert!(!report.is_conformant());
    assert_eq!(
        report.checks[12].detail.as_deref(),
        Some("descriptor_valid=true host_visible=false lifecycle_ok=true ready=false")
    );
    assert_eq!(executor.observations()[0].redacted_metadata[1].value, "false");
}

#[test]
fn every_kernel_can_be_invoked() {
    assert_eq!(
        values(&succeeds(&invocation("matmul", &["a", "b"]))),
        vec![19.0, 22.0, 43.0, 50.0]
    );
    let transposed = with(
        invocation("matmul", &["a", "b"]),
        "transpose_a",
        OperatorAttributeValue::Boolean(true),
    );
    assert_eq!(values(&succeeds(&transposed)), vec![26.0, 30.0, 38.0, 44.0]);
    let transposed = with(
        invocation("matmul", &["a", "b"]),
        "transpose_b",
        OperatorAttributeValue::Boolean(true),
    );
    assert_eq!(values(&succeeds(&transposed)), vec![17.0, 23.0, 39.0, 53.0]);
    assert_eq!(
        values(&succeeds(&invocation("embedding", &["a", "v"]))),
        vec![3.0, 4.0, 3.0, 4.0]
    );
    let normal = values(&succeeds(&invocation("rmsnorm", &["a", "v"])));
    let scale = 1.0_f32 / (2.5_f32 + 1e-6).sqrt();
    assert_eq!(normal[..2], [scale, 2.0 * scale]);
    let rotated = with(invocation("rope", &["a"]), "dimension", integer(2));
    let (sin, cos) = 1.0_f32.sin_cos();
    assert_eq!(
        values(&succeeds(&rotated)),
        vec![1.0, 2.0, 3.0 * cos - 4.0 * sin, 3.0 * sin + 4.0 * cos]
    );
    let attended = with(invocation("attention", &["a", "a", "b"]), "head_count", integer(1));
    let attended = with(attended, "head_dimension", integer(2));
    let attended = with(attended, "causal", OperatorAttributeValue::Boolean(true));
    assert_eq!(values(&succeeds(&attended))[..2], [5.0, 6.0]);
    let soft = values(&succeeds(&invocation("softmax", &["a"])));
    assert!((soft[0] + soft[1] - 1.0).abs() < 1e-6);
    let silu = succeeds(&invocation("silu", &["a"]));
    let gelu = succeeds(&invocation("gelu", &["a"]));
    assert_ne!(silu, gelu);
    assert_eq!(succeeds(&with(invocation("activation", &["a"]), "kind", text("silu"))), silu);
    assert_eq!(succeeds(&with(invocation("activation", &["a"]), "kind", text("gelu"))), gelu);
    assert_eq!(
        values(&succeeds(&invocation("add", &["a", "b"]))),
        vec![6.0, 8.0, 10.0, 12.0]
    );
    assert_eq!(
        values(&succeeds(&invocation("mul", &["a", "b"]))),
        vec![5.0, 12.0, 21.0, 32.0]
    );
    assert_eq!(
        values(&succeeds(&invocation("residual-add", &["a", "b"]))),
        vec![6.0, 8.0, 10.0, 12.0]
    );
    for name in ["dtype-conversion", "layout-conversion"] {
        assert_eq!(values(&succeeds(&invocation(name, &["a"]))), vec![1.0, 2.0, 3.0, 4.0]);
    }
}

#[test]
fn numeric_attributes_replace_the_defaults() {
    let inv = with(invocation("rmsnorm", &["a", "v"]), "epsilon", float(1.5));
    let scale = 1.0_f32 / (2.5_f32 + 1.5).sqrt();
    assert_eq!(values(&succeeds(&inv))[..2], [scale, 2.0 * scale]);
    let inv = with(invocation("rmsnorm", &["a", "v"]), "epsilon", float(-1.0));
    assert_eq!(
        fails(&inv),
        (
            KernelErrorCode::KernelShapeUnsupported,
            "RMSNorm epsilon must be positive".to_string()
        )
    );
    let inv = with(invocation("rope", &["a"]), "dimension", integer(2));
    let inv = with(inv, "scale", float(0.5));
    let inv = with(inv, "base", float(3.0));
    let inv = with(inv, "position_offset", integer(4));
    let (sin, cos) = (4.0_f32 * 0.5).sin_cos();
    assert_eq!(
        values(&succeeds(&inv))[..2],
        [1.0 * cos - 2.0 * sin, 1.0 * sin + 2.0 * cos]
    );
}

#[test]
fn attributes_that_are_not_implemented_are_refused() {
    let unsupported = |inv: &KernelInvocation, detail: &str| {
        assert_eq!(
            fails(inv),
            (KernelErrorCode::KernelAttributeUnsupported, detail.to_string())
        );
    };
    let rope = || with(invocation("rope", &["a"]), "dimension", integer(2));
    unsupported(&invocation("rope", &["a"]), "dimension");
    unsupported(&with(invocation("rope", &["a"]), "dimension", integer(-2)), "dimension");
    unsupported(
        &with(rope(), "position_mode", text("learned")),
        "position_mode 'learned' is not implemented",
    );
    let _ = succeeds(&with(rope(), "position_mode", text("sequential")));
    unsupported(
        &with(rope(), "position_offset", integer(-1)),
        "position_offset -1 must not be negative",
    );
    unsupported(
        &with(rope(), "position_offset", integer(i64::MIN)),
        "position_offset -9223372036854775808 must not be negative",
    );
    unsupported(
        &with(rope(), "position_offset", text("1")),
        "position_offset must be an integer",
    );
    let attention = || invocation("attention", &["a", "a", "b"]);
    unsupported(&attention(), "head_count");
    let attention = || with(attention(), "head_count", integer(1));
    unsupported(&attention(), "head_dimension");
    let attention = || with(attention(), "head_dimension", integer(2));
    unsupported(
        &with(attention(), "attention_mask_kind", text("block")),
        "attention_mask_kind 'block' is not implemented",
    );
    unsupported(
        &with(attention(), "attention_mask_kind", text("causal")),
        "attention_mask_kind 'causal' is inconsistent with causal=false",
    );
    let causal = || with(attention(), "causal", OperatorAttributeValue::Boolean(true));
    unsupported(
        &with(causal(), "attention_mask_kind", text("bidirectional")),
        "attention_mask_kind 'bidirectional' is inconsistent with causal=true",
    );
    let _ = succeeds(&with(causal(), "attention_mask_kind", text("causal")));
    let _ = succeeds(&with(attention(), "attention_mask_kind", text("bidirectional")));
    unsupported(&invocation("activation", &["a"]), "kind");
    unsupported(
        &with(invocation("activation", &["a"]), "kind", text("relu")),
        "activation kind 'relu' is not implemented",
    );
    let wide = with(
        invocation("matmul", &["a", "b"]),
        "accumulation_dtype",
        OperatorAttributeValue::DType(ComputeDType::Float64),
    );
    assert_eq!(
        fails(&wide),
        (
            KernelErrorCode::KernelDTypeUnsupported,
            "Reference CPU only accumulates in f32; requested Float64".to_string()
        )
    );
    let single = with(
        invocation("matmul", &["a", "b"]),
        "accumulation_dtype",
        OperatorAttributeValue::DType(ComputeDType::Float32),
    );
    let _ = succeeds(&single);
    let other = with(
        invocation("matmul", &["a", "b"]),
        "accumulation_dtype",
        OperatorAttributeValue::Layout(TensorLayoutKind::Blocked),
    );
    let _ = succeeds(&other);
}

#[test]
fn missing_tensors_are_told() {
    assert_eq!(
        fails(&invocation("matmul", &["a"])),
        (KernelErrorCode::KernelExecutionFailed, "missing input at index 1".to_string())
    );
    assert_eq!(
        fails(&invocation("attention", &["a", "b"])),
        (KernelErrorCode::KernelExecutionFailed, "missing input at index 2".to_string())
    );
    assert_eq!(
        fails(&invocation("silu", &["nowhere"])),
        (
            KernelErrorCode::KernelExecutionFailed,
            "no materialized data for input resource nowhere".to_string()
        )
    );
    let mut inv = invocation("silu", &["a"]);
    inv.outputs = vec![];
    assert_eq!(
        fails(&inv),
        (KernelErrorCode::KernelExecutionFailed, "missing output at index 0".to_string())
    );
}

#[test]
fn kernels_that_are_not_implemented_are_refused() {
    for name in ["quantize", "dequantize"] {
        assert_eq!(
            fails(&invocation(name, &["a"])),
            (
                KernelErrorCode::KernelDTypeUnsupported,
                "Reference CPU has no quantized kernel implementation".to_string()
            )
        );
    }
    assert_eq!(
        fails(&invocation("paged-attention", &["a"])),
        (KernelErrorCode::KernelNotFound, "paged-attention".to_string())
    );
}

#[test]
fn refusals_of_kernels_become_errors_of_the_contract() {
    let mut executor = filled();
    executor.write_tensor("masked".to_string(), tensor(&[1, 1], &[f32::NEG_INFINITY]));
    let r = run(&mut executor, &invocation("softmax", &["masked"]));
    assert_eq!(
        failed_with(&mut executor, r),
        (
            KernelErrorCode::KernelExecutionFailed,
            "softmax row 0 has no finite entry to normalize".to_string()
        )
    );
    assert_eq!(
        fails(&invocation("add", &["a", "v"])),
        (
            KernelErrorCode::KernelShapeUnsupported,
            "shape mismatch: [2, 2] vs [2]".to_string()
        )
    );
}

#[test]
fn attention_is_refused_in_a_browser() {
    let mut executor = filled();
    let inv = invocation("attention", &["a", "a", "b"]);
    let r = executor.execute_invocation(&Host, &inv, Ok(()), true);
    assert_eq!(
        failed_with(&mut executor, r),
        (
            KernelErrorCode::KernelBrowserFeatureUnsupported,
            "reference-cpu-attention-workspace".to_string()
        )
    );
}

#[test]
fn a_deadline_that_has_passed_stops_the_invocation() {
    let mut executor = filled();
    let mut inv = invocation("add", &["a", "b"]);
    inv.deadline_millis = Some(0);
    let r = executor.execute_invocation(&Host, &inv, Ok(()), false);
    assert_eq!(r.status, KernelResultStatus::Failed);
    let e = r.error.unwrap();
    assert_eq!((e.code, e.id()), (KernelErrorCode::KernelTimeout, "kernel-timeout"));
    assert_eq!(executor.read_tensor("out"), None);
    let o = executor.observations();
    assert_eq!(o.len(), 2);
    assert_eq!(o[0].kind, KernelObservationKind::KernelDispatchStarted);
    assert_eq!(o[1].kind, KernelObservationKind::KernelTimeout);
    assert_eq!(o[1].invocation.as_deref(), Some("run"));
    inv.deadline_millis = Some(1);
    assert_eq!(run(&mut executor, &inv).status, KernelResultStatus::Succeeded);
}

#[test]
fn an_invalid_invocation_is_refused_as_it_was_found() {
    let mut executor = filled();
    let inv = invocation("add", &["a", "b"]);
    let found = KernelError {
        code: KernelErrorCode::KernelOperatorMismatch,
        detail: "add@1".to_string(),
        found: Some("mul@1".to_string()),
    };
    let r = executor.execute_invocation(&Host, &inv, Err(found), false);
    assert_eq!(r.error.as_ref().unwrap().found.as_deref(), Some("mul@1"));
    assert_eq!(
        failed_with(&mut executor, r),
        (KernelErrorCode::KernelOperatorMismatch, "add@1".to_string())
    );
}

#[test]
fn a_tensor_that_lacks_elements_is_not_ready() {
    let mut executor = filled();
    executor.write_tensor("short".to_string(), raw(&[2, 2], &[1.0]));
    for name in ["matmul", "add", "softmax", "embedding", "rmsnorm"] {
        let inv = invocation(name, &["a", "b"]);
        assert!(name == "rmsnorm" || executor.is_ready(&Host, &inv, false));
    }
    assert!(!executor.is_ready(&Host, &invocation("matmul", &["short", "b"]), false));
    assert!(!executor.is_ready(&Host, &invocation("softmax", &["short"]), false));
    assert!(!executor.is_ready(&Host, &invocation("embedding", &["short", "v"]), false));
    let rope = with(invocation("rope", &["short"]), "dimension", integer(2));
    assert!(!executor.is_ready(&Host, &rope, false));
    let far = with(invocation("rope", &["a"]), "dimension", integer(2));
    let far = with(far, "position_offset", integer(i64::MAX));
    assert!(executor.is_ready(&Host, &far, false));
    let big = with(invocation("attention", &["a", "a", "b"]), "head_count", integer(i64::MAX));
    let big = with(big, "head_dimension", integer(4));
    assert!(!executor.is_ready(&Host, &big, false));
    assert!(executor.is_ready(&Host, &big, true));
    assert!(executor.is_ready(&Host, &invocation("add", &["short", "b"]), false));
    executor.write_tensor("weights".to_string(), raw(&[2], &[1.0]));
    assert!(!executor.is_ready(&Host, &invocation("rmsnorm", &["a", "weights"]), false));
    assert!(executor.is_ready(&Host, &invocation("unknown", &[]), false));
    let refused = with(invocation("rmsnorm", &["a", "weights"]), "epsilon", float(-1.0));
    assert!(executor.is_ready(&Host, &refused, false));
    assert!(!executor.is_ready_however_rounded(&refused, false));
    assert_eq!(
        run(&mut executor, &refused).error.unwrap().detail,
        "RMSNorm epsilon must be positive"
    );
    assert!(executor.is_ready_however_rounded(&invocation("rmsnorm", &["a", "v"]), false));
}

#[derive(Debug, PartialEq)]
struct Full;

struct Ledger {
    deny_at: Option<usize>,
    full: bool,
    next: u64,
    asked: Option<MemoryAllocationRequest>,
    recorded: Option<TensorResidency>,
    log: Vec<String>,
}

impl Ledger {
    fn new(deny_at: Option<usize>) -> Ledger {
        Ledger { deny_at, full: false, next: 100, asked: None, recorded: None, log: vec![] }
    }
}

impl MemoryLedger for Ledger {
    type Denial = Full;

    fn allocate(mut self, request: MemoryAllocationRequest) -> (Result<u64, Full>, Ledger) {
        let full = self.full || self.deny_at == Some(self.log.len());
        self.log.push(format!("allocate {}", request.size_bytes));
        self.asked = Some(request);
        if full {
            return (Err(Full), self);
        }
        self.next += 1;
        (Ok(self.next), self)
    }

    fn describe(denial: &Full) -> String {
        format!("{denial:?}")
    }

    fn release(mut self, allocation: u64) -> Ledger {
        self.log.push(format!("release {allocation}"));
        self
    }

    fn record_residency(mut self, residency: TensorResidency) -> Ledger {
        self.log.push(format!("record {} {}", residency.tensor, residency.allocation));
        self.recorded = Some(residency);
        self
    }
}

fn three_outputs(name: &str) -> KernelInvocation {
    let mut inv = invocation(name, &["a", "b"]);
    inv.outputs = vec![output("out", Ok(16)), output("spare", Ok(4)), output("rest", Ok(8))];
    inv
}

#[test]
fn memory_is_admitted_before_the_kernel_is_called() {
    let mut executor = filled();
    let ledger = Ledger::new(None);
    let inv = three_outputs("add");
    let (r, ledger) =
        executor.execute_invocation_with_memory_manager(&Host, &inv, Ok(()), false, ledger);
    assert_eq!(r.status, KernelResultStatus::Succeeded);
    assert_eq!(values(&executor.read_tensor("out").unwrap()), vec![6.0, 8.0, 10.0, 12.0]);
    assert_eq!(
        ledger.log,
        vec!["allocate 16", "allocate 4", "allocate 8", "record out 101"]
    );
    let own = REFERENCE_CPU_PROVIDER_NAME.to_string();
    assert_eq!(
        ledger.asked,
        Some(MemoryAllocationRequest {
            class: MemoryAllocationClass::Tensor,
            size_bytes: 8,
            placement: MemoryPlacement::ProviderOwnedOpaque(own.clone()),
            owner: MemoryAllocationOwner::Provider(own.clone()),
            affinity: Some(bound("rest")),
        })
    );
    assert_eq!(
        ledger.recorded,
        Some(TensorResidency {
            tensor: "out".to_string(),
            placement: MemoryPlacement::ProviderOwnedOpaque(own),
            affinity: bound("out"),
            allocation: 101,
        })
    );
}

#[test]
fn memory_that_is_denied_stops_the_execution_and_is_given_back() {
    let mut executor = filled();
    let ledger = Ledger::new(Some(2));
    let inv = three_outputs("add");
    let (r, ledger) =
        executor.execute_invocation_with_memory_manager(&Host, &inv, Ok(()), false, ledger);
    assert_eq!(r.status, KernelResultStatus::Failed);
    let e = r.error.unwrap();
    assert_eq!(e.code, KernelErrorCode::KernelExecutionFailed);
    assert_eq!(e.detail, "memory admission denied for output rest: Full");
    assert_eq!(executor.read_tensor("out"), None);
    assert_eq!(
        ledger.log,
        vec!["allocate 16", "allocate 4", "allocate 8", "release 101", "release 102"]
    );
    let o = executor.observations();
    assert_eq!(o.len(), 1);
    assert_eq!(o[0].kind, KernelObservationKind::KernelMemoryFeasibilityFailed);
    assert_eq!(o[0].invocation.as_deref(), Some("run"));
}

#[test]
fn memory_is_denied_before_a_tensor_is_found_to_lack_elements() {
    let mut executor = filled();
    executor.write_tensor("a".to_string(), raw(&[2, 2], &[1.0]));
    let inv = three_outputs("matmul");
    assert!(!executor.is_ready(&Host, &inv, false));
    let (r, _) = executor.execute_invocation_with_memory_manager(
        &Host,
        &inv,
        Ok(()),
        false,
        Ledger::new(Some(1)),
    );
    assert_eq!(r.error.unwrap().detail, "memory admission denied for output spare: Full");
    let mut inv = inv;
    inv.outputs[2] = output("rest", Err("SizeOverflow"));
    let (r, _) = executor.execute_invocation_with_memory_manager(
        &Host,
        &inv,
        Ok(()),
        false,
        Ledger::new(None),
    );
    assert_eq!(
        r.error.unwrap().detail,
        "cannot admit output rest: invalid tensor descriptor (SizeOverflow)"
    );
}

#[test]
fn an_output_of_unknown_size_stops_the_execution() {
    let mut executor = filled();
    let ledger = Ledger::new(None);
    let mut inv = three_outputs("add");
    inv.outputs[1] = output("spare", Err("SizeOverflow"));
    let (r, ledger) =
        executor.execute_invocation_with_memory_manager(&Host, &inv, Ok(()), false, ledger);
    let e = r.error.unwrap();
    assert_eq!(e.code, KernelErrorCode::KernelExecutionFailed);
    assert_eq!(e.detail, "cannot admit output spare: invalid tensor descriptor (SizeOverflow)");
    assert_eq!(ledger.log, vec!["allocate 16", "release 101"]);
    assert!(executor.observations().is_empty());
    assert_eq!(executor.read_tensor("out"), None);
}

#[test]
fn a_failed_execution_gives_its_memory_back() {
    let mut executor = filled();
    let ledger = Ledger::new(None);
    let inv = three_outputs("nothing");
    let (r, ledger) =
        executor.execute_invocation_with_memory_manager(&Host, &inv, Ok(()), false, ledger);
    assert_eq!(r.error.unwrap().code, KernelErrorCode::KernelNotFound);
    assert_eq!(ledger.log[3..], ["release 101", "release 102", "release 103"]);
    let ledger = Ledger::new(None);
    let mut inv = three_outputs("add");
    inv.outputs = vec![];
    let (r, ledger) =
        executor.execute_invocation_with_memory_manager(&Host, &inv, Ok(()), false, ledger);
    assert_eq!(r.error.unwrap().detail, "missing output at index 0");
    assert!(ledger.log.is_empty());
}

#[test]
fn a_session_says_what_to_do_next() {
    let mut executor = filled();
    let inv = three_outputs("add");
    let mut session = MemorySession::begin(&mut executor, &Host, &inv, Ok(()), false);
    for i in 0..3 {
        assert!(session.waits());
        assert_eq!(executor.read_tensor("out"), None);
        match session.action(&inv) {
            MemoryAction::Allocate { request } => {
                assert_eq!(request.size_bytes, [16, 4, 8][i]);
                assert_eq!(request.affinity, Some(bound(["out", "spare", "rest"][i])));
            }
            other => panic!("{other:?}"),
        }
        session.allocated(&mut executor, &Host, &inv, false, 40 + i as u64);
    }
    assert!(!session.waits());
    assert!(session.settles());
    let own = REFERENCE_CPU_PROVIDER_NAME.to_string();
    assert_eq!(
        session.action(&inv),
        MemoryAction::RecordResidency {
            residency: TensorResidency {
                tensor: "out".to_string(),
                placement: MemoryPlacement::ProviderOwnedOpaque(own),
                affinity: bound("out"),
                allocation: 40,
            },
        }
    );
    session.performed(&inv);
    assert!(!session.settles());
    assert_eq!(session.action(&inv), MemoryAction::Finished);
    assert_eq!(session.finish().unwrap().status, KernelResultStatus::Succeeded);
    let mut session = MemorySession::begin(&mut executor, &Host, &inv, Ok(()), false);
    session.denied(&mut executor, &inv, "Full");
    assert_eq!(session.action(&inv), MemoryAction::Finished);
    assert_eq!(
        session.finish().unwrap().error.unwrap().detail,
        "memory admission denied for output out: Full"
    );
}

#[test]
fn the_result_of_a_submission_is_handed_out_once() {
    let mut executor = filled();
    let ledger = Ledger::new(None);
    let inv = invocation("add", &["a", "b"]);
    let (first, ledger) =
        executor.submit_kernel_invocation(&Host, &inv, Ok(()), false, ledger);
    let (second, ledger) =
        executor.submit_kernel_invocation(&Host, &inv, Ok(()), false, ledger);
    assert_eq!(ledger.log.len(), 4);
    assert_eq!(first.id, "magnetar:provider/reference-cpu:run:0");
    assert_eq!((first.operation, first.plan.as_str()), (1, "run"));
    assert_eq!((first.provider.as_str(), &first.device), (REFERENCE_CPU_PROVIDER_NAME, &None));
    assert_eq!(second.id, "magnetar:provider/reference-cpu:run:1");
    assert_eq!(second.operation, 2);
    let r = executor.complete_kernel_invocation(&first).unwrap();
    assert_eq!(r.status, KernelResultStatus::Succeeded);
    let e = executor.complete_kernel_invocation(&first).unwrap_err();
    assert_eq!(e.code, ProviderExecutionErrorCode::ExecutionFailed);
    assert_eq!(e.phase, ProviderExecutionPhase::Complete);
    assert_eq!(e.provider, REFERENCE_CPU_PROVIDER_NAME);
    assert_eq!(
        e.message,
        "no Kernel execution is associated with this handle: it was never submitted through submit_kernel_invocation, or has already been completed once"
    );
    assert!(executor.complete_kernel_invocation(&second).is_ok());
}

#[test]
fn a_submission_is_completed_once() {
    let mut executor = ReferenceCpuExecutor::new();
    let handle = ProviderExecutionHandle {
        id: "provider-execution:1:plan:p".to_string(),
        operation: 1,
        plan: "plan".to_string(),
        provider: "p".to_string(),
        device: Some("d".to_string()),
    };
    let e = executor.status(&handle).unwrap_err();
    assert_eq!(e.phase, ProviderExecutionPhase::Observe);
    assert_eq!((e.provider.as_str(), e.device.as_deref()), ("p", Some("d")));
    assert_eq!(
        e.message,
        "no submission is associated with this handle: it was never submitted, or has already been completed and released"
    );
    assert_eq!(executor.submit(&handle).unwrap(), handle);
    let status = executor.status(&handle).unwrap();
    assert_eq!((status.handle, status.state), (handle.clone(), SchedulingState::Completed));
    assert_eq!(executor.cancel(&handle), Ok(ProviderCancellationOutcome::Unsupported));
    let r = executor.complete(&handle).unwrap();
    assert_eq!((r.handle, r.state), (handle.clone(), SchedulingState::Completed));
    assert!(r.outputs.is_empty());
    let e = executor.complete(&handle).unwrap_err();
    assert_eq!(e.phase, ProviderExecutionPhase::Complete);
    assert_eq!(
        e.message,
        "no submission is associated with this handle: it was never submitted, or has already been completed once"
    );
    assert!(executor.release(&handle).is_ok());
    let _ = executor.submit(&handle);
    assert!(executor.release(&handle).is_ok());
    assert!(executor.status(&handle).is_err());
}

#[test]
fn observations_are_copies() {
    let mut executor = filled();
    let _ = run(&mut executor, &invocation("add", &["a", "b"]));
    let first: Vec<KernelObservation> = executor.observations();
    assert_eq!(first, executor.observations());
    assert_eq!(
        first[0].kernel.as_deref(),
        Some("magnetar:provider/reference-cpu:add@1.0.0:magnetar:operator/add@1")
    );
}
