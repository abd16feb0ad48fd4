use magnetar_provider_cpu::float::{absolute_of, is_below, larger_of, negated_of, whole_of};
use magnetar_provider_cpu::identity::reference_cpu_kernel_id;
use magnetar_provider_cpu::text::{bracketed_text, decimal_text, signed_decimal_text};
use magnetar_provider_cpu::{
    evaluate_fallback, reference_cpu_device, reference_cpu_kernel_advertisements,
    reference_cpu_provider_metadata, ComputeDType, DeviceType, FallbackClass,
    FallbackPolicyContext, HostFacts, KernelCancellationSupport, KernelErrorCode, KernelError,
    KernelImplementationFamily, KernelKvCacheMetadata, KernelMemoryClass,
    KernelObservationKind, KernelWorkspaceRequirements, OperatorFamily, OperatorId,
    ProviderHealth, ProviderPressureLevel, ReferenceCpuError, ReferenceCpuErrorCode,
    ReferenceCpuFeatureFlags, ReferenceCpuProvider, ResourceAffinity, SimdFeatures, Table,
    TensorLayoutKind, REFERENCE_CPU_BUILT_IN, REFERENCE_CPU_CONFORMANCE_PROFILE,
    REFERENCE_CPU_DEVICE_ID, REFERENCE_CPU_KERNEL_FAMILY, REFERENCE_CPU_PROVIDER_NAME,
    REFERENCE_CPU_PROVIDER_VENDOR, REFERENCE_CPU_PROVIDER_VERSION,
    REFERENCE_CPU_SUPPORTED_RUNTIME_VERSION_RANGE,
};

fn host() -> HostFacts {
    HostFacts {
        architecture: "x86_64".to_string(),
        parallelism: Some(8),
        simd: SimdFeatures { sse42: true, avx2: false, fma: true },
    }
}

fn names(features: ReferenceCpuFeatureFlags) -> Vec<String> {
    ReferenceCpuProvider::with_features(features, host())
        .kernel_advertisements()
        .iter()
        .map(|a| a.id.name.clone())
        .collect()
}

#[test]
fn the_identity_is_stable() {
    assert_eq!(REFERENCE_CPU_PROVIDER_NAME, "magnetar:provider/reference-cpu");
    assert_eq!(REFERENCE_CPU_PROVIDER_VERSION, "0.1.0");
    assert_eq!(REFERENCE_CPU_PROVIDER_VENDOR, "magnetar");
    assert_eq!(REFERENCE_CPU_DEVICE_ID, "reference-cpu:host:0");
    assert_eq!(REFERENCE_CPU_CONFORMANCE_PROFILE, "reference-cpu-conformance-v1");
    assert_eq!(REFERENCE_CPU_KERNEL_FAMILY, KernelImplementationFamily::CpuScalar);
    assert!(REFERENCE_CPU_BUILT_IN);
    assert_eq!(REFERENCE_CPU_SUPPORTED_RUNTIME_VERSION_RANGE, (1, 1));
    let metadata = reference_cpu_provider_metadata();
    assert_eq!(metadata.name, REFERENCE_CPU_PROVIDER_NAME);
    assert_eq!(metadata.version, "0.1.0");
    assert_eq!(metadata.vendor, "magnetar");
    assert_eq!(metadata.api_version, 1);
    assert_eq!(
        metadata.description,
        "Correctness-first, host-memory reference implementation of portable Operators"
    );
}

#[test]
fn the_device_is_the_host() {
    let none = SimdFeatures { sse42: false, avx2: false, fma: false };
    let device = reference_cpu_device("wasm32".to_string(), None, &none);
    assert_eq!((device.id.as_str(), device.name.as_str()), ("reference-cpu:host:0", "Reference CPU"));
    assert_eq!(device.device_type, DeviceType::Cpu);
    assert_eq!((device.vendor.as_str(), device.architecture.as_str()), ("magnetar", "wasm32"));
    assert_eq!(device.compute_units, 1);
    assert_eq!(device.memory_capacity, 0);
    assert!(device.execution_capabilities.is_empty());
    assert_eq!(device.dtype_support, vec![ComputeDType::Float32]);
    assert_eq!(device.layout_support, vec![TensorLayoutKind::Contiguous]);
    assert_eq!(device.memory_class_support, vec![KernelMemoryClass::Host]);
    assert_eq!(device.max_concurrent_operations, Some(1));
    assert_eq!(device.max_workspace_bytes, Some(1 << 20));
    assert_eq!(device.pressure, ProviderPressureLevel::Low);
    assert_eq!(device.provider, REFERENCE_CPU_PROVIDER_NAME);
    let all = SimdFeatures { sse42: true, avx2: true, fma: true };
    let device = reference_cpu_device("x86_64".to_string(), Some((1 << 32) + 6), &all);
    assert_eq!(device.compute_units, 6);
    assert_eq!(device.max_concurrent_operations, Some(6));
    assert_eq!(
        device.execution_capabilities,
        vec![
            "magnetar:cpu-feature/sse4.2",
            "magnetar:cpu-feature/avx2",
            "magnetar:cpu-feature/fma"
        ]
    );
}

#[test]
fn every_kernel_is_advertised_in_order() {
    let all = reference_cpu_kernel_advertisements();
    let listed: Vec<(&str, OperatorFamily)> =
        all.iter().map(|a| (a.id.name.as_str(), a.id.operator.family)).collect();
    assert_eq!(
        listed,
        vec![
            ("matmul", OperatorFamily::LinearAlgebra),
            ("embedding", OperatorFamily::Tensor),
            ("rmsnorm", OperatorFamily::Normalization),
            ("rope", OperatorFamily::PositionEncoding),
            ("attention", OperatorFamily::Attention),
            ("softmax", OperatorFamily::Activation),
            ("silu", OperatorFamily::Activation),
            ("gelu", OperatorFamily::Activation),
            ("activation", OperatorFamily::Activation),
            ("add", OperatorFamily::Tensor),
            ("mul", OperatorFamily::Tensor),
            ("residual-add", OperatorFamily::Tensor),
            ("dtype-conversion", OperatorFamily::Tensor),
            ("layout-conversion", OperatorFamily::Layout)
        ]
    );
    for a in &all {
        assert_eq!(a.id.provider, REFERENCE_CPU_PROVIDER_NAME);
        assert_eq!(a.id.operator.namespace, "magnetar:operator");
        assert_eq!(a.id.operator.name, a.id.name);
        assert_eq!((a.id.operator.version, a.id.operator_versions), (1, (1, 1)));
        assert_eq!(a.id.family, KernelImplementationFamily::CpuScalar);
        assert_eq!(a.id.conformance_profile.as_deref(), Some("reference-cpu-conformance-v1"));
        assert_eq!(a.input_dtypes, vec![ComputeDType::Float32]);
        assert_eq!(a.output_dtypes, vec![ComputeDType::Float32]);
        assert_eq!(a.supported_layouts, vec![TensorLayoutKind::Contiguous]);
        assert_eq!(a.memory_classes, vec![KernelMemoryClass::Host]);
        assert_eq!(a.devices, vec!["reference-cpu:host:0"]);
        assert_eq!(a.cancellation, KernelCancellationSupport::TimeoutOnly);
        assert!(a.deterministic && !a.approximate_math && !a.fused);
        assert!(!a.browser_compatible);
        let name = a.id.name.as_str();
        let matrices = ["matmul", "rope", "attention", "softmax"].contains(&name);
        assert_eq!(a.rank, if matrices { Some(2) } else { None });
        if name == "attention" {
            assert_eq!(
                a.workspace,
                Some(KernelWorkspaceRequirements {
                    size_bytes_upper_bound: 1 << 20,
                    memory_class: KernelMemoryClass::Host,
                    alignment_bytes: 4,
                })
            );
            assert_eq!(
                a.kv_cache,
                Some(KernelKvCacheMetadata {
                    layouts: vec![],
                    paged_cache: false,
                    append: false,
                    read: false,
                    dtypes: vec![],
                    memory_classes: vec![],
                    affinity: None,
                })
            );
        } else {
            assert_eq!((a.workspace, &a.kv_cache), (None, &None));
        }
        for absent in ["quantize", "dequantize", "paged-attention"] {
            assert_ne!(name, absent);
        }
    }
}

#[test]
fn features_take_kernels_away() {
    let all = names(ReferenceCpuFeatureFlags::baseline());
    assert_eq!(all.len(), 14);
    let flags = |attention, rope| ReferenceCpuFeatureFlags { attention, rope, quantization: true };
    assert_eq!(names(flags(true, true)), all);
    let without = |gone: &[&str]| -> Vec<String> {
        all.iter().filter(|n| !gone.contains(&n.as_str())).cloned().collect()
    };
    assert_eq!(names(flags(false, true)), without(&["attention"]));
    assert_eq!(names(flags(true, false)), without(&["rope"]));
    assert_eq!(names(flags(false, false)), without(&["attention", "rope"]));
}

#[test]
fn a_kernel_is_reported_under_its_key() {
    let id = reference_cpu_kernel_id(
        OperatorId::magnetar("rope", 1, OperatorFamily::PositionEncoding),
        "rope",
    );
    assert_eq!(
        id.stable_key(),
        "magnetar:provider/reference-cpu:rope@1.0.0:magnetar:operator/rope@1"
    );
    assert_eq!(id.clone(), id);
}

#[test]
fn the_provider_starts_with_the_baseline() {
    let mut provider = ReferenceCpuProvider::new(host());
    assert_eq!(
        provider.features(),
        ReferenceCpuFeatureFlags { attention: true, rope: true, quantization: false }
    );
    assert_eq!(provider.health(), ProviderHealth::Available);
    assert_eq!(provider.pressure(), ProviderPressureLevel::Low);
    provider.report_pressure(ProviderPressureLevel::High);
    assert_eq!(provider.pressure(), ProviderPressureLevel::High);
    assert_eq!(provider.metadata().name, REFERENCE_CPU_PROVIDER_NAME);
    assert_eq!(provider.device().compute_units, 8);
    assert!(provider.executor().observations().is_empty());
    provider.initialize();
    let o = provider.executor_mut().observations();
    assert_eq!(o.len(), 2);
    assert_eq!(o[0].kind, KernelObservationKind::ProviderRegistered);
    assert_eq!(o[0].redacted_metadata[0].key, "provider");
    assert_eq!(o[0].redacted_metadata[0].value, REFERENCE_CPU_PROVIDER_NAME);
    assert_eq!(o[1].kind, KernelObservationKind::DeviceDetected);
    assert_eq!(o[1].redacted_metadata[0].key, "device");
    assert_eq!(o[1].redacted_metadata[0].value, REFERENCE_CPU_DEVICE_ID);
}

#[test]
fn fallback_needs_every_permission() {
    let free = ResourceAffinity::new(FallbackClass::Restartable);
    let pinned = ResourceAffinity::new(FallbackClass::ProviderPinned);
    let reason = |affinity: &ResourceAffinity, context: FallbackPolicyContext| {
        match evaluate_fallback(affinity, &context) {
            Ok(()) => String::new(),
            Err(e) => {
                assert_eq!(e.code, ReferenceCpuErrorCode::FallbackDenied);
                e.reason
            }
        }
    };
    let allowed = FallbackPolicyContext::new(true);
    assert_eq!(reason(&free, allowed), "");
    assert_eq!(
        reason(&free, FallbackPolicyContext::new(false)),
        "Runtime policy does not permit Reference CPU fallback"
    );
    assert_eq!(reason(&pinned, allowed), "Resource Affinity forbids host movement");
    assert_eq!(
        reason(&free, allowed.with_dtype_conversion(true, false)),
        "fallback would require a dtype conversion that policy forbids"
    );
    assert_eq!(
        reason(&free, allowed.with_layout_conversion(true, false)),
        "fallback would require a layout conversion that policy forbids"
    );
    assert_eq!(
        reason(
            &free,
            allowed.with_dtype_conversion(true, true).with_layout_conversion(true, true)
        ),
        ""
    );
    assert_eq!(reason(&free, allowed.with_dtype_conversion(false, false)), "");
    assert_eq!(
        reason(&pinned, FallbackPolicyContext::new(false).with_dtype_conversion(true, false)),
        "Runtime policy does not permit Reference CPU fallback"
    );
}

#[test]
fn refusals_are_reported_as_errors_of_the_contract() {
    let cases = [
        (ReferenceCpuErrorCode::ProviderUnavailable, KernelErrorCode::KernelProviderUnavailable, "reference-cpu-provider-unavailable"),
        (ReferenceCpuErrorCode::ProviderDisabledByPolicy, KernelErrorCode::KernelProviderUnavailable, "reference-cpu-provider-disabled-by-policy"),
        (ReferenceCpuErrorCode::DeviceUnavailable, KernelErrorCode::KernelDeviceUnsupported, "reference-cpu-device-unavailable"),
        (ReferenceCpuErrorCode::KernelNotFound, KernelErrorCode::KernelNotFound, "reference-cpu-kernel-not-found"),
        (ReferenceCpuErrorCode::DTypeUnsupported, KernelErrorCode::KernelDTypeUnsupported, "reference-cpu-dtype-unsupported"),
        (ReferenceCpuErrorCode::LayoutUnsupported, KernelErrorCode::KernelLayoutUnsupported, "reference-cpu-layout-unsupported"),
        (ReferenceCpuErrorCode::ShapeUnsupported, KernelErrorCode::KernelShapeUnsupported, "reference-cpu-shape-unsupported"),
        (ReferenceCpuErrorCode::MemoryClassUnsupported, KernelErrorCode::KernelMemoryClassUnsupported, "reference-cpu-memory-class-unsupported"),
        (ReferenceCpuErrorCode::WorkspaceUnavailable, KernelErrorCode::KernelWorkspaceUnavailable, "reference-cpu-workspace-unavailable"),
        (ReferenceCpuErrorCode::ExecutionFailed, KernelErrorCode::KernelExecutionFailed, "reference-cpu-execution-failed"),
        (ReferenceCpuErrorCode::DeterministicModeUnsupported, KernelErrorCode::KernelDeterminismUnsupported, "reference-cpu-deterministic-mode-unsupported"),
        (ReferenceCpuErrorCode::PrecisionUnsupported, KernelErrorCode::KernelPrecisionUnsupported, "reference-cpu-precision-unsupported"),
        (ReferenceCpuErrorCode::ConformanceFailed, KernelErrorCode::KernelConformanceFailed, "reference-cpu-conformance-failed"),
        (ReferenceCpuErrorCode::FallbackDenied, KernelErrorCode::KernelExecutionFailed, "reference-cpu-fallback-denied"),
        (ReferenceCpuErrorCode::BrowserFeatureUnsupported, KernelErrorCode::KernelBrowserFeatureUnsupported, "reference-cpu-browser-feature-unsupported"),
        (ReferenceCpuErrorCode::Internal, KernelErrorCode::KernelExecutionFailed, "internal-reference-cpu"),
    ];
    for (code, reported, id) in cases {
        let error = ReferenceCpuError::new(code, "why".to_string());
        assert_eq!(error.id(), id);
        assert_eq!(error.message(), format!("{id}: why"));
        let error = KernelError::from_refusal(error);
        assert_eq!(error.code, reported);
        let silent = [
            KernelErrorCode::KernelWorkspaceUnavailable,
            KernelErrorCode::KernelDeterminismUnsupported,
            KernelErrorCode::KernelPrecisionUnsupported,
        ];
        assert_eq!(error.detail, if silent.contains(&reported) { "" } else { "why" });
    }
}

#[test]
fn bits_decide_order_and_whole_numbers() {
    let bits = |x: f32| x.to_bits();
    let samples = [
        f32::NEG_INFINITY, -2.5, -1.0, -1e-40, -0.0, 0.0, 1e-40, 0.5, 1.0, 2.5, 1e30, f32::INFINITY,
        f32::NAN,
    ];
    for x in samples {
        assert_eq!(negated_of(bits(x)), bits(-x));
        assert_eq!(absolute_of(bits(x)), bits(x.abs()));
        for y in samples {
            assert_eq!(is_below(bits(x), bits(y)), x < y);
            let larger = f32::from_bits(larger_of(bits(x), bits(y)));
            assert!(larger == x.max(y) || larger.is_nan() && x.max(y).is_nan());
        }
        let whole = !(x < 0.0) && x.fract() == 0.0;
        assert_eq!(whole_of(bits(x)), if whole { Some(x as u64) } else { None });
    }
    for n in [0_u64, 1, 2, 3, 255, 65537, 16777215, 16777216, 1 << 40, 1 << 63] {
        assert_eq!(whole_of(bits(n as f32)), Some(n));
    }
    assert_eq!(whole_of(bits(8388607.5)), None);
}

#[test]
fn numbers_are_written_in_decimal() {
    for n in [0, 7, 10, 1234567890, u64::MAX] {
        assert_eq!(decimal_text(n), n.to_string());
    }
    for n in [0, -1, 42, i64::MAX, i64::MIN] {
        assert_eq!(signed_decimal_text(n), n.to_string());
    }
    assert_eq!(bracketed_text(&vec![]), "[]");
    assert_eq!(bracketed_text(&vec![1, 20, 300]), "[1, 20, 300]");
}

#[test]
fn a_table_holds_one_value_under_a_key() {
    let mut table: Table<u64> = Table::new();
    assert_eq!(table.insert("x".to_string(), 1), None);
    assert_eq!(table.insert("y".to_string(), 2), None);
    assert_eq!(table.insert("x".to_string(), 3), Some(1));
    assert_eq!(table.get("x"), Some(&3));
    assert!(table.contains("y") && !table.contains("z"));
    assert_eq!(table.remove("x"), Some(3));
    assert_eq!(table.remove("x"), None);
    assert_eq!(table.get("y"), Some(&2));
}
