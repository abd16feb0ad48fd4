//! The kernels that the provider advertises.

use vstd::prelude::*;

use crate::affinity::{optional_affinity, Affinity, ResourceAffinity};
use crate::identity::{
    reference_cpu_kernel, reference_cpu_kernel_id, CapabilityVersion, Kernel, KernelId,
    KernelImplementationFamily, Operator, OperatorFamily, OperatorId, ReferenceCpuFeatureFlags,
    OPERATOR_NAMESPACE, REFERENCE_CPU_DEVICE_ID, REFERENCE_CPU_PROVIDER_NAME,
};
use crate::kernels::conversion::{ComputeDType, TensorLayoutKind};
use crate::text::text_is;

verus! {

/// Where the tensors of a kernel live.
#[derive(Clone, Copy, Debug, PartialEq, Eq, Structural)]
pub enum KernelMemoryClass {
    /// Host memory.
    Host,
    /// Host memory that stays in place.
    PinnedHost,
    /// Memory of a device.
    Device,
    /// Memory that host and device have in common.
    Unified,
    /// Shared memory.
    Shared,
    /// Memory of a provider.
    ProviderOwned,
    /// The linear memory of a browser.
    BrowserLinearMemory,
    /// A buffer of WebGPU.
    FutureWebGpuBuffer,
}

/// How a kernel can be stopped.
#[derive(Clone, Copy, Debug, PartialEq, Eq, Structural)]
pub enum KernelCancellationSupport {
    /// Not at all.
    NotSupported,
    /// Before it starts.
    BeforeDispatchOnly,
    /// Where it looks.
    Cooperative,
    /// At any time.
    Interruptible,
    /// By a deadline that has passed before it starts.
    TimeoutOnly,
    /// As the provider says.
    ProviderSpecific,
}

/// Scratch space that a kernel needs.
#[derive(Clone, Copy, Debug, PartialEq, Eq, Structural)]
pub struct KernelWorkspaceRequirements {
    /// At most how many bytes.
    pub size_bytes_upper_bound: u64,
    /// Where.
    pub memory_class: KernelMemoryClass,
    /// On which boundary.
    pub alignment_bytes: u64,
}

/// What a kernel does with a cache of keys and values.
#[derive(Debug, PartialEq, Eq)]
pub struct KernelKvCacheMetadata {
    /// The layouts of the cache that it takes.
    pub layouts: Vec<String>,
    /// It takes a cache in pages.
    pub paged_cache: bool,
    /// It appends to the cache.
    pub append: bool,
    /// It reads from the cache.
    pub read: bool,
    /// The element types of the cache that it takes.
    pub dtypes: Vec<ComputeDType>,
    /// Where the cache may live.
    pub memory_classes: Vec<KernelMemoryClass>,
    /// What the cache is bound to, where that is said.
    pub affinity: Option<ResourceAffinity>,
}

/// What a [`KernelKvCacheMetadata`] stands for.
#[verifier::ext_equal]
pub struct KvCache {
    /// The layouts of the cache that the kernel takes.
    pub layouts: Seq<Seq<char>>,
    /// It takes a cache in pages.
    pub paged_cache: bool,
    /// It appends to the cache.
    pub append: bool,
    /// It reads from the cache.
    pub read: bool,
    /// The element types of the cache that it takes.
    pub dtypes: Seq<ComputeDType>,
    /// Where the cache may live.
    pub memory_classes: Seq<KernelMemoryClass>,
    /// What the cache is bound to, where that is said.
    pub affinity: Option<Affinity>,
}

impl View for KernelKvCacheMetadata {
    type V = KvCache;

    open spec fn view(&self) -> KvCache {
        KvCache {
            layouts: texts(self.layouts@),
            paged_cache: self.paged_cache,
            append: self.append,
            read: self.read,
            dtypes: self.dtypes@,
            memory_classes: self.memory_classes@,
            affinity: optional_affinity(self.affinity),
        }
    }
}

/// What optional metadata of a cache stands for.
pub open spec fn optional_cache(c: Option<KernelKvCacheMetadata>) -> Option<KvCache> {
    match c {
        Some(x) => Some(x@),
        None => None,
    }
}

/// What is said of a cache that the kernel does nothing with.
pub open spec fn no_cache() -> KvCache {
    KvCache {
        layouts: Seq::empty(),
        paged_cache: false,
        append: false,
        read: false,
        dtypes: Seq::empty(),
        memory_classes: Seq::empty(),
        affinity: None,
    }
}

/// Metadata of a kernel that does nothing with a cache.
fn without_cache() -> (r: KernelKvCacheMetadata)
    ensures
        r@ == no_cache(),
{
    let r = KernelKvCacheMetadata {
        layouts: Vec::new(),
        paged_cache: false,
        append: false,
        read: false,
        dtypes: Vec::new(),
        memory_classes: Vec::new(),
        affinity: None,
    };
    assert(r@ =~= no_cache());
    r
}

/// What the provider says of one of its kernels.
#[derive(Debug, PartialEq, Eq)]
pub struct KernelAdvertisement {
    /// The kernel.
    pub id: KernelId,
    /// The element types that it reads.
    pub input_dtypes: Vec<ComputeDType>,
    /// The element types that it writes.
    pub output_dtypes: Vec<ComputeDType>,
    /// The layouts that it takes.
    pub supported_layouts: Vec<TensorLayoutKind>,
    /// Where its tensors live.
    pub memory_classes: Vec<KernelMemoryClass>,
    /// The devices that it runs on.
    pub devices: Vec<String>,
    /// The rank of its tensors, where all have one.
    pub rank: Option<u64>,
    /// The scratch space that it needs, if any.
    pub workspace: Option<KernelWorkspaceRequirements>,
    /// How it can be stopped.
    pub cancellation: KernelCancellationSupport,
    /// What it does with a cache, where that is stated.
    pub kv_cache: Option<KernelKvCacheMetadata>,
    /// The same inputs give the same outputs.
    pub deterministic: bool,
    /// It approximates where exact arithmetic is asked for.
    pub approximate_math: bool,
    /// It does the work of several operators at once.
    pub fused: bool,
    /// It runs in a browser.
    pub browser_compatible: bool,
}

/// What a [`KernelAdvertisement`] stands for.
pub struct Advertisement {
    /// The kernel.
    pub id: Kernel,
    /// The element types that it reads.
    pub input_dtypes: Seq<ComputeDType>,
    /// The element types that it writes.
    pub output_dtypes: Seq<ComputeDType>,
    /// The layouts that it takes.
    pub supported_layouts: Seq<TensorLayoutKind>,
    /// Where its tensors live.
    pub memory_classes: Seq<KernelMemoryClass>,
    /// The devices that it runs on.
    pub devices: Seq<Seq<char>>,
    /// The rank of its tensors, where all have one.
    pub rank: Option<u64>,
    /// The scratch space that it needs, if any.
    pub workspace: Option<KernelWorkspaceRequirements>,
    /// How it can be stopped.
    pub cancellation: KernelCancellationSupport,
    /// What it does with a cache, where that is stated.
    pub kv_cache: Option<KvCache>,
    /// The same inputs give the same outputs.
    pub deterministic: bool,
    /// It approximates where exact arithmetic is asked for.
    pub approximate_math: bool,
    /// It does the work of several operators at once.
    pub fused: bool,
    /// It runs in a browser.
    pub browser_compatible: bool,
}

/// What some texts stand for.
pub open spec fn texts(s: Seq<String>) -> Seq<Seq<char>> {
    Seq::new(s.len(), |i: int| s[i]@)
}

impl View for KernelAdvertisement {
    type V = Advertisement;

    open spec fn view(&self) -> Advertisement {
        Advertisement {
            id: self.id@,
            input_dtypes: self.input_dtypes@,
            output_dtypes: self.output_dtypes@,
            supported_layouts: self.supported_layouts@,
            memory_classes: self.memory_classes@,
            devices: texts(self.devices@),
            rank: self.rank,
            workspace: self.workspace,
            cancellation: self.cancellation,
            kv_cache: optional_cache(self.kv_cache),
            deterministic: self.deterministic,
            approximate_math: self.approximate_math,
            fused: self.fused,
            browser_compatible: self.browser_compatible,
        }
    }
}

/// What some advertisements stand for.
pub open spec fn advertised(s: Seq<KernelAdvertisement>) -> Seq<Advertisement> {
    Seq::new(s.len(), |i: int| s[i]@)
}

/// Whether all tensors of a kernel are matrices.
pub open spec fn matrices_only(name: Seq<char>) -> bool {
    name == "matmul"@ || name == "rope"@ || name == "attention"@ || name == "softmax"@
}

/// What is said of every kernel: single precision, contiguous, in host memory,
/// on the one device.
pub open spec fn baseline(name: Seq<char>, family: OperatorFamily) -> Advertisement {
    Advertisement {
        id: reference_cpu_kernel(
            Operator { namespace: OPERATOR_NAMESPACE@, name, version: 1, family },
            name,
        ),
        input_dtypes: seq![ComputeDType::Float32],
        output_dtypes: seq![ComputeDType::Float32],
        supported_layouts: seq![TensorLayoutKind::Contiguous],
        memory_classes: seq![KernelMemoryClass::Host],
        devices: seq![REFERENCE_CPU_DEVICE_ID@],
        rank: if matrices_only(name) {
            Some(2u64)
        } else {
            None
        },
        workspace: None,
        cancellation: KernelCancellationSupport::TimeoutOnly,
        kv_cache: None,
        deterministic: true,
        approximate_math: false,
        fused: false,
        browser_compatible: false,
    }
}

/// What is said of attention: it needs scratch space, and has no cache.
pub open spec fn attention_advertisement() -> Advertisement {
    Advertisement {
        workspace: Some(
            KernelWorkspaceRequirements {
                size_bytes_upper_bound: 0x10_0000,
                memory_class: KernelMemoryClass::Host,
                alignment_bytes: 4,
            },
        ),
        kv_cache: Some(no_cache()),
        ..baseline("attention"@, OperatorFamily::Attention)
    }
}

/// All kernels, in the order in which they are advertised.
pub open spec fn catalogue() -> Seq<Advertisement> {
    seq![
        baseline("matmul"@, OperatorFamily::LinearAlgebra),
        baseline("embedding"@, OperatorFamily::Tensor),
        baseline("rmsnorm"@, OperatorFamily::Normalization),
        baseline("rope"@, OperatorFamily::PositionEncoding),
        attention_advertisement(),
        baseline("softmax"@, OperatorFamily::Activation),
        baseline("silu"@, OperatorFamily::Activation),
        baseline("gelu"@, OperatorFamily::Activation),
        baseline("activation"@, OperatorFamily::Activation),
        baseline("add"@, OperatorFamily::Tensor),
        baseline("mul"@, OperatorFamily::Tensor),
        baseline("residual-add"@, OperatorFamily::Tensor),
        baseline("dtype-conversion"@, OperatorFamily::Tensor),
        baseline("layout-conversion"@, OperatorFamily::Layout),
    ]
}

/// An advertisement with what is said of every kernel.
fn baseline_advertisement(name: &str, family: OperatorFamily) -> (r: KernelAdvertisement)
    ensures
        r@ == baseline(name@, family),
{
    let id = reference_cpu_kernel_id(OperatorId::magnetar(name, 1, family), name);
    let rank: Option<u64> = if text_is(&id.name, "matmul") || text_is(&id.name, "rope") || text_is(
        &id.name,
        "attention",
    ) || text_is(&id.name, "softmax") {
        Some(2)
    } else {
        None
    };
    let r = KernelAdvertisement {
        id,
        input_dtypes: vec![ComputeDType::Float32],
        output_dtypes: vec![ComputeDType::Float32],
        supported_layouts: vec![TensorLayoutKind::Contiguous],
        memory_classes: vec![KernelMemoryClass::Host],
        devices: vec![REFERENCE_CPU_DEVICE_ID.to_owned()],
        rank,
        workspace: None,
        cancellation: KernelCancellationSupport::TimeoutOnly,
        kv_cache: None,
        deterministic: true,
        approximate_math: false,
        fused: false,
        browser_compatible: false,
    };
    proof {
        let expected = baseline(name@, family);
        assert(r@.input_dtypes =~= expected.input_dtypes);
        assert(r@.output_dtypes =~= expected.output_dtypes);
        assert(r@.supported_layouts =~= expected.supported_layouts);
        assert(r@.memory_classes =~= expected.memory_classes);
        assert(r@.devices =~= expected.devices);
    }
    r
}

/// All kernels that the provider implements. Operators that it does not
/// implement are absent.
pub fn reference_cpu_kernel_advertisements() -> (r: Vec<KernelAdvertisement>)
    ensures
        advertised(r@) == catalogue(),
{
    let mut attention = baseline_advertisement("attention", OperatorFamily::Attention);
    attention.workspace = Some(
        KernelWorkspaceRequirements {
            size_bytes_upper_bound: 0x10_0000,
            memory_class: KernelMemoryClass::Host,
            alignment_bytes: 4,
        },
    );
    attention.kv_cache = Some(without_cache());
    let r: Vec<KernelAdvertisement> = vec![
        baseline_advertisement("matmul", OperatorFamily::LinearAlgebra),
        baseline_advertisement("embedding", OperatorFamily::Tensor),
        baseline_advertisement("rmsnorm", OperatorFamily::Normalization),
        baseline_advertisement("rope", OperatorFamily::PositionEncoding),
        attention,
        baseline_advertisement("softmax", OperatorFamily::Activation),
        baseline_advertisement("silu", OperatorFamily::Activation),
        baseline_advertisement("gelu", OperatorFamily::Activation),
        baseline_advertisement("activation", OperatorFamily::Activation),
        baseline_advertisement("add", OperatorFamily::Tensor),
        baseline_advertisement("mul", OperatorFamily::Tensor),
        baseline_advertisement("residual-add", OperatorFamily::Tensor),
        baseline_advertisement("dtype-conversion", OperatorFamily::Tensor),
        baseline_advertisement("layout-conversion", OperatorFamily::Layout),
    ];
    assert(advertised(r@) =~= catalogue());
    r
}

/// Whether a kernel is advertised with the given features.
pub open spec fn offered(name: Seq<char>, features: ReferenceCpuFeatureFlags) -> bool {
    &&& name == "attention"@ ==> features.attention
    &&& name == "rope"@ ==> features.rope
}

/// The kernels that are advertised with the given features, in order.
pub open spec fn offered_of(
    s: Seq<Advertisement>,
    features: ReferenceCpuFeatureFlags,
) -> Seq<Advertisement>
    decreases s.len(),
{
    if s.len() == 0 {
        Seq::empty()
    } else if offered(s.last().id.name, features) {
        offered_of(s.drop_last(), features).push(s.last())
    } else {
        offered_of(s.drop_last(), features)
    }
}

/// The kernels that are advertised with the given features.
pub fn kernel_advertisements(features: &ReferenceCpuFeatureFlags) -> (r: Vec<KernelAdvertisement>)
    ensures
        advertised(r@) == offered_of(catalogue(), *features),
{
    let mut r = reference_cpu_kernel_advertisements();
    let ghost all = catalogue();
    let ghost mut seen: int = 0;
    let mut i: usize = 0;
    proof {
        assert(advertised(r@).take(0) =~= Seq::empty());
        assert(all.take(0) =~= Seq::empty());
        assert(advertised(r@).skip(0) =~= all.skip(0));
    }
    while i < r.len()
        invariant
            i <= r@.len(),
            0 <= seen <= all.len(),
            advertised(r@).take(i as int) == offered_of(all.take(seen), *features),
            advertised(r@).skip(i as int) == all.skip(seen),
        decreases r@.len() - i,
    {
        let ghost before = advertised(r@);
        proof {
            assert(before.skip(i as int).len() == all.skip(seen).len());
            assert(all.skip(seen)[0] == before.skip(i as int)[0]);
            assert(all[seen] == before[i as int]);
            assert(before[i as int] == r@[i as int]@);
            assert(all.take(seen + 1).drop_last() =~= all.take(seen));
            assert(all.take(seen + 1).last() == all[seen]);
            assert(all.skip(seen).skip(1) =~= all.skip(seen + 1));
        }
        let name = &r[i].id.name;
        let dropped = (!features.attention && text_is(name, "attention")) || (!features.rope
            && text_is(name, "rope"));
        if dropped {
            r.remove(i);
            proof {
                assert(advertised(r@) =~= before.remove(i as int));
                assert(advertised(r@).take(i as int) =~= before.take(i as int));
                assert(advertised(r@).skip(i as int) =~= before.skip(i as int).skip(1));
            }
        } else {
            proof {
                assert(before.take(i + 1) =~= before.take(i as int).push(before[i as int]));
                assert(before.skip(i + 1) =~= before.skip(i as int).skip(1));
            }
            i += 1;
        }
        proof {
            seen = seen + 1;
        }
    }
    proof {
        assert(advertised(r@).skip(i as int).len() == 0);
        assert(all.take(seen) =~= all);
        assert(advertised(r@).take(i as int) =~= advertised(r@));
    }
    r
}

/// Every kernel is a kernel of this provider on its one device, takes and
/// gives single precision in contiguous host memory, and is stopped by a
/// deadline only. It is deterministic, does not approximate and is not fused.
pub proof fn law_baseline(i: int)
    requires
        0 <= i < catalogue().len(),
    ensures
        ({
            let a = catalogue()[i];
            let b = baseline(a.id.name, a.id.operator.family);
            &&& a.id == b.id
            &&& a.input_dtypes == seq![ComputeDType::Float32]
            &&& a.output_dtypes == seq![ComputeDType::Float32]
            &&& a.supported_layouts == seq![TensorLayoutKind::Contiguous]
            &&& a.memory_classes == seq![KernelMemoryClass::Host]
            &&& a.devices == seq![REFERENCE_CPU_DEVICE_ID@]
            &&& a.rank == b.rank
            &&& a.cancellation == KernelCancellationSupport::TimeoutOnly
            &&& a.deterministic && !a.approximate_math && !a.fused
            &&& !a.browser_compatible
            &&& a.workspace is Some <==> a.id.name == "attention"@
        }),
{
    lemma_names();
}

/// The names of the kernels, in order.
pub open spec fn kernel_names() -> Seq<Seq<char>> {
    seq![
        "matmul"@,
        "embedding"@,
        "rmsnorm"@,
        "rope"@,
        "attention"@,
        "softmax"@,
        "silu"@,
        "gelu"@,
        "activation"@,
        "add"@,
        "mul"@,
        "residual-add"@,
        "dtype-conversion"@,
        "layout-conversion"@,
    ]
}

proof fn lemma_names()
    ensures
        catalogue().len() == kernel_names().len(),
        forall|i: int|
            0 <= i < catalogue().len() ==> (#[trigger] catalogue()[i]).id.name == kernel_names()[i],
        forall|i: int|
            0 <= i < kernel_names().len() && i != 4 ==> #[trigger] kernel_names()[i]
                != "attention"@,
{
    reveal_strlit("matmul");
    reveal_strlit("embedding");
    reveal_strlit("rmsnorm");
    reveal_strlit("rope");
    reveal_strlit("attention");
    reveal_strlit("softmax");
    reveal_strlit("silu");
    reveal_strlit("gelu");
    reveal_strlit("activation");
    reveal_strlit("add");
    reveal_strlit("mul");
    reveal_strlit("residual-add");
    reveal_strlit("dtype-conversion");
    reveal_strlit("layout-conversion");
    assert("embedding"@[0] == 'e' && "attention"@[0] == 'a');
    assert forall|i: int| 0 <= i < kernel_names().len() && i != 4 implies #[trigger] kernel_names()[i]
        != "attention"@ by {
        let name = kernel_names()[i];
        if i == 1 {
            assert(name[0] == 'e');
        } else {
            assert(name.len() != 9);
        }
    }
}

/// Quantized formats and paged attention are never advertised.
pub proof fn law_unimplemented_absent(i: int)
    requires
        0 <= i < catalogue().len(),
    ensures
        catalogue()[i].id.name != "quantize"@,
        catalogue()[i].id.name != "dequantize"@,
        catalogue()[i].id.name != "paged-attention"@,
{
    lemma_names();
    reveal_strlit("quantize");
    reveal_strlit("dequantize");
    reveal_strlit("paged-attention");
    reveal_strlit("matmul");
    reveal_strlit("embedding");
    reveal_strlit("rmsnorm");
    reveal_strlit("rope");
    reveal_strlit("attention");
    reveal_strlit("softmax");
    reveal_strlit("silu");
    reveal_strlit("gelu");
    reveal_strlit("activation");
    reveal_strlit("add");
    reveal_strlit("mul");
    reveal_strlit("residual-add");
    reveal_strlit("dtype-conversion");
    reveal_strlit("layout-conversion");
    assert("dequantize"@[0] == 'd' && "activation"@[0] == 'a');
    assert(catalogue()[i].id.name == kernel_names()[i]);
}

/// Features take kernels away, and never add one.
pub proof fn law_offered(s: Seq<Advertisement>, features: ReferenceCpuFeatureFlags, a: Advertisement)
    ensures
        offered_of(s, features).contains(a) <==> s.contains(a) && offered(a.id.name, features),
    decreases s.len(),
{
    if s.len() > 0 {
        law_offered(s.drop_last(), features, a);
        assert(s =~= s.drop_last().push(s.last()));
        let kept = offered_of(s.drop_last(), features);
        lemma_push_contains(s.drop_last(), s.last(), a);
        lemma_push_contains(kept, s.last(), a);
    }
}

proof fn lemma_push_contains<T>(s: Seq<T>, x: T, a: T)
    ensures
        s.push(x).contains(a) <==> s.contains(a) || a == x,
{
    if s.contains(a) {
        let i = choose|i: int| 0 <= i < s.len() && s[i] == a;
        assert(s.push(x)[i] == a);
    }
    if a == x {
        assert(s.push(x)[s.len() as int] == a);
    }
}

/// With the baseline features, all kernels are advertised.
pub proof fn law_baseline_features(features: ReferenceCpuFeatureFlags)
    requires
        features.attention,
        features.rope,
    ensures
        offered_of(catalogue(), features) == catalogue(),
{
    lemma_all_offered(catalogue(), features);
}

proof fn lemma_all_offered(s: Seq<Advertisement>, features: ReferenceCpuFeatureFlags)
    requires
        features.attention,
        features.rope,
    ensures
        offered_of(s, features) == s,
    decreases s.len(),
{
    if s.len() > 0 {
        lemma_all_offered(s.drop_last(), features);
        assert(s.drop_last().push(s.last()) =~= s);
    }
}

/// What is turned off is not advertised, and all else is, as it is said of it and
/// in order: with attention or rotation turned off, the kernels are those that
/// come before it and those that come after it.
pub proof fn law_features_take_away(features: ReferenceCpuFeatureFlags)
    ensures
        ({
            let all = catalogue();
            let r = offered_of(all, features);
            &&& features.rope && features.attention ==> r == all
            &&& features.rope && !features.attention ==> r == all.take(4) + all.skip(5)
            &&& !features.rope && features.attention ==> r == all.take(3) + all.skip(4)
            &&& !features.rope && !features.attention ==> r == all.take(3) + all.skip(5)
            &&& all[3].id.name == "rope"@
            &&& all[4].id.name == "attention"@
        }),
{
    let all = catalogue();
    lemma_names();
    reveal_strlit("rope");
    reveal_strlit("attention");
    reveal_strlit("matmul");
    reveal_strlit("embedding");
    reveal_strlit("rmsnorm");
    reveal_strlit("softmax");
    reveal_strlit("silu");
    reveal_strlit("gelu");
    reveal_strlit("activation");
    reveal_strlit("add");
    reveal_strlit("mul");
    reveal_strlit("residual-add");
    reveal_strlit("dtype-conversion");
    reveal_strlit("layout-conversion");
    assert("silu"@[0] == 's' && "gelu"@[0] == 'g' && "rope"@[0] == 'r');
    assert forall|i: int| 0 <= i < all.len() implies offered(
        (#[trigger] all[i]).id.name,
        features,
    ) == ((i == 3 ==> features.rope) && (i == 4 ==> features.attention)) by {
        let name = kernel_names()[i];
        assert(all[i].id.name == name);
        if i == 1 {
            assert(name[0] == 'e' && "attention"@[0] == 'a');
        } else if i == 6 {
            assert(name[0] == 's');
        } else if i == 7 {
            assert(name[0] == 'g');
        }
        assert("rope"@.len() == 4 && "attention"@.len() == 9);
        assert(i != 3 ==> name != "rope"@);
        assert(i != 4 ==> name != "attention"@);
    }
    lemma_offered_prefix(all, features, all.len());
    assert(all.take(all.len() as int) =~= all);
    if features.rope && features.attention {
        lemma_all_offered(all, features);
    }
}

/// The kernels that are advertised of the first `n`.
proof fn lemma_offered_prefix(all: Seq<Advertisement>, features: ReferenceCpuFeatureFlags, n: nat)
    requires
        n <= all.len(),
        all.len() > 4,
        forall|i: int|
            0 <= i < all.len() ==> offered((#[trigger] all[i]).id.name, features) == ((i == 3
                ==> features.rope) && (i == 4 ==> features.attention)),
    ensures
        ({
            let r = offered_of(all.take(n as int), features);
            let without = |from: int, to: int|
                if n <= from {
                    all.take(n as int)
                } else if n <= to {
                    all.take(from)
                } else {
                    all.take(from) + all.subrange(to, n as int)
                };
            &&& features.rope && !features.attention ==> r == without(4, 5)
            &&& !features.rope && features.attention ==> r == without(3, 4)
            &&& !features.rope && !features.attention ==> r == without(3, 5)
        }),
    decreases n,
{
    if n == 0 {
        assert(all.take(0) =~= Seq::empty());
    } else {
        let m = (n - 1) as nat;
        lemma_offered_prefix(all, features, m);
        let s = all.take(n as int);
        let x = all[n - 1];
        assert(s.drop_last() =~= all.take(m as int));
        assert(s.last() == x);
        assert(all.take(m as int).push(x) =~= s);
        let (from, to) = if features.attention {
            (3int, 4int)
        } else if features.rope {
            (4int, 5int)
        } else {
            (3int, 5int)
        };
        if m >= to {
            assert(all.take(from).push(x) =~= all.take(from) + all.subrange(to, n as int) || m
                > to);
            assert((all.take(from) + all.subrange(to, m as int)).push(x) =~= all.take(from)
                + all.subrange(to, n as int));
            assert(all.take(from) + all.subrange(to, to) =~= all.take(from));
        }
    }
}

/// Every kernel is named as the operator that it implements, in its first
/// version. Those on matrices say so, and attention alone has scratch space, of
/// one mebibyte in the host, and says that it has no cache.
pub proof fn law_kernels_named(i: int)
    requires
        0 <= i < catalogue().len(),
    ensures
        ({
            let a = catalogue()[i];
            let name = a.id.name;
            &&& a.id.provider == REFERENCE_CPU_PROVIDER_NAME@
            &&& a.id.version == (CapabilityVersion { major: 1, minor: 0, patch: 0 })
            &&& a.id.operator.namespace == OPERATOR_NAMESPACE@
            &&& a.id.operator.name == name
            &&& a.id.operator.version == 1
            &&& a.id.operator_versions == (1u32, 1u32)
            &&& a.id.family == KernelImplementationFamily::CpuScalar
            &&& a.id.conformance_profile == Some("reference-cpu-conformance-v1"@)
            &&& a.rank == if name == "matmul"@ || name == "rope"@ || name == "attention"@ || name
                == "softmax"@ {
                Some(2u64)
            } else {
                None
            }
            &&& name == "attention"@ ==> {
                &&& a.workspace == Some(
                    KernelWorkspaceRequirements {
                        size_bytes_upper_bound: 1_048_576,
                        memory_class: KernelMemoryClass::Host,
                        alignment_bytes: 4,
                    },
                )
                &&& a.kv_cache is Some
                &&& !a.kv_cache->Some_0.paged_cache
                &&& !a.kv_cache->Some_0.append
                &&& !a.kv_cache->Some_0.read
            }
            &&& name != "attention"@ ==> a.workspace is None && a.kv_cache is None
            &&& a.id.operator.family == if name == "matmul"@ {
                OperatorFamily::LinearAlgebra
            } else if name == "rmsnorm"@ {
                OperatorFamily::Normalization
            } else if name == "rope"@ {
                OperatorFamily::PositionEncoding
            } else if name == "attention"@ {
                OperatorFamily::Attention
            } else if name == "softmax"@ || name == "silu"@ || name == "gelu"@ || name
                == "activation"@ {
                OperatorFamily::Activation
            } else if name == "layout-conversion"@ {
                OperatorFamily::Layout
            } else {
                OperatorFamily::Tensor
            }
        }),
{
    crate::dispatch_laws::lemma_kernel_names();
    lemma_names();
    assert(catalogue()[i].id.name == kernel_names()[i]);
}

} // verus!
