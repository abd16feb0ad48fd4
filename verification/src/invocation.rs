//! Invocations of kernels, their attributes and their results.

use vstd::prelude::*;

use crate::affinity::{Affinity, ResourceAffinity};
use crate::catalogue::texts;
use crate::error::{KernelError, KernelFault};
use crate::float::{narrows, Arithmetic};
use crate::identity::{Kernel, KernelId};
use crate::kernels::conversion::{ComputeDType, TensorLayoutKind};
use crate::table::Table;

verus! {

/// A tensor that the runtime knows by its identifier.
#[derive(Debug, PartialEq, Eq)]
pub struct TensorResourceDescriptor {
    /// Its identifier.
    pub id: String,
    /// How many bytes it takes, or why that cannot be told.
    pub byte_size: Result<u64, String>,
    /// What it is bound to.
    pub affinity: ResourceAffinity,
}

/// What a [`TensorResourceDescriptor`] stands for.
pub struct Resource {
    /// Its identifier.
    pub id: Seq<char>,
    /// How many bytes it takes, or why that cannot be told.
    pub byte_size: Result<u64, Seq<char>>,
    /// What it is bound to.
    pub affinity: Affinity,
}

/// What a size stands for.
pub open spec fn size_view(size: Result<u64, String>) -> Result<u64, Seq<char>> {
    match size {
        Ok(n) => Ok(n),
        Err(why) => Err(why@),
    }
}

impl View for TensorResourceDescriptor {
    type V = Resource;

    open spec fn view(&self) -> Resource {
        Resource {
            id: self.id@,
            byte_size: size_view(self.byte_size),
            affinity: self.affinity@,
        }
    }
}

impl Clone for TensorResourceDescriptor {
    fn clone(&self) -> (r: TensorResourceDescriptor)
        ensures
            r@ == self@,
    {
        TensorResourceDescriptor {
            id: self.id.clone(),
            byte_size: match &self.byte_size {
                Ok(n) => Ok(*n),
                Err(why) => Err(why.clone()),
            },
            affinity: self.affinity.clone(),
        }
    }
}

/// What some resources stand for.
pub open spec fn resources(s: Seq<TensorResourceDescriptor>) -> Seq<Resource> {
    Seq::new(s.len(), |i: int| s[i]@)
}

/// The value of an attribute.
#[derive(Debug, PartialEq, Eq)]
pub enum OperatorAttributeValue {
    /// A truth value.
    Boolean(bool),
    /// An integer.
    Integer(i64),
    /// A double-precision number, by its bits.
    Float(u64),
    /// A text.
    Text(String),
    /// An element type.
    DType(ComputeDType),
    /// A layout.
    Layout(TensorLayoutKind),
}

/// What an [`OperatorAttributeValue`] stands for.
pub enum Attribute {
    /// A truth value.
    Boolean(bool),
    /// An integer.
    Integer(i64),
    /// A double-precision number, by its bits.
    Float(u64),
    /// A text.
    Text(Seq<char>),
    /// An element type.
    DType(ComputeDType),
    /// A layout.
    Layout(TensorLayoutKind),
}

impl View for OperatorAttributeValue {
    type V = Attribute;

    open spec fn view(&self) -> Attribute {
        match self {
            OperatorAttributeValue::Boolean(b) => Attribute::Boolean(*b),
            OperatorAttributeValue::Integer(n) => Attribute::Integer(*n),
            OperatorAttributeValue::Float(w) => Attribute::Float(*w),
            OperatorAttributeValue::Text(s) => Attribute::Text(s@),
            OperatorAttributeValue::DType(d) => Attribute::DType(*d),
            OperatorAttributeValue::Layout(l) => Attribute::Layout(*l),
        }
    }
}

/// What attributes stand for.
pub open spec fn attribute_map(m: Map<Seq<char>, OperatorAttributeValue>) -> Map<
    Seq<char>,
    Attribute,
> {
    m.map_values(|v: OperatorAttributeValue| v@)
}

/// The value under a key, if there is one.
pub open spec fn attribute(m: Map<Seq<char>, Attribute>, key: Seq<char>) -> Option<Attribute> {
    if m.contains_key(key) {
        Some(m[key])
    } else {
        None
    }
}

/// The integer under a key, if there is one and it is not negative.
pub open spec fn integer_attribute(m: Map<Seq<char>, Attribute>, key: Seq<char>) -> Option<u64> {
    match attribute(m, key) {
        Some(Attribute::Integer(n)) => if n >= 0 {
            Some(n as u64)
        } else {
            None
        },
        _ => None,
    }
}

/// The truth value under a key, or the default.
pub open spec fn bool_attribute(
    m: Map<Seq<char>, Attribute>,
    key: Seq<char>,
    default: bool,
) -> bool {
    match attribute(m, key) {
        Some(Attribute::Boolean(b)) => b,
        _ => default,
    }
}

/// `r` is the number under a key in single precision, or the default.
pub open spec fn float_attribute<A: Arithmetic>(
    ops: &A,
    m: Map<Seq<char>, Attribute>,
    key: Seq<char>,
    default: u32,
    r: u32,
) -> bool {
    match attribute(m, key) {
        Some(Attribute::Float(wide)) => narrows(ops, wide, r),
        _ => r == default,
    }
}

/// Reads a number in single precision.
pub fn attribute_float<A: Arithmetic>(
    ops: &A,
    attributes: &Table<OperatorAttributeValue>,
    key: &str,
    default: u32,
) -> (r: u32)
    ensures
        float_attribute(ops, attribute_map(attributes@), key@, default, r),
{
    match attributes.get(key) {
        Some(OperatorAttributeValue::Float(wide)) => ops.narrow(*wide),
        _ => default,
    }
}

/// Reads an integer that is not negative.
pub fn attribute_integer(attributes: &Table<OperatorAttributeValue>, key: &str) -> (r: Option<u64>)
    ensures
        r == integer_attribute(attribute_map(attributes@), key@),
{
    match attributes.get(key) {
        Some(OperatorAttributeValue::Integer(n)) => if *n >= 0 {
            Some(*n as u64)
        } else {
            None
        },
        _ => None,
    }
}

/// Reads a truth value.
pub fn attribute_bool(
    attributes: &Table<OperatorAttributeValue>,
    key: &str,
    default: bool,
) -> (r: bool)
    ensures
        r == bool_attribute(attribute_map(attributes@), key@, default),
{
    match attributes.get(key) {
        Some(OperatorAttributeValue::Boolean(b)) => *b,
        _ => default,
    }
}

/// An invocation of a kernel.
pub struct KernelInvocation {
    /// Its identifier.
    pub id: String,
    /// The kernel.
    pub kernel: KernelId,
    /// The identifiers of the tensors that it reads.
    pub inputs: Vec<String>,
    /// The tensors that it writes.
    pub outputs: Vec<TensorResourceDescriptor>,
    /// Its attributes.
    pub attributes: Table<OperatorAttributeValue>,
    /// How many milliseconds are left to it, if it has a deadline.
    pub deadline_millis: Option<u64>,
}

/// What a [`KernelInvocation`] stands for.
pub struct Invocation {
    /// Its identifier.
    pub id: Seq<char>,
    /// The kernel.
    pub kernel: Kernel,
    /// The identifiers of the tensors that it reads.
    pub inputs: Seq<Seq<char>>,
    /// The tensors that it writes.
    pub outputs: Seq<Resource>,
    /// Its attributes.
    pub attributes: Map<Seq<char>, Attribute>,
    /// How many milliseconds are left to it, if it has a deadline.
    pub deadline_millis: Option<u64>,
}

impl View for KernelInvocation {
    type V = Invocation;

    open spec fn view(&self) -> Invocation {
        Invocation {
            id: self.id@,
            kernel: self.kernel@,
            inputs: texts(self.inputs@),
            outputs: resources(self.outputs@),
            attributes: attribute_map(self.attributes@),
            deadline_millis: self.deadline_millis,
        }
    }
}

/// How an invocation ended.
#[derive(Clone, Copy, Debug, PartialEq, Eq, Structural)]
pub enum KernelResultStatus {
    /// It succeeded.
    Succeeded,
    /// It failed.
    Failed,
    /// It was cancelled.
    Cancelled,
    /// It ran out of time.
    TimedOut,
}

/// Whether an output is ready.
#[derive(Debug, PartialEq, Eq)]
pub struct Readiness {
    /// The identifier of the output.
    pub id: String,
    /// It is ready.
    pub ready: bool,
}

/// The result of an invocation.
#[derive(Debug, PartialEq, Eq)]
pub struct KernelResult {
    /// The identifier of the invocation.
    pub invocation: String,
    /// How it ended.
    pub status: KernelResultStatus,
    /// Which outputs are ready.
    pub output_readiness: Vec<Readiness>,
    /// The tensors that were written.
    pub updated_resources: Vec<TensorResourceDescriptor>,
    /// What went wrong.
    pub error: Option<KernelError>,
}

/// What a [`KernelResult`] stands for.
pub struct Outcome {
    /// The identifier of the invocation.
    pub invocation: Seq<char>,
    /// How it ended.
    pub status: KernelResultStatus,
    /// Which outputs are ready.
    pub output_readiness: Seq<(Seq<char>, bool)>,
    /// The tensors that were written.
    pub updated_resources: Seq<Resource>,
    /// What went wrong.
    pub error: Option<KernelFault>,
}

/// What readiness stands for.
pub open spec fn readiness(s: Seq<Readiness>) -> Seq<(Seq<char>, bool)> {
    Seq::new(s.len(), |i: int| (s[i].id@, s[i].ready))
}

/// What an optional error stands for.
pub open spec fn optional_fault(e: Option<KernelError>) -> Option<KernelFault> {
    match e {
        Some(x) => Some(x@),
        None => None,
    }
}

impl View for KernelResult {
    type V = Outcome;

    open spec fn view(&self) -> Outcome {
        Outcome {
            invocation: self.invocation@,
            status: self.status,
            output_readiness: readiness(self.output_readiness@),
            updated_resources: resources(self.updated_resources@),
            error: optional_fault(self.error),
        }
    }
}

/// The result of an invocation that wrote one tensor.
pub open spec fn success(invocation: Seq<char>, output: Resource) -> Outcome {
    Outcome {
        invocation,
        status: KernelResultStatus::Succeeded,
        output_readiness: seq![(output.id, true)],
        updated_resources: seq![output],
        error: None,
    }
}

/// The result of an invocation that went wrong.
pub open spec fn failure(invocation: Seq<char>, error: KernelFault) -> Outcome {
    Outcome {
        invocation,
        status: KernelResultStatus::Failed,
        output_readiness: Seq::empty(),
        updated_resources: Seq::empty(),
        error: Some(error),
    }
}

impl KernelResult {
    /// The result of an invocation that wrote one tensor.
    pub fn success(invocation: String, output: TensorResourceDescriptor) -> (r: KernelResult)
        ensures
            r@ == success(invocation@, output@),
    {
        let r = KernelResult {
            invocation,
            status: KernelResultStatus::Succeeded,
            output_readiness: vec![Readiness { id: output.id.clone(), ready: true }],
            updated_resources: vec![output],
            error: None,
        };
        proof {
            assert(r@.output_readiness =~= seq![(output@.id, true)]);
            assert(r@.updated_resources =~= seq![output@]);
        }
        r
    }

    /// The result of an invocation that went wrong.
    pub fn failure(invocation: String, error: KernelError) -> (r: KernelResult)
        ensures
            r@ == failure(invocation@, error@),
    {
        let r = KernelResult {
            invocation,
            status: KernelResultStatus::Failed,
            output_readiness: Vec::new(),
            updated_resources: Vec::new(),
            error: Some(error),
        };
        proof {
            assert(r@.output_readiness =~= Seq::empty());
            assert(r@.updated_resources =~= Seq::empty());
        }
        r
    }
}

} // verus!
