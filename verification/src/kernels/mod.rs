//! The numeric kernels. Each is a function of tensors, specified by which
//! operations it applies to which elements in which order.

pub mod attention;
pub mod attention_laws;
pub mod attention_meaning;
pub mod attention_steps;
pub mod matmul;
pub mod matmul_laws;
pub mod readiness_laws;
pub mod refusal_laws;
pub mod rmsnorm;
pub mod rmsnorm_laws;
pub mod rope;
pub mod rope_laws;
pub mod softmax;
pub mod softmax_laws;
pub mod embedding;
pub mod embedding_laws;
pub mod elementwise;
pub mod elementwise_laws;
pub mod conversion;
