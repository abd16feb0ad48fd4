# magnetar-provider-cpu

The reference CPU provider for the Magnetar runtime: a correctness-first
baseline for portable operators in host memory, with its behaviour stated in
contracts and proved by Verus.

- `src/` is the library. Numeric kernels are in `src/kernels/`; `executor.rs`
  keeps the tensors and executes invocations; `admission.rs` has memory admitted
  before a kernel is called; `catalogue.rs`, `device.rs` and `provider.rs` say
  what is offered.
- `app/` implements the provider interfaces of `magnetar-runtime` on top of the
  library: conversions of types, locking, and the arithmetic of the host.
- `tests/` runs the library with the arithmetic of `f32`.

Elements are held as the 32 bits of a single-precision number. The library
decides what the bits alone decide; rounding is done by an `Arithmetic` that the
caller supplies. A kernel's contract says which operation is applied to which
elements and in which order, so it holds for any rounding. Likewise memory is
asked of a `MemoryLedger` that the caller supplies: contracts say what is asked
of it, in which order, and what follows from each reply.
