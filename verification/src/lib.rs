//! Lean fixtures of captured Halo2 verifier runs over the Vesta curve.
//!
//! [`key::VerifyingKey::dump_vesta_lean_fixture`] emits a self-contained Lean file in the requested
//! namespace, capturing one real proof: the verifying key (gates, query layouts, lookups,
//! permutation chunking, domain), the proof string, the Fiat-Shamir challenges, and the assembled
//! MSM, plus the `MsmMatch (assemble vk ps ch) capturedMsm := by native_decide` theorem.
//!
//! Scalar and base field elements are emitted as four little-endian `u64` limbs (`mkFp`/`mkFq`).
//! Commitments and the complete verifier URS are emitted as validated concrete Vesta points, shared
//! across the key, proof string, transcript, and MSM.
//!
//! Only accepting runs are exported: a capture whose MSM is not the group identity is refused, and
//! so is one in which same-base terms were merged or identity bases were dropped.
//! [`key::VerifyingKey::try_dump_vesta_lean_fixture`] says why a capture is refused.
//!
//! Trust boundary: the fixture attests that the assembled MSM matches, and evaluates to the
//! identity, for *these* captured commitments and challenges. It does not re-derive the instance
//! commitments from the public inputs, nor does it reproduce Halo2's Blake2b transcript or
//! pinned-key serialization. The arithmetic of the fields and of the curve is that of
//! `pasta_curves`; the modules `field` and `curve` state what is relied upon.
#![allow(unused_imports)]

pub mod capture;
pub mod circuit;
pub mod circuit_laws;
pub mod curve;
pub mod emitted;
pub mod field;
pub mod fixture;
pub mod key;
pub mod laws;
pub mod msm;
pub mod msm_laws;
pub mod names;
pub mod points;
pub mod refusals;
pub mod schedule;
pub mod slots;
pub mod text;
pub mod transcript;
pub mod transcript_laws;
