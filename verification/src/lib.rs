//! Proof-certificate assembly and error-bound bookkeeping for a verified 3D
//! spatial library.
//!
//! A Proof Certificate lists, per build, every verified function with its
//! source span, the native evidence that discharged it, the derived
//! realization-layer bound `ε`, and the regulatory objectives it supports.
//! The certification rule refuses to produce a certificate unless every obligation it
//! lists was discharged: there is no partial or best-effort certificate.
//!
//! * [`verify_report`] — the per-function, per-check verification report and
//!   the queries a certificate is assembled from.
//! * [`telos_manifest`] — the tool's own proof manifest, keyed by function.
//! * [`certificate`] — entries, the certificate, its certification rule and assembly.
//! * [`realization`] — hit/miss decisions, refusal reasons, derived-bound
//!   summaries and the mirrored operation graphs.
//! * [`domain`] — declared input envelopes of the realization engine and
//!   the checks that accept or refuse them.
//! * [`state`] — content-addressed state snapshots.
//! * [`float_bits`] — `f64` values handled exactly through their bit patterns.
//! * [`text`] — character-level string helpers the above are specified with.
pub mod certificate;
pub mod domain;
pub mod float_bits;
pub mod realization;
pub mod state;
pub mod telos_manifest;
pub mod text;
pub mod verify_report;

pub use certificate::{
    base_name, AssemblyError, CertificateEntry, Do178cTableA5Row, ProofCertificate,
    RegulatoryObjective, SourceLocation, MANIFEST_VERSION,
};
