# tpt_certus

Proof-certificate assembly for a formally verified 3D spatial suite, with the
certificate rules proved in Verus.

A Proof Certificate lists, per build, every verified function with its source
span, its ideal and realization contracts, the derived floating-point error
bound `ε`, and the regulatory objectives it supports.  The library decides
when such a certificate may exist at all: an entry without a usable source
span, without native evidence, with a hand-written `ε`, or with
approximation-discharged conclusions blocks it, and assembly from a
verification report refuses every failed or unsupported input.

## Layout

* `src/` — the verified library.
  * `certificate` — entries, certificates, blocking problems and assembly.
  * `verify_report`, `telos_manifest` — the two native evidence documents,
    as plain data with their queries.
  * `realization` — decisions, refusal reasons, derived-bound summaries and
    the mirrored operation graphs; `domain` — declared input envelopes and
    their checks.
  * `float_bits` — `f64` values handled exactly through their bit patterns.
  * `text`, `state` — string helpers and state snapshots.
* `tests/` — tests of the library.
* `app/` — the unverified rest: IEEE-754 geometry, ray casting and interval
  arithmetic, and the JSON documents (serde) around the library's types.
