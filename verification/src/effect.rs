//! What a call of a function does to the values behind its mutable references.
//!
//! A contract may speak of the value that a reference ends with, a spec function may not. The
//! predicates here speak of it all the same: each holds of the outcomes that were recorded by
//! calling a function whose contract states them. Their names give the shape of the function
//! called, `m` for a mutable reference and `p` for a plain argument.
use vstd::prelude::*;

verus! {

/// Calls `g`, and thereby learns what it ensures in the form of `call_ensures`.
pub(crate) fn record<A, G: Fn(A)>(g: G, a: A)
    requires
        call_requires(g, (a,)),
    ensures
        call_ensures(g, (a,), ()),
{
    g(a)
}

/// Carries the outcome of a call of `f` on a mutable reference.
pub fn effect_m_fact<M0, Out, F: FnMut(&mut M0) -> Out>(call: Ghost<(F, M0, M0, Out)>)
    requires
        exists|r0: &mut M0|
            *r0 == call@.1
                && *final(r0) == call@.2
                && call_ensures(call@.0, (r0,), call@.3),
    ensures
        exists|r0: &mut M0|
            *r0 == call@.1
                && *final(r0) == call@.2
                && call_ensures(call@.0, (r0,), call@.3),
{
}

/// `f` may return `out` on a mutable reference,
/// and leave the referents at the given values.
pub open spec fn effect_m<M0, Out, F: FnMut(&mut M0) -> Out>(
    f: F,
    m0: M0,
    m0_after: M0,
    out: Out,
) -> bool {
    call_ensures(effect_m_fact::<M0, Out, F>, (Ghost((f, m0, m0_after, out)),), ())
}

/// What [`effect_m`] says of `f`.
pub proof fn lemma_effect_m<M0, Out, F: FnMut(&mut M0) -> Out>(f: F, m0: M0, m0_after: M0, out: Out)
    requires
        effect_m(f, m0, m0_after, out),
    ensures
        exists|r0: &mut M0|
            *r0 == m0
                && *final(r0) == m0_after
                && call_ensures(f, (r0,), out),
{
}

/// Carries the outcome of a call of `f` on two mutable references.
pub fn effect_mm_fact<M0, M1, Out, F: FnMut(&mut M0, &mut M1) -> Out>(
    call: Ghost<(F, M0, M1, M0, M1, Out)>,
)
    requires
        exists|r0: &mut M0|
            *r0 == call@.1
                && *final(r0) == call@.3
                && exists|r1: &mut M1|
                    *r1 == call@.2
                        && *final(r1) == call@.4
                        && call_ensures(call@.0, (r0, r1), call@.5),
    ensures
        exists|r0: &mut M0|
            *r0 == call@.1
                && *final(r0) == call@.3
                && exists|r1: &mut M1|
                    *r1 == call@.2
                        && *final(r1) == call@.4
                        && call_ensures(call@.0, (r0, r1), call@.5),
{
}

/// `f` may return `out` on two mutable references,
/// and leave the referents at the given values.
pub open spec fn effect_mm<M0, M1, Out, F: FnMut(&mut M0, &mut M1) -> Out>(
    f: F,
    m0: M0,
    m1: M1,
    m0_after: M0,
    m1_after: M1,
    out: Out,
) -> bool {
    call_ensures(
        effect_mm_fact::<M0, M1, Out, F>,
        (Ghost((f, m0, m1, m0_after, m1_after, out)),),
        (),
    )
}

/// What [`effect_mm`] says of `f`.
pub proof fn lemma_effect_mm<M0, M1, Out, F: FnMut(&mut M0, &mut M1) -> Out>(
    f: F,
    m0: M0,
    m1: M1,
    m0_after: M0,
    m1_after: M1,
    out: Out,
)
    requires
        effect_mm(f, m0, m1, m0_after, m1_after, out),
    ensures
        exists|r0: &mut M0|
            *r0 == m0
                && *final(r0) == m0_after
                && exists|r1: &mut M1|
                    *r1 == m1
                        && *final(r1) == m1_after
                        && call_ensures(f, (r0, r1), out),
{
}

/// Carries the outcome of a call of `f` on a mutable reference and one plain argument.
pub fn effect_mp_fact<M0, P1, Out, F: FnMut(&mut M0, P1) -> Out>(call: Ghost<(F, M0, P1, M0, Out)>)
    requires
        exists|r0: &mut M0|
            *r0 == call@.1
                && *final(r0) == call@.3
                && call_ensures(call@.0, (r0, call@.2), call@.4),
    ensures
        exists|r0: &mut M0|
            *r0 == call@.1
                && *final(r0) == call@.3
                && call_ensures(call@.0, (r0, call@.2), call@.4),
{
}

/// `f` may return `out` on a mutable reference and one plain argument,
/// and leave the referents at the given values.
pub open spec fn effect_mp<M0, P1, Out, F: FnMut(&mut M0, P1) -> Out>(
    f: F,
    m0: M0,
    p1: P1,
    m0_after: M0,
    out: Out,
) -> bool {
    call_ensures(effect_mp_fact::<M0, P1, Out, F>, (Ghost((f, m0, p1, m0_after, out)),), ())
}

/// What [`effect_mp`] says of `f`.
pub proof fn lemma_effect_mp<M0, P1, Out, F: FnMut(&mut M0, P1) -> Out>(
    f: F,
    m0: M0,
    p1: P1,
    m0_after: M0,
    out: Out,
)
    requires
        effect_mp(f, m0, p1, m0_after, out),
    ensures
        exists|r0: &mut M0|
            *r0 == m0
                && *final(r0) == m0_after
                && call_ensures(f, (r0, p1), out),
{
}

/// Carries the outcome of a call of `f` on a mutable reference and one plain argument.
pub fn effect_pm_fact<P0, M1, Out, F: FnMut(P0, &mut M1) -> Out>(call: Ghost<(F, P0, M1, M1, Out)>)
    requires
        exists|r1: &mut M1|
            *r1 == call@.2
                && *final(r1) == call@.3
                && call_ensures(call@.0, (call@.1, r1), call@.4),
    ensures
        exists|r1: &mut M1|
            *r1 == call@.2
                && *final(r1) == call@.3
                && call_ensures(call@.0, (call@.1, r1), call@.4),
{
}

/// `f` may return `out` on a mutable reference and one plain argument,
/// and leave the referents at the given values.
pub open spec fn effect_pm<P0, M1, Out, F: FnMut(P0, &mut M1) -> Out>(
    f: F,
    p0: P0,
    m1: M1,
    m1_after: M1,
    out: Out,
) -> bool {
    call_ensures(effect_pm_fact::<P0, M1, Out, F>, (Ghost((f, p0, m1, m1_after, out)),), ())
}

/// What [`effect_pm`] says of `f`.
pub proof fn lemma_effect_pm<P0, M1, Out, F: FnMut(P0, &mut M1) -> Out>(
    f: F,
    p0: P0,
    m1: M1,
    m1_after: M1,
    out: Out,
)
    requires
        effect_pm(f, p0, m1, m1_after, out),
    ensures
        exists|r1: &mut M1|
            *r1 == m1
                && *final(r1) == m1_after
                && call_ensures(f, (p0, r1), out),
{
}

/// Carries the outcome of a call of `f` on three mutable references.
pub fn effect_mmm_fact<M0, M1, M2, Out, F: FnMut(&mut M0, &mut M1, &mut M2) -> Out>(
    call: Ghost<(F, M0, M1, M2, M0, M1, M2, Out)>,
)
    requires
        exists|r0: &mut M0|
            *r0 == call@.1
                && *final(r0) == call@.4
                && exists|r1: &mut M1|
                    *r1 == call@.2
                        && *final(r1) == call@.5
                        && exists|r2: &mut M2|
                            *r2 == call@.3
                                && *final(r2) == call@.6
                                && call_ensures(call@.0, (r0, r1, r2), call@.7),
    ensures
        exists|r0: &mut M0|
            *r0 == call@.1
                && *final(r0) == call@.4
                && exists|r1: &mut M1|
                    *r1 == call@.2
                        && *final(r1) == call@.5
                        && exists|r2: &mut M2|
                            *r2 == call@.3
                                && *final(r2) == call@.6
                                && call_ensures(call@.0, (r0, r1, r2), call@.7),
{
}

/// `f` may return `out` on three mutable references,
/// and leave the referents at the given values.
pub open spec fn effect_mmm<M0, M1, M2, Out, F: FnMut(&mut M0, &mut M1, &mut M2) -> Out>(
    f: F,
    m0: M0,
    m1: M1,
    m2: M2,
    m0_after: M0,
    m1_after: M1,
    m2_after: M2,
    out: Out,
) -> bool {
    call_ensures(
        effect_mmm_fact::<M0, M1, M2, Out, F>,
        (Ghost((f, m0, m1, m2, m0_after, m1_after, m2_after, out)),),
        (),
    )
}

/// What [`effect_mmm`] says of `f`.
pub proof fn lemma_effect_mmm<M0, M1, M2, Out, F: FnMut(&mut M0, &mut M1, &mut M2) -> Out>(
    f: F,
    m0: M0,
    m1: M1,
    m2: M2,
    m0_after: M0,
    m1_after: M1,
    m2_after: M2,
    out: Out,
)
    requires
        effect_mmm(f, m0, m1, m2, m0_after, m1_after, m2_after, out),
    ensures
        exists|r0: &mut M0|
            *r0 == m0
                && *final(r0) == m0_after
                && exists|r1: &mut M1|
                    *r1 == m1
                        && *final(r1) == m1_after
                        && exists|r2: &mut M2|
                            *r2 == m2
                                && *final(r2) == m2_after
                                && call_ensures(f, (r0, r1, r2), out),
{
}

/// Carries the outcome of a call of `f` on two mutable references and one plain argument.
pub fn effect_mmp_fact<M0, M1, P2, Out, F: FnMut(&mut M0, &mut M1, P2) -> Out>(
    call: Ghost<(F, M0, M1, P2, M0, M1, Out)>,
)
    requires
        exists|r0: &mut M0|
            *r0 == call@.1
                && *final(r0) == call@.4
                && exists|r1: &mut M1|
                    *r1 == call@.2
                        && *final(r1) == call@.5
                        && call_ensures(call@.0, (r0, r1, call@.3), call@.6),
    ensures
        exists|r0: &mut M0|
            *r0 == call@.1
                && *final(r0) == call@.4
                && exists|r1: &mut M1|
                    *r1 == call@.2
                        && *final(r1) == call@.5
                        && call_ensures(call@.0, (r0, r1, call@.3), call@.6),
{
}

/// `f` may return `out` on two mutable references and one plain argument,
/// and leave the referents at the given values.
pub open spec fn effect_mmp<M0, M1, P2, Out, F: FnMut(&mut M0, &mut M1, P2) -> Out>(
    f: F,
    m0: M0,
    m1: M1,
    p2: P2,
    m0_after: M0,
    m1_after: M1,
    out: Out,
) -> bool {
    call_ensures(
        effect_mmp_fact::<M0, M1, P2, Out, F>,
        (Ghost((f, m0, m1, p2, m0_after, m1_after, out)),),
        (),
    )
}

/// What [`effect_mmp`] says of `f`.
pub proof fn lemma_effect_mmp<M0, M1, P2, Out, F: FnMut(&mut M0, &mut M1, P2) -> Out>(
    f: F,
    m0: M0,
    m1: M1,
    p2: P2,
    m0_after: M0,
    m1_after: M1,
    out: Out,
)
    requires
        effect_mmp(f, m0, m1, p2, m0_after, m1_after, out),
    ensures
        exists|r0: &mut M0|
            *r0 == m0
                && *final(r0) == m0_after
                && exists|r1: &mut M1|
                    *r1 == m1
                        && *final(r1) == m1_after
                        && call_ensures(f, (r0, r1, p2), out),
{
}

/// Carries the outcome of a call of `f` on two mutable references and one plain argument.
pub fn effect_mpm_fact<M0, P1, M2, Out, F: FnMut(&mut M0, P1, &mut M2) -> Out>(
    call: Ghost<(F, M0, P1, M2, M0, M2, Out)>,
)
    requires
        exists|r0: &mut M0|
            *r0 == call@.1
                && *final(r0) == call@.4
                && exists|r2: &mut M2|
                    *r2 == call@.3
                        && *final(r2) == call@.5
                        && call_ensures(call@.0, (r0, call@.2, r2), call@.6),
    ensures
        exists|r0: &mut M0|
            *r0 == call@.1
                && *final(r0) == call@.4
                && exists|r2: &mut M2|
                    *r2 == call@.3
                        && *final(r2) == call@.5
                        && call_ensures(call@.0, (r0, call@.2, r2), call@.6),
{
}

/// `f` may return `out` on two mutable references and one plain argument,
/// and leave the referents at the given values.
pub open spec fn effect_mpm<M0, P1, M2, Out, F: FnMut(&mut M0, P1, &mut M2) -> Out>(
    f: F,
    m0: M0,
    p1: P1,
    m2: M2,
    m0_after: M0,
    m2_after: M2,
    out: Out,
) -> bool {
    call_ensures(
        effect_mpm_fact::<M0, P1, M2, Out, F>,
        (Ghost((f, m0, p1, m2, m0_after, m2_after, out)),),
        (),
    )
}

/// What [`effect_mpm`] says of `f`.
pub proof fn lemma_effect_mpm<M0, P1, M2, Out, F: FnMut(&mut M0, P1, &mut M2) -> Out>(
    f: F,
    m0: M0,
    p1: P1,
    m2: M2,
    m0_after: M0,
    m2_after: M2,
    out: Out,
)
    requires
        effect_mpm(f, m0, p1, m2, m0_after, m2_after, out),
    ensures
        exists|r0: &mut M0|
            *r0 == m0
                && *final(r0) == m0_after
                && exists|r2: &mut M2|
                    *r2 == m2
                        && *final(r2) == m2_after
                        && call_ensures(f, (r0, p1, r2), out),
{
}

/// Carries the outcome of a call of `f` on a mutable reference and two plain arguments.
pub fn effect_mpp_fact<M0, P1, P2, Out, F: FnMut(&mut M0, P1, P2) -> Out>(
    call: Ghost<(F, M0, P1, P2, M0, Out)>,
)
    requires
        exists|r0: &mut M0|
            *r0 == call@.1
                && *final(r0) == call@.4
                && call_ensures(call@.0, (r0, call@.2, call@.3), call@.5),
    ensures
        exists|r0: &mut M0|
            *r0 == call@.1
                && *final(r0) == call@.4
                && call_ensures(call@.0, (r0, call@.2, call@.3), call@.5),
{
}

/// `f` may return `out` on a mutable reference and two plain arguments,
/// and leave the referents at the given values.
pub open spec fn effect_mpp<M0, P1, P2, Out, F: FnMut(&mut M0, P1, P2) -> Out>(
    f: F,
    m0: M0,
    p1: P1,
    p2: P2,
    m0_after: M0,
    out: Out,
) -> bool {
    call_ensures(
        effect_mpp_fact::<M0, P1, P2, Out, F>,
        (Ghost((f, m0, p1, p2, m0_after, out)),),
        (),
    )
}

/// What [`effect_mpp`] says of `f`.
pub proof fn lemma_effect_mpp<M0, P1, P2, Out, F: FnMut(&mut M0, P1, P2) -> Out>(
    f: F,
    m0: M0,
    p1: P1,
    p2: P2,
    m0_after: M0,
    out: Out,
)
    requires
        effect_mpp(f, m0, p1, p2, m0_after, out),
    ensures
        exists|r0: &mut M0|
            *r0 == m0
                && *final(r0) == m0_after
                && call_ensures(f, (r0, p1, p2), out),
{
}

/// Carries the outcome of a call of `f` on two mutable references and one plain argument.
pub fn effect_pmm_fact<P0, M1, M2, Out, F: FnMut(P0, &mut M1, &mut M2) -> Out>(
    call: Ghost<(F, P0, M1, M2, M1, M2, Out)>,
)
    requires
        exists|r1: &mut M1|
            *r1 == call@.2
                && *final(r1) == call@.4
                && exists|r2: &mut M2|
                    *r2 == call@.3
                        && *final(r2) == call@.5
                        && call_ensures(call@.0, (call@.1, r1, r2), call@.6),
    ensures
        exists|r1: &mut M1|
            *r1 == call@.2
                && *final(r1) == call@.4
                && exists|r2: &mut M2|
                    *r2 == call@.3
                        && *final(r2) == call@.5
                        && call_ensures(call@.0, (call@.1, r1, r2), call@.6),
{
}

/// `f` may return `out` on two mutable references and one plain argument,
/// and leave the referents at the given values.
pub open spec fn effect_pmm<P0, M1, M2, Out, F: FnMut(P0, &mut M1, &mut M2) -> Out>(
    f: F,
    p0: P0,
    m1: M1,
    m2: M2,
    m1_after: M1,
    m2_after: M2,
    out: Out,
) -> bool {
    call_ensures(
        effect_pmm_fact::<P0, M1, M2, Out, F>,
        (Ghost((f, p0, m1, m2, m1_after, m2_after, out)),),
        (),
    )
}

/// What [`effect_pmm`] says of `f`.
pub proof fn lemma_effect_pmm<P0, M1, M2, Out, F: FnMut(P0, &mut M1, &mut M2) -> Out>(
    f: F,
    p0: P0,
    m1: M1,
    m2: M2,
    m1_after: M1,
    m2_after: M2,
    out: Out,
)
    requires
        effect_pmm(f, p0, m1, m2, m1_after, m2_after, out),
    ensures
        exists|r1: &mut M1|
            *r1 == m1
                && *final(r1) == m1_after
                && exists|r2: &mut M2|
                    *r2 == m2
                        && *final(r2) == m2_after
                        && call_ensures(f, (p0, r1, r2), out),
{
}

/// Carries the outcome of a call of `f` on a mutable reference and two plain arguments.
pub fn effect_pmp_fact<P0, M1, P2, Out, F: FnMut(P0, &mut M1, P2) -> Out>(
    call: Ghost<(F, P0, M1, P2, M1, Out)>,
)
    requires
        exists|r1: &mut M1|
            *r1 == call@.2
                && *final(r1) == call@.4
                && call_ensures(call@.0, (call@.1, r1, call@.3), call@.5),
    ensures
        exists|r1: &mut M1|
            *r1 == call@.2
                && *final(r1) == call@.4
                && call_ensures(call@.0, (call@.1, r1, call@.3), call@.5),
{
}

/// `f` may return `out` on a mutable reference and two plain arguments,
/// and leave the referents at the given values.
pub open spec fn effect_pmp<P0, M1, P2, Out, F: FnMut(P0, &mut M1, P2) -> Out>(
    f: F,
    p0: P0,
    m1: M1,
    p2: P2,
    m1_after: M1,
    out: Out,
) -> bool {
    call_ensures(
        effect_pmp_fact::<P0, M1, P2, Out, F>,
        (Ghost((f, p0, m1, p2, m1_after, out)),),
        (),
    )
}

/// What [`effect_pmp`] says of `f`.
pub proof fn lemma_effect_pmp<P0, M1, P2, Out, F: FnMut(P0, &mut M1, P2) -> Out>(
    f: F,
    p0: P0,
    m1: M1,
    p2: P2,
    m1_after: M1,
    out: Out,
)
    requires
        effect_pmp(f, p0, m1, p2, m1_after, out),
    ensures
        exists|r1: &mut M1|
            *r1 == m1
                && *final(r1) == m1_after
                && call_ensures(f, (p0, r1, p2), out),
{
}

/// Carries the outcome of a call of `f` on a mutable reference and two plain arguments.
pub fn effect_ppm_fact<P0, P1, M2, Out, F: FnMut(P0, P1, &mut M2) -> Out>(
    call: Ghost<(F, P0, P1, M2, M2, Out)>,
)
    requires
        exists|r2: &mut M2|
            *r2 == call@.3
                && *final(r2) == call@.4
                && call_ensures(call@.0, (call@.1, call@.2, r2), call@.5),
    ensures
        exists|r2: &mut M2|
            *r2 == call@.3
                && *final(r2) == call@.4
                && call_ensures(call@.0, (call@.1, call@.2, r2), call@.5),
{
}

/// `f` may return `out` on a mutable reference and two plain arguments,
/// and leave the referents at the given values.
pub open spec fn effect_ppm<P0, P1, M2, Out, F: FnMut(P0, P1, &mut M2) -> Out>(
    f: F,
    p0: P0,
    p1: P1,
    m2: M2,
    m2_after: M2,
    out: Out,
) -> bool {
    call_ensures(
        effect_ppm_fact::<P0, P1, M2, Out, F>,
        (Ghost((f, p0, p1, m2, m2_after, out)),),
        (),
    )
}

/// What [`effect_ppm`] says of `f`.
pub proof fn lemma_effect_ppm<P0, P1, M2, Out, F: FnMut(P0, P1, &mut M2) -> Out>(
    f: F,
    p0: P0,
    p1: P1,
    m2: M2,
    m2_after: M2,
    out: Out,
)
    requires
        effect_ppm(f, p0, p1, m2, m2_after, out),
    ensures
        exists|r2: &mut M2|
            *r2 == m2
                && *final(r2) == m2_after
                && call_ensures(f, (p0, p1, r2), out),
{
}

/// Carries the outcome of a call of `f` on four mutable references.
pub fn effect_mmmm_fact<M0, M1, M2, M3, Out, F: FnMut(&mut M0, &mut M1, &mut M2, &mut M3) -> Out>(
    call: Ghost<(F, M0, M1, M2, M3, M0, M1, M2, M3, Out)>,
)
    requires
        exists|r0: &mut M0|
            *r0 == call@.1
                && *final(r0) == call@.5
                && exists|r1: &mut M1|
                    *r1 == call@.2
                        && *final(r1) == call@.6
                        && exists|r2: &mut M2|
                            *r2 == call@.3
                                && *final(r2) == call@.7
                                && exists|r3: &mut M3|
                                    *r3 == call@.4
                                        && *final(r3) == call@.8
                                        && call_ensures(call@.0, (r0, r1, r2, r3), call@.9),
    ensures
        exists|r0: &mut M0|
            *r0 == call@.1
                && *final(r0) == call@.5
                && exists|r1: &mut M1|
                    *r1 == call@.2
                        && *final(r1) == call@.6
                        && exists|r2: &mut M2|
                            *r2 == call@.3
                                && *final(r2) == call@.7
                                && exists|r3: &mut M3|
                                    *r3 == call@.4
                                        && *final(r3) == call@.8
                                        && call_ensures(call@.0, (r0, r1, r2, r3), call@.9),
{
}

/// `f` may return `out` on four mutable references,
/// and leave the referents at the given values.
pub open spec fn effect_mmmm<
    M0,
    M1,
    M2,
    M3,
    Out,
    F: FnMut(&mut M0, &mut M1, &mut M2, &mut M3) -> Out,
>(
    f: F,
    m0: M0,
    m1: M1,
    m2: M2,
    m3: M3,
    m0_after: M0,
    m1_after: M1,
    m2_after: M2,
    m3_after: M3,
    out: Out,
) -> bool {
    call_ensures(
        effect_mmmm_fact::<M0, M1, M2, M3, Out, F>,
        (Ghost((f, m0, m1, m2, m3, m0_after, m1_after, m2_after, m3_after, out)),),
        (),
    )
}

/// What [`effect_mmmm`] says of `f`.
pub proof fn lemma_effect_mmmm<
    M0,
    M1,
    M2,
    M3,
    Out,
    F: FnMut(&mut M0, &mut M1, &mut M2, &mut M3) -> Out,
>(
    f: F,
    m0: M0,
    m1: M1,
    m2: M2,
    m3: M3,
    m0_after: M0,
    m1_after: M1,
    m2_after: M2,
    m3_after: M3,
    out: Out,
)
    requires
        effect_mmmm(f, m0, m1, m2, m3, m0_after, m1_after, m2_after, m3_after, out),
    ensures
        exists|r0: &mut M0|
            *r0 == m0
                && *final(r0) == m0_after
                && exists|r1: &mut M1|
                    *r1 == m1
                        && *final(r1) == m1_after
                        && exists|r2: &mut M2|
                            *r2 == m2
                                && *final(r2) == m2_after
                                && exists|r3: &mut M3|
                                    *r3 == m3
                                        && *final(r3) == m3_after
                                        && call_ensures(f, (r0, r1, r2, r3), out),
{
}

/// Carries the outcome of a call of `f` on three mutable references and one plain argument.
pub fn effect_mmmp_fact<M0, M1, M2, P3, Out, F: FnMut(&mut M0, &mut M1, &mut M2, P3) -> Out>(
    call: Ghost<(F, M0, M1, M2, P3, M0, M1, M2, Out)>,
)
    requires
        exists|r0: &mut M0|
            *r0 == call@.1
                && *final(r0) == call@.5
                && exists|r1: &mut M1|
                    *r1 == call@.2
                        && *final(r1) == call@.6
                        && exists|r2: &mut M2|
                            *r2 == call@.3
                                && *final(r2) == call@.7
                                && call_ensures(call@.0, (r0, r1, r2, call@.4), call@.8),
    ensures
        exists|r0: &mut M0|
            *r0 == call@.1
                && *final(r0) == call@.5
                && exists|r1: &mut M1|
                    *r1 == call@.2
                        && *final(r1) == call@.6
                        && exists|r2: &mut M2|
                            *r2 == call@.3
                                && *final(r2) == call@.7
                                && call_ensures(call@.0, (r0, r1, r2, call@.4), call@.8),
{
}

/// `f` may return `out` on three mutable references and one plain argument,
/// and leave the referents at the given values.
pub open spec fn effect_mmmp<M0, M1, M2, P3, Out, F: FnMut(&mut M0, &mut M1, &mut M2, P3) -> Out>(
    f: F,
    m0: M0,
    m1: M1,
    m2: M2,
    p3: P3,
    m0_after: M0,
    m1_after: M1,
    m2_after: M2,
    out: Out,
) -> bool {
    call_ensures(
        effect_mmmp_fact::<M0, M1, M2, P3, Out, F>,
        (Ghost((f, m0, m1, m2, p3, m0_after, m1_after, m2_after, out)),),
        (),
    )
}

/// What [`effect_mmmp`] says of `f`.
pub proof fn lemma_effect_mmmp<
    M0,
    M1,
    M2,
    P3,
    Out,
    F: FnMut(&mut M0, &mut M1, &mut M2, P3) -> Out,
>(f: F, m0: M0, m1: M1, m2: M2, p3: P3, m0_after: M0, m1_after: M1, m2_after: M2, out: Out)
    requires
        effect_mmmp(f, m0, m1, m2, p3, m0_after, m1_after, m2_after, out),
    ensures
        exists|r0: &mut M0|
            *r0 == m0
                && *final(r0) == m0_after
                && exists|r1: &mut M1|
                    *r1 == m1
                        && *final(r1) == m1_after
                        && exists|r2: &mut M2|
                            *r2 == m2
                                && *final(r2) == m2_after
                                && call_ensures(f, (r0, r1, r2, p3), out),
{
}

/// Carries the outcome of a call of `f` on three mutable references and one plain argument.
pub fn effect_mmpm_fact<M0, M1, P2, M3, Out, F: FnMut(&mut M0, &mut M1, P2, &mut M3) -> Out>(
    call: Ghost<(F, M0, M1, P2, M3, M0, M1, M3, Out)>,
)
    requires
        exists|r0: &mut M0|
            *r0 == call@.1
                && *final(r0) == call@.5
                && exists|r1: &mut M1|
                    *r1 == call@.2
                        && *final(r1) == call@.6
                        && exists|r3: &mut M3|
                            *r3 == call@.4
                                && *final(r3) == call@.7
                                && call_ensures(call@.0, (r0, r1, call@.3, r3), call@.8),
    ensures
        exists|r0: &mut M0|
            *r0 == call@.1
                && *final(r0) == call@.5
                && exists|r1: &mut M1|
                    *r1 == call@.2
                        && *final(r1) == call@.6
                        && exists|r3: &mut M3|
                            *r3 == call@.4
                                && *final(r3) == call@.7
                                && call_ensures(call@.0, (r0, r1, call@.3, r3), call@.8),
{
}

/// `f` may return `out` on three mutable references and one plain argument,
/// and leave the referents at the given values.
pub open spec fn effect_mmpm<M0, M1, P2, M3, Out, F: FnMut(&mut M0, &mut M1, P2, &mut M3) -> Out>(
    f: F,
    m0: M0,
    m1: M1,
    p2: P2,
    m3: M3,
    m0_after: M0,
    m1_after: M1,
    m3_after: M3,
    out: Out,
) -> bool {
    call_ensures(
        effect_mmpm_fact::<M0, M1, P2, M3, Out, F>,
        (Ghost((f, m0, m1, p2, m3, m0_after, m1_after, m3_after, out)),),
        (),
    )
}

/// What [`effect_mmpm`] says of `f`.
pub proof fn lemma_effect_mmpm<
    M0,
    M1,
    P2,
    M3,
    Out,
    F: FnMut(&mut M0, &mut M1, P2, &mut M3) -> Out,
>(f: F, m0: M0, m1: M1, p2: P2, m3: M3, m0_after: M0, m1_after: M1, m3_after: M3, out: Out)
    requires
        effect_mmpm(f, m0, m1, p2, m3, m0_after, m1_after, m3_after, out),
    ensures
        exists|r0: &mut M0|
            *r0 == m0
                && *final(r0) == m0_after
                && exists|r1: &mut M1|
                    *r1 == m1
                        && *final(r1) == m1_after
                        && exists|r3: &mut M3|
                            *r3 == m3
                                && *final(r3) == m3_after
                                && call_ensures(f, (r0, r1, p2, r3), out),
{
}

/// Carries the outcome of a call of `f` on two mutable references and two plain arguments.
pub fn effect_mmpp_fact<M0, M1, P2, P3, Out, F: FnMut(&mut M0, &mut M1, P2, P3) -> Out>(
    call: Ghost<(F, M0, M1, P2, P3, M0, M1, Out)>,
)
    requires
        exists|r0: &mut M0|
            *r0 == call@.1
                && *final(r0) == call@.5
                && exists|r1: &mut M1|
                    *r1 == call@.2
                        && *final(r1) == call@.6
                        && call_ensures(call@.0, (r0, r1, call@.3, call@.4), call@.7),
    ensures
        exists|r0: &mut M0|
            *r0 == call@.1
                && *final(r0) == call@.5
                && exists|r1: &mut M1|
                    *r1 == call@.2
                        && *final(r1) == call@.6
                        && call_ensures(call@.0, (r0, r1, call@.3, call@.4), call@.7),
{
}

/// `f` may return `out` on two mutable references and two plain arguments,
/// and leave the referents at the given values.
pub open spec fn effect_mmpp<M0, M1, P2, P3, Out, F: FnMut(&mut M0, &mut M1, P2, P3) -> Out>(
    f: F,
    m0: M0,
    m1: M1,
    p2: P2,
    p3: P3,
    m0_after: M0,
    m1_after: M1,
    out: Out,
) -> bool {
    call_ensures(
        effect_mmpp_fact::<M0, M1, P2, P3, Out, F>,
        (Ghost((f, m0, m1, p2, p3, m0_after, m1_after, out)),),
        (),
    )
}

/// What [`effect_mmpp`] says of `f`.
pub proof fn lemma_effect_mmpp<M0, M1, P2, P3, Out, F: FnMut(&mut M0, &mut M1, P2, P3) -> Out>(
    f: F,
    m0: M0,
    m1: M1,
    p2: P2,
    p3: P3,
    m0_after: M0,
    m1_after: M1,
    out: Out,
)
    requires
        effect_mmpp(f, m0, m1, p2, p3, m0_after, m1_after, out),
    ensures
        exists|r0: &mut M0|
            *r0 == m0
                && *final(r0) == m0_after
                && exists|r1: &mut M1|
                    *r1 == m1
                        && *final(r1) == m1_after
                        && call_ensures(f, (r0, r1, p2, p3), out),
{
}

/// Carries the outcome of a call of `f` on three mutable references and one plain argument.
pub fn effect_mpmm_fact<M0, P1, M2, M3, Out, F: FnMut(&mut M0, P1, &mut M2, &mut M3) -> Out>(
    call: Ghost<(F, M0, P1, M2, M3, M0, M2, M3, Out)>,
)
    requires
        exists|r0: &mut M0|
            *r0 == call@.1
                && *final(r0) == call@.5
                && exists|r2: &mut M2|
                    *r2 == call@.3
                        && *final(r2) == call@.6
                        && exists|r3: &mut M3|
                            *r3 == call@.4
                                && *final(r3) == call@.7
                                && call_ensures(call@.0, (r0, call@.2, r2, r3), call@.8),
    ensures
        exists|r0: &mut M0|
            *r0 == call@.1
                && *final(r0) == call@.5
                && exists|r2: &mut M2|
                    *r2 == call@.3
                        && *final(r2) == call@.6
                        && exists|r3: &mut M3|
                            *r3 == call@.4
                                && *final(r3) == call@.7
                                && call_ensures(call@.0, (r0, call@.2, r2, r3), call@.8),
{
}

/// `f` may return `out` on three mutable references and one plain argument,
/// and leave the referents at the given values.
pub open spec fn effect_mpmm<M0, P1, M2, M3, Out, F: FnMut(&mut M0, P1, &mut M2, &mut M3) -> Out>(
    f: F,
    m0: M0,
    p1: P1,
    m2: M2,
    m3: M3,
    m0_after: M0,
    m2_after: M2,
    m3_after: M3,
    out: Out,
) -> bool {
    call_ensures(
        effect_mpmm_fact::<M0, P1, M2, M3, Out, F>,
        (Ghost((f, m0, p1, m2, m3, m0_after, m2_after, m3_after, out)),),
        (),
    )
}

/// What [`effect_mpmm`] says of `f`.
pub proof fn lemma_effect_mpmm<
    M0,
    P1,
    M2,
    M3,
    Out,
    F: FnMut(&mut M0, P1, &mut M2, &mut M3) -> Out,
>(f: F, m0: M0, p1: P1, m2: M2, m3: M3, m0_after: M0, m2_after: M2, m3_after: M3, out: Out)
    requires
        effect_mpmm(f, m0, p1, m2, m3, m0_after, m2_after, m3_after, out),
    ensures
        exists|r0: &mut M0|
            *r0 == m0
                && *final(r0) == m0_after
                && exists|r2: &mut M2|
                    *r2 == m2
                        && *final(r2) == m2_after
                        && exists|r3: &mut M3|
                            *r3 == m3
                                && *final(r3) == m3_after
                                && call_ensures(f, (r0, p1, r2, r3), out),
{
}

/// Carries the outcome of a call of `f` on two mutable references and two plain arguments.
pub fn effect_mpmp_fact<M0, P1, M2, P3, Out, F: FnMut(&mut M0, P1, &mut M2, P3) -> Out>(
    call: Ghost<(F, M0, P1, M2, P3, M0, M2, Out)>,
)
    requires
        exists|r0: &mut M0|
            *r0 == call@.1
                && *final(r0) == call@.5
                && exists|r2: &mut M2|
                    *r2 == call@.3
                        && *final(r2) == call@.6
                        && call_ensures(call@.0, (r0, call@.2, r2, call@.4), call@.7),
    ensures
        exists|r0: &mut M0|
            *r0 == call@.1
                && *final(r0) == call@.5
                && exists|r2: &mut M2|
                    *r2 == call@.3
                        && *final(r2) == call@.6
                        && call_ensures(call@.0, (r0, call@.2, r2, call@.4), call@.7),
{
}

/// `f` may return `out` on two mutable references and two plain arguments,
/// and leave the referents at the given values.
pub open spec fn effect_mpmp<M0, P1, M2, P3, Out, F: FnMut(&mut M0, P1, &mut M2, P3) -> Out>(
    f: F,
    m0: M0,
    p1: P1,
    m2: M2,
    p3: P3,
    m0_after: M0,
    m2_after: M2,
    out: Out,
) -> bool {
    call_ensures(
        effect_mpmp_fact::<M0, P1, M2, P3, Out, F>,
        (Ghost((f, m0, p1, m2, p3, m0_after, m2_after, out)),),
        (),
    )
}

/// What [`effect_mpmp`] says of `f`.
pub proof fn lemma_effect_mpmp<M0, P1, M2, P3, Out, F: FnMut(&mut M0, P1, &mut M2, P3) -> Out>(
    f: F,
    m0: M0,
    p1: P1,
    m2: M2,
    p3: P3,
    m0_after: M0,
    m2_after: M2,
    out: Out,
)
    requires
        effect_mpmp(f, m0, p1, m2, p3, m0_after, m2_after, out),
    ensures
        exists|r0: &mut M0|
            *r0 == m0
                && *final(r0) == m0_after
                && exists|r2: &mut M2|
                    *r2 == m2
                        && *final(r2) == m2_after
                        && call_ensures(f, (r0, p1, r2, p3), out),
{
}

/// Carries the outcome of a call of `f` on two mutable references and two plain arguments.
pub fn effect_mppm_fact<M0, P1, P2, M3, Out, F: FnMut(&mut M0, P1, P2, &mut M3) -> Out>(
    call: Ghost<(F, M0, P1, P2, M3, M0, M3, Out)>,
)
    requires
        exists|r0: &mut M0|
            *r0 == call@.1
                && *final(r0) == call@.5
                && exists|r3: &mut M3|
                    *r3 == call@.4
                        && *final(r3) == call@.6
                        && call_ensures(call@.0, (r0, call@.2, call@.3, r3), call@.7),
    ensures
        exists|r0: &mut M0|
            *r0 == call@.1
                && *final(r0) == call@.5
                && exists|r3: &mut M3|
                    *r3 == call@.4
                        && *final(r3) == call@.6
                        && call_ensures(call@.0, (r0, call@.2, call@.3, r3), call@.7),
{
}

/// `f` may return `out` on two mutable references and two plain arguments,
/// and leave the referents at the given values.
pub open spec fn effect_mppm<M0, P1, P2, M3, Out, F: FnMut(&mut M0, P1, P2, &mut M3) -> Out>(
    f: F,
    m0: M0,
    p1: P1,
    p2: P2,
    m3: M3,
    m0_after: M0,
    m3_after: M3,
    out: Out,
) -> bool {
    call_ensures(
        effect_mppm_fact::<M0, P1, P2, M3, Out, F>,
        (Ghost((f, m0, p1, p2, m3, m0_after, m3_after, out)),),
        (),
    )
}

/// What [`effect_mppm`] says of `f`.
pub proof fn lemma_effect_mppm<M0, P1, P2, M3, Out, F: FnMut(&mut M0, P1, P2, &mut M3) -> Out>(
    f: F,
    m0: M0,
    p1: P1,
    p2: P2,
    m3: M3,
    m0_after: M0,
    m3_after: M3,
    out: Out,
)
    requires
        effect_mppm(f, m0, p1, p2, m3, m0_after, m3_after, out),
    ensures
        exists|r0: &mut M0|
            *r0 == m0
                && *final(r0) == m0_after
                && exists|r3: &mut M3|
                    *r3 == m3
                        && *final(r3) == m3_after
                        && call_ensures(f, (r0, p1, p2, r3), out),
{
}

/// Carries the outcome of a call of `f` on a mutable reference and three plain arguments.
pub fn effect_mppp_fact<M0, P1, P2, P3, Out, F: FnMut(&mut M0, P1, P2, P3) -> Out>(
    call: Ghost<(F, M0, P1, P2, P3, M0, Out)>,
)
    requires
        exists|r0: &mut M0|
            *r0 == call@.1
                && *final(r0) == call@.5
                && call_ensures(call@.0, (r0, call@.2, call@.3, call@.4), call@.6),
    ensures
        exists|r0: &mut M0|
            *r0 == call@.1
                && *final(r0) == call@.5
                && call_ensures(call@.0, (r0, call@.2, call@.3, call@.4), call@.6),
{
}

/// `f` may return `out` on a mutable reference and three plain arguments,
/// and leave the referents at the given values.
pub open spec fn effect_mppp<M0, P1, P2, P3, Out, F: FnMut(&mut M0, P1, P2, P3) -> Out>(
    f: F,
    m0: M0,
    p1: P1,
    p2: P2,
    p3: P3,
    m0_after: M0,
    out: Out,
) -> bool {
    call_ensures(
        effect_mppp_fact::<M0, P1, P2, P3, Out, F>,
        (Ghost((f, m0, p1, p2, p3, m0_after, out)),),
        (),
    )
}

/// What [`effect_mppp`] says of `f`.
pub proof fn lemma_effect_mppp<M0, P1, P2, P3, Out, F: FnMut(&mut M0, P1, P2, P3) -> Out>(
    f: F,
    m0: M0,
    p1: P1,
    p2: P2,
    p3: P3,
    m0_after: M0,
    out: Out,
)
    requires
        effect_mppp(f, m0, p1, p2, p3, m0_after, out),
    ensures
        exists|r0: &mut M0|
            *r0 == m0
                && *final(r0) == m0_after
                && call_ensures(f, (r0, p1, p2, p3), out),
{
}

/// Carries the outcome of a call of `f` on three mutable references and one plain argument.
pub fn effect_pmmm_fact<P0, M1, M2, M3, Out, F: FnMut(P0, &mut M1, &mut M2, &mut M3) -> Out>(
    call: Ghost<(F, P0, M1, M2, M3, M1, M2, M3, Out)>,
)
    requires
        exists|r1: &mut M1|
            *r1 == call@.2
                && *final(r1) == call@.5
                && exists|r2: &mut M2|
                    *r2 == call@.3
                        && *final(r2) == call@.6
                        && exists|r3: &mut M3|
                            *r3 == call@.4
                                && *final(r3) == call@.7
                                && call_ensures(call@.0, (call@.1, r1, r2, r3), call@.8),
    ensures
        exists|r1: &mut M1|
            *r1 == call@.2
                && *final(r1) == call@.5
                && exists|r2: &mut M2|
                    *r2 == call@.3
                        && *final(r2) == call@.6
                        && exists|r3: &mut M3|
                            *r3 == call@.4
                                && *final(r3) == call@.7
                                && call_ensures(call@.0, (call@.1, r1, r2, r3), call@.8),
{
}

/// `f` may return `out` on three mutable references and one plain argument,
/// and leave the referents at the given values.
pub open spec fn effect_pmmm<P0, M1, M2, M3, Out, F: FnMut(P0, &mut M1, &mut M2, &mut M3) -> Out>(
    f: F,
    p0: P0,
    m1: M1,
    m2: M2,
    m3: M3,
    m1_after: M1,
    m2_after: M2,
    m3_after: M3,
    out: Out,
) -> bool {
    call_ensures(
        effect_pmmm_fact::<P0, M1, M2, M3, Out, F>,
        (Ghost((f, p0, m1, m2, m3, m1_after, m2_after, m3_after, out)),),
        (),
    )
}

/// What [`effect_pmmm`] says of `f`.
pub proof fn lemma_effect_pmmm<
    P0,
    M1,
    M2,
    M3,
    Out,
    F: FnMut(P0, &mut M1, &mut M2, &mut M3) -> Out,
>(f: F, p0: P0, m1: M1, m2: M2, m3: M3, m1_after: M1, m2_after: M2, m3_after: M3, out: Out)
    requires
        effect_pmmm(f, p0, m1, m2, m3, m1_after, m2_after, m3_after, out),
    ensures
        exists|r1: &mut M1|
            *r1 == m1
                && *final(r1) == m1_after
                && exists|r2: &mut M2|
                    *r2 == m2
                        && *final(r2) == m2_after
                        && exists|r3: &mut M3|
                            *r3 == m3
                                && *final(r3) == m3_after
                                && call_ensures(f, (p0, r1, r2, r3), out),
{
}

/// Carries the outcome of a call of `f` on two mutable references and two plain arguments.
pub fn effect_pmmp_fact<P0, M1, M2, P3, Out, F: FnMut(P0, &mut M1, &mut M2, P3) -> Out>(
    call: Ghost<(F, P0, M1, M2, P3, M1, M2, Out)>,
)
    requires
        exists|r1: &mut M1|
            *r1 == call@.2
                && *final(r1) == call@.5
                && exists|r2: &mut M2|
                    *r2 == call@.3
                        && *final(r2) == call@.6
                        && call_ensures(call@.0, (call@.1, r1, r2, call@.4), call@.7),
    ensures
        exists|r1: &mut M1|
            *r1 == call@.2
                && *final(r1) == call@.5
                && exists|r2: &mut M2|
                    *r2 == call@.3
                        && *final(r2) == call@.6
                        && call_ensures(call@.0, (call@.1, r1, r2, call@.4), call@.7),
{
}

/// `f` may return `out` on two mutable references and two plain arguments,
/// and leave the referents at the given values.
pub open spec fn effect_pmmp<P0, M1, M2, P3, Out, F: FnMut(P0, &mut M1, &mut M2, P3) -> Out>(
    f: F,
    p0: P0,
    m1: M1,
    m2: M2,
    p3: P3,
    m1_after: M1,
    m2_after: M2,
    out: Out,
) -> bool {
    call_ensures(
        effect_pmmp_fact::<P0, M1, M2, P3, Out, F>,
        (Ghost((f, p0, m1, m2, p3, m1_after, m2_after, out)),),
        (),
    )
}

/// What [`effect_pmmp`] says of `f`.
pub proof fn lemma_effect_pmmp<P0, M1, M2, P3, Out, F: FnMut(P0, &mut M1, &mut M2, P3) -> Out>(
    f: F,
    p0: P0,
    m1: M1,
    m2: M2,
    p3: P3,
    m1_after: M1,
    m2_after: M2,
    out: Out,
)
    requires
        effect_pmmp(f, p0, m1, m2, p3, m1_after, m2_after, out),
    ensures
        exists|r1: &mut M1|
            *r1 == m1
                && *final(r1) == m1_after
                && exists|r2: &mut M2|
                    *r2 == m2
                        && *final(r2) == m2_after
                        && call_ensures(f, (p0, r1, r2, p3), out),
{
}

/// Carries the outcome of a call of `f` on two mutable references and two plain arguments.
pub fn effect_pmpm_fact<P0, M1, P2, M3, Out, F: FnMut(P0, &mut M1, P2, &mut M3) -> Out>(
    call: Ghost<(F, P0, M1, P2, M3, M1, M3, Out)>,
)
    requires
        exists|r1: &mut M1|
            *r1 == call@.2
                && *final(r1) == call@.5
                && exists|r3: &mut M3|
                    *r3 == call@.4
                        && *final(r3) == call@.6
                        && call_ensures(call@.0, (call@.1, r1, call@.3, r3), call@.7),
    ensures
        exists|r1: &mut M1|
            *r1 == call@.2
                && *final(r1) == call@.5
                && exists|r3: &mut M3|
                    *r3 == call@.4
                        && *final(r3) == call@.6
                        && call_ensures(call@.0, (call@.1, r1, call@.3, r3), call@.7),
{
}

/// `f` may return `out` on two mutable references and two plain arguments,
/// and leave the referents at the given values.
pub open spec fn effect_pmpm<P0, M1, P2, M3, Out, F: FnMut(P0, &mut M1, P2, &mut M3) -> Out>(
    f: F,
    p0: P0,
    m1: M1,
    p2: P2,
    m3: M3,
    m1_after: M1,
    m3_after: M3,
    out: Out,
) -> bool {
    call_ensures(
        effect_pmpm_fact::<P0, M1, P2, M3, Out, F>,
        (Ghost((f, p0, m1, p2, m3, m1_after, m3_after, out)),),
        (),
    )
}

/// What [`effect_pmpm`] says of `f`.
pub proof fn lemma_effect_pmpm<P0, M1, P2, M3, Out, F: FnMut(P0, &mut M1, P2, &mut M3) -> Out>(
    f: F,
    p0: P0,
    m1: M1,
    p2: P2,
    m3: M3,
    m1_after: M1,
    m3_after: M3,
    out: Out,
)
    requires
        effect_pmpm(f, p0, m1, p2, m3, m1_after, m3_after, out),
    ensures
        exists|r1: &mut M1|
            *r1 == m1
                && *final(r1) == m1_after
                && exists|r3: &mut M3|
                    *r3 == m3
                        && *final(r3) == m3_after
                        && call_ensures(f, (p0, r1, p2, r3), out),
{
}

/// Carries the outcome of a call of `f` on a mutable reference and three plain arguments.
pub fn effect_pmpp_fact<P0, M1, P2, P3, Out, F: FnMut(P0, &mut M1, P2, P3) -> Out>(
    call: Ghost<(F, P0, M1, P2, P3, M1, Out)>,
)
    requires
        exists|r1: &mut M1|
            *r1 == call@.2
                && *final(r1) == call@.5
                && call_ensures(call@.0, (call@.1, r1, call@.3, call@.4), call@.6),
    ensures
        exists|r1: &mut M1|
            *r1 == call@.2
                && *final(r1) == call@.5
                && call_ensures(call@.0, (call@.1, r1, call@.3, call@.4), call@.6),
{
}

/// `f` may return `out` on a mutable reference and three plain arguments,
/// and leave the referents at the given values.
pub open spec fn effect_pmpp<P0, M1, P2, P3, Out, F: FnMut(P0, &mut M1, P2, P3) -> Out>(
    f: F,
    p0: P0,
    m1: M1,
    p2: P2,
    p3: P3,
    m1_after: M1,
    out: Out,
) -> bool {
    call_ensures(
        effect_pmpp_fact::<P0, M1, P2, P3, Out, F>,
        (Ghost((f, p0, m1, p2, p3, m1_after, out)),),
        (),
    )
}

/// What [`effect_pmpp`] says of `f`.
pub proof fn lemma_effect_pmpp<P0, M1, P2, P3, Out, F: FnMut(P0, &mut M1, P2, P3) -> Out>(
    f: F,
    p0: P0,
    m1: M1,
    p2: P2,
    p3: P3,
    m1_after: M1,
    out: Out,
)
    requires
        effect_pmpp(f, p0, m1, p2, p3, m1_after, out),
    ensures
        exists|r1: &mut M1|
            *r1 == m1
                && *final(r1) == m1_after
                && call_ensures(f, (p0, r1, p2, p3), out),
{
}

/// Carries the outcome of a call of `f` on two mutable references and two plain arguments.
pub fn effect_ppmm_fact<P0, P1, M2, M3, Out, F: FnMut(P0, P1, &mut M2, &mut M3) -> Out>(
    call: Ghost<(F, P0, P1, M2, M3, M2, M3, Out)>,
)
    requires
        exists|r2: &mut M2|
            *r2 == call@.3
                && *final(r2) == call@.5
                && exists|r3: &mut M3|
                    *r3 == call@.4
                        && *final(r3) == call@.6
                        && call_ensures(call@.0, (call@.1, call@.2, r2, r3), call@.7),
    ensures
        exists|r2: &mut M2|
            *r2 == call@.3
                && *final(r2) == call@.5
                && exists|r3: &mut M3|
                    *r3 == call@.4
                        && *final(r3) == call@.6
                        && call_ensures(call@.0, (call@.1, call@.2, r2, r3), call@.7),
{
}

/// `f` may return `out` on two mutable references and two plain arguments,
/// and leave the referents at the given values.
pub open spec fn effect_ppmm<P0, P1, M2, M3, Out, F: FnMut(P0, P1, &mut M2, &mut M3) -> Out>(
    f: F,
    p0: P0,
    p1: P1,
    m2: M2,
    m3: M3,
    m2_after: M2,
    m3_after: M3,
    out: Out,
) -> bool {
    call_ensures(
        effect_ppmm_fact::<P0, P1, M2, M3, Out, F>,
        (Ghost((f, p0, p1, m2, m3, m2_after, m3_after, out)),),
        (),
    )
}

/// What [`effect_ppmm`] says of `f`.
pub proof fn lemma_effect_ppmm<P0, P1, M2, M3, Out, F: FnMut(P0, P1, &mut M2, &mut M3) -> Out>(
    f: F,
    p0: P0,
    p1: P1,
    m2: M2,
    m3: M3,
    m2_after: M2,
    m3_after: M3,
    out: Out,
)
    requires
        effect_ppmm(f, p0, p1, m2, m3, m2_after, m3_after, out),
    ensures
        exists|r2: &mut M2|
            *r2 == m2
                && *final(r2) == m2_after
                && exists|r3: &mut M3|
                    *r3 == m3
                        && *final(r3) == m3_after
                        && call_ensures(f, (p0, p1, r2, r3), out),
{
}

/// Carries the outcome of a call of `f` on a mutable reference and three plain arguments.
pub fn effect_ppmp_fact<P0, P1, M2, P3, Out, F: FnMut(P0, P1, &mut M2, P3) -> Out>(
    call: Ghost<(F, P0, P1, M2, P3, M2, Out)>,
)
    requires
        exists|r2: &mut M2|
            *r2 == call@.3
                && *final(r2) == call@.5
                && call_ensures(call@.0, (call@.1, call@.2, r2, call@.4), call@.6),
    ensures
        exists|r2: &mut M2|
            *r2 == call@.3
                && *final(r2) == call@.5
                && call_ensures(call@.0, (call@.1, call@.2, r2, call@.4), call@.6),
{
}

/// `f` may return `out` on a mutable reference and three plain arguments,
/// and leave the referents at the given values.
pub open spec fn effect_ppmp<P0, P1, M2, P3, Out, F: FnMut(P0, P1, &mut M2, P3) -> Out>(
    f: F,
    p0: P0,
    p1: P1,
    m2: M2,
    p3: P3,
    m2_after: M2,
    out: Out,
) -> bool {
    call_ensures(
        effect_ppmp_fact::<P0, P1, M2, P3, Out, F>,
        (Ghost((f, p0, p1, m2, p3, m2_after, out)),),
        (),
    )
}

/// What [`effect_ppmp`] says of `f`.
pub proof fn lemma_effect_ppmp<P0, P1, M2, P3, Out, F: FnMut(P0, P1, &mut M2, P3) -> Out>(
    f: F,
    p0: P0,
    p1: P1,
    m2: M2,
    p3: P3,
    m2_after: M2,
    out: Out,
)
    requires
        effect_ppmp(f, p0, p1, m2, p3, m2_after, out),
    ensures
        exists|r2: &mut M2|
            *r2 == m2
                && *final(r2) == m2_after
                && call_ensures(f, (p0, p1, r2, p3), out),
{
}

/// Carries the outcome of a call of `f` on a mutable reference and three plain arguments.
pub fn effect_pppm_fact<P0, P1, P2, M3, Out, F: FnMut(P0, P1, P2, &mut M3) -> Out>(
    call: Ghost<(F, P0, P1, P2, M3, M3, Out)>,
)
    requires
        exists|r3: &mut M3|
            *r3 == call@.4
                && *final(r3) == call@.5
                && call_ensures(call@.0, (call@.1, call@.2, call@.3, r3), call@.6),
    ensures
        exists|r3: &mut M3|
            *r3 == call@.4
                && *final(r3) == call@.5
                && call_ensures(call@.0, (call@.1, call@.2, call@.3, r3), call@.6),
{
}

/// `f` may return `out` on a mutable reference and three plain arguments,
/// and leave the referents at the given values.
pub open spec fn effect_pppm<P0, P1, P2, M3, Out, F: FnMut(P0, P1, P2, &mut M3) -> Out>(
    f: F,
    p0: P0,
    p1: P1,
    p2: P2,
    m3: M3,
    m3_after: M3,
    out: Out,
) -> bool {
    call_ensures(
        effect_pppm_fact::<P0, P1, P2, M3, Out, F>,
        (Ghost((f, p0, p1, p2, m3, m3_after, out)),),
        (),
    )
}

/// What [`effect_pppm`] says of `f`.
pub proof fn lemma_effect_pppm<P0, P1, P2, M3, Out, F: FnMut(P0, P1, P2, &mut M3) -> Out>(
    f: F,
    p0: P0,
    p1: P1,
    p2: P2,
    m3: M3,
    m3_after: M3,
    out: Out,
)
    requires
        effect_pppm(f, p0, p1, p2, m3, m3_after, out),
    ensures
        exists|r3: &mut M3|
            *r3 == m3
                && *final(r3) == m3_after
                && call_ensures(f, (p0, p1, p2, r3), out),
{
}

/// Carries the outcome of a call of `f` on four mutable references and one plain argument.
pub fn effect_mmmmp_fact<
    M0,
    M1,
    M2,
    M3,
    P4,
    Out,
    F: FnMut(&mut M0, &mut M1, &mut M2, &mut M3, P4) -> Out,
>(call: Ghost<(F, M0, M1, M2, M3, P4, M0, M1, M2, M3, Out)>)
    requires
        exists|r0: &mut M0|
            *r0 == call@.1
                && *final(r0) == call@.6
                && exists|r1: &mut M1|
                    *r1 == call@.2
                        && *final(r1) == call@.7
                        && exists|r2: &mut M2|
                            *r2 == call@.3
                                && *final(r2) == call@.8
                                && exists|r3: &mut M3|
                                    *r3 == call@.4
                                        && *final(r3) == call@.9
                                        && call_ensures(
                                            call@.0,
                                            (r0, r1, r2, r3, call@.5),
                                            call@.10,
                                        ),
    ensures
        exists|r0: &mut M0|
            *r0 == call@.1
                && *final(r0) == call@.6
                && exists|r1: &mut M1|
                    *r1 == call@.2
                        && *final(r1) == call@.7
                        && exists|r2: &mut M2|
                            *r2 == call@.3
                                && *final(r2) == call@.8
                                && exists|r3: &mut M3|
                                    *r3 == call@.4
                                        && *final(r3) == call@.9
                                        && call_ensures(
                                            call@.0,
                                            (r0, r1, r2, r3, call@.5),
                                            call@.10,
                                        ),
{
}

/// `f` may return `out` on four mutable references and one plain argument,
/// and leave the referents at the given values.
pub open spec fn effect_mmmmp<
    M0,
    M1,
    M2,
    M3,
    P4,
    Out,
    F: FnMut(&mut M0, &mut M1, &mut M2, &mut M3, P4) -> Out,
>(
    f: F,
    m0: M0,
    m1: M1,
    m2: M2,
    m3: M3,
    p4: P4,
    m0_after: M0,
    m1_after: M1,
    m2_after: M2,
    m3_after: M3,
    out: Out,
) -> bool {
    call_ensures(
        effect_mmmmp_fact::<M0, M1, M2, M3, P4, Out, F>,
        (Ghost((f, m0, m1, m2, m3, p4, m0_after, m1_after, m2_after, m3_after, out)),),
        (),
    )
}

/// What [`effect_mmmmp`] says of `f`.
pub proof fn lemma_effect_mmmmp<
    M0,
    M1,
    M2,
    M3,
    P4,
    Out,
    F: FnMut(&mut M0, &mut M1, &mut M2, &mut M3, P4) -> Out,
>(
    f: F,
    m0: M0,
    m1: M1,
    m2: M2,
    m3: M3,
    p4: P4,
    m0_after: M0,
    m1_after: M1,
    m2_after: M2,
    m3_after: M3,
    out: Out,
)
    requires
        effect_mmmmp(f, m0, m1, m2, m3, p4, m0_after, m1_after, m2_after, m3_after, out),
    ensures
        exists|r0: &mut M0|
            *r0 == m0
                && *final(r0) == m0_after
                && exists|r1: &mut M1|
                    *r1 == m1
                        && *final(r1) == m1_after
                        && exists|r2: &mut M2|
                            *r2 == m2
                                && *final(r2) == m2_after
                                && exists|r3: &mut M3|
                                    *r3 == m3
                                        && *final(r3) == m3_after
                                        && call_ensures(f, (r0, r1, r2, r3, p4), out),
{
}

/// Carries the outcome of a call of `f` on three mutable references and two plain arguments.
pub fn effect_mmmpp_fact<
    M0,
    M1,
    M2,
    P3,
    P4,
    Out,
    F: FnMut(&mut M0, &mut M1, &mut M2, P3, P4) -> Out,
>(call: Ghost<(F, M0, M1, M2, P3, P4, M0, M1, M2, Out)>)
    requires
        exists|r0: &mut M0|
            *r0 == call@.1
                && *final(r0) == call@.6
                && exists|r1: &mut M1|
                    *r1 == call@.2
                        && *final(r1) == call@.7
                        && exists|r2: &mut M2|
                            *r2 == call@.3
                                && *final(r2) == call@.8
                                && call_ensures(call@.0, (r0, r1, r2, call@.4, call@.5), call@.9),
    ensures
        exists|r0: &mut M0|
            *r0 == call@.1
                && *final(r0) == call@.6
                && exists|r1: &mut M1|
                    *r1 == call@.2
                        && *final(r1) == call@.7
                        && exists|r2: &mut M2|
                            *r2 == call@.3
                                && *final(r2) == call@.8
                                && call_ensures(call@.0, (r0, r1, r2, call@.4, call@.5), call@.9),
{
}

/// `f` may return `out` on three mutable references and two plain arguments,
/// and leave the referents at the given values.
pub open spec fn effect_mmmpp<
    M0,
    M1,
    M2,
    P3,
    P4,
    Out,
    F: FnMut(&mut M0, &mut M1, &mut M2, P3, P4) -> Out,
>(
    f: F,
    m0: M0,
    m1: M1,
    m2: M2,
    p3: P3,
    p4: P4,
    m0_after: M0,
    m1_after: M1,
    m2_after: M2,
    out: Out,
) -> bool {
    call_ensures(
        effect_mmmpp_fact::<M0, M1, M2, P3, P4, Out, F>,
        (Ghost((f, m0, m1, m2, p3, p4, m0_after, m1_after, m2_after, out)),),
        (),
    )
}

/// What [`effect_mmmpp`] says of `f`.
pub proof fn lemma_effect_mmmpp<
    M0,
    M1,
    M2,
    P3,
    P4,
    Out,
    F: FnMut(&mut M0, &mut M1, &mut M2, P3, P4) -> Out,
>(f: F, m0: M0, m1: M1, m2: M2, p3: P3, p4: P4, m0_after: M0, m1_after: M1, m2_after: M2, out: Out)
    requires
        effect_mmmpp(f, m0, m1, m2, p3, p4, m0_after, m1_after, m2_after, out),
    ensures
        exists|r0: &mut M0|
            *r0 == m0
                && *final(r0) == m0_after
                && exists|r1: &mut M1|
                    *r1 == m1
                        && *final(r1) == m1_after
                        && exists|r2: &mut M2|
                            *r2 == m2
                                && *final(r2) == m2_after
                                && call_ensures(f, (r0, r1, r2, p3, p4), out),
{
}

/// Carries the outcome of a call of `f` on three mutable references and two plain arguments.
pub fn effect_mmpmp_fact<
    M0,
    M1,
    P2,
    M3,
    P4,
    Out,
    F: FnMut(&mut M0, &mut M1, P2, &mut M3, P4) -> Out,
>(call: Ghost<(F, M0, M1, P2, M3, P4, M0, M1, M3, Out)>)
    requires
        exists|r0: &mut M0|
            *r0 == call@.1
                && *final(r0) == call@.6
                && exists|r1: &mut M1|
                    *r1 == call@.2
                        && *final(r1) == call@.7
                        && exists|r3: &mut M3|
                            *r3 == call@.4
                                && *final(r3) == call@.8
                                && call_ensures(call@.0, (r0, r1, call@.3, r3, call@.5), call@.9),
    ensures
        exists|r0: &mut M0|
            *r0 == call@.1
                && *final(r0) == call@.6
                && exists|r1: &mut M1|
                    *r1 == call@.2
                        && *final(r1) == call@.7
                        && exists|r3: &mut M3|
                            *r3 == call@.4
                                && *final(r3) == call@.8
                                && call_ensures(call@.0, (r0, r1, call@.3, r3, call@.5), call@.9),
{
}

/// `f` may return `out` on three mutable references and two plain arguments,
/// and leave the referents at the given values.
pub open spec fn effect_mmpmp<
    M0,
    M1,
    P2,
    M3,
    P4,
    Out,
    F: FnMut(&mut M0, &mut M1, P2, &mut M3, P4) -> Out,
>(
    f: F,
    m0: M0,
    m1: M1,
    p2: P2,
    m3: M3,
    p4: P4,
    m0_after: M0,
    m1_after: M1,
    m3_after: M3,
    out: Out,
) -> bool {
    call_ensures(
        effect_mmpmp_fact::<M0, M1, P2, M3, P4, Out, F>,
        (Ghost((f, m0, m1, p2, m3, p4, m0_after, m1_after, m3_after, out)),),
        (),
    )
}

/// What [`effect_mmpmp`] says of `f`.
pub proof fn lemma_effect_mmpmp<
    M0,
    M1,
    P2,
    M3,
    P4,
    Out,
    F: FnMut(&mut M0, &mut M1, P2, &mut M3, P4) -> Out,
>(f: F, m0: M0, m1: M1, p2: P2, m3: M3, p4: P4, m0_after: M0, m1_after: M1, m3_after: M3, out: Out)
    requires
        effect_mmpmp(f, m0, m1, p2, m3, p4, m0_after, m1_after, m3_after, out),
    ensures
        exists|r0: &mut M0|
            *r0 == m0
                && *final(r0) == m0_after
                && exists|r1: &mut M1|
                    *r1 == m1
                        && *final(r1) == m1_after
                        && exists|r3: &mut M3|
                            *r3 == m3
                                && *final(r3) == m3_after
                                && call_ensures(f, (r0, r1, p2, r3, p4), out),
{
}

/// Carries the outcome of a call of `f` on two mutable references and three plain arguments.
pub fn effect_mmppp_fact<M0, M1, P2, P3, P4, Out, F: FnMut(&mut M0, &mut M1, P2, P3, P4) -> Out>(
    call: Ghost<(F, M0, M1, P2, P3, P4, M0, M1, Out)>,
)
    requires
        exists|r0: &mut M0|
            *r0 == call@.1
                && *final(r0) == call@.6
                && exists|r1: &mut M1|
                    *r1 == call@.2
                        && *final(r1) == call@.7
                        && call_ensures(call@.0, (r0, r1, call@.3, call@.4, call@.5), call@.8),
    ensures
        exists|r0: &mut M0|
            *r0 == call@.1
                && *final(r0) == call@.6
                && exists|r1: &mut M1|
                    *r1 == call@.2
                        && *final(r1) == call@.7
                        && call_ensures(call@.0, (r0, r1, call@.3, call@.4, call@.5), call@.8),
{
}

/// `f` may return `out` on two mutable references and three plain arguments,
/// and leave the referents at the given values.
pub open spec fn effect_mmppp<
    M0,
    M1,
    P2,
    P3,
    P4,
    Out,
    F: FnMut(&mut M0, &mut M1, P2, P3, P4) -> Out,
>(f: F, m0: M0, m1: M1, p2: P2, p3: P3, p4: P4, m0_after: M0, m1_after: M1, out: Out) -> bool {
    call_ensures(
        effect_mmppp_fact::<M0, M1, P2, P3, P4, Out, F>,
        (Ghost((f, m0, m1, p2, p3, p4, m0_after, m1_after, out)),),
        (),
    )
}

/// What [`effect_mmppp`] says of `f`.
pub proof fn lemma_effect_mmppp<
    M0,
    M1,
    P2,
    P3,
    P4,
    Out,
    F: FnMut(&mut M0, &mut M1, P2, P3, P4) -> Out,
>(f: F, m0: M0, m1: M1, p2: P2, p3: P3, p4: P4, m0_after: M0, m1_after: M1, out: Out)
    requires
        effect_mmppp(f, m0, m1, p2, p3, p4, m0_after, m1_after, out),
    ensures
        exists|r0: &mut M0|
            *r0 == m0
                && *final(r0) == m0_after
                && exists|r1: &mut M1|
                    *r1 == m1
                        && *final(r1) == m1_after
                        && call_ensures(f, (r0, r1, p2, p3, p4), out),
{
}

/// Carries the outcome of a call of `f` on three mutable references and two plain arguments.
pub fn effect_mpmmp_fact<
    M0,
    P1,
    M2,
    M3,
    P4,
    Out,
    F: FnMut(&mut M0, P1, &mut M2, &mut M3, P4) -> Out,
>(call: Ghost<(F, M0, P1, M2, M3, P4, M0, M2, M3, Out)>)
    requires
        exists|r0: &mut M0|
            *r0 == call@.1
                && *final(r0) == call@.6
                && exists|r2: &mut M2|
                    *r2 == call@.3
                        && *final(r2) == call@.7
                        && exists|r3: &mut M3|
                            *r3 == call@.4
                                && *final(r3) == call@.8
                                && call_ensures(call@.0, (r0, call@.2, r2, r3, call@.5), call@.9),
    ensures
        exists|r0: &mut M0|
            *r0 == call@.1
                && *final(r0) == call@.6
                && exists|r2: &mut M2|
                    *r2 == call@.3
                        && *final(r2) == call@.7
                        && exists|r3: &mut M3|
                            *r3 == call@.4
                                && *final(r3) == call@.8
                                && call_ensures(call@.0, (r0, call@.2, r2, r3, call@.5), call@.9),
{
}

/// `f` may return `out` on three mutable references and two plain arguments,
/// and leave the referents at the given values.
pub open spec fn effect_mpmmp<
    M0,
    P1,
    M2,
    M3,
    P4,
    Out,
    F: FnMut(&mut M0, P1, &mut M2, &mut M3, P4) -> Out,
>(
    f: F,
    m0: M0,
    p1: P1,
    m2: M2,
    m3: M3,
    p4: P4,
    m0_after: M0,
    m2_after: M2,
    m3_after: M3,
    out: Out,
) -> bool {
    call_ensures(
        effect_mpmmp_fact::<M0, P1, M2, M3, P4, Out, F>,
        (Ghost((f, m0, p1, m2, m3, p4, m0_after, m2_after, m3_after, out)),),
        (),
    )
}

/// What [`effect_mpmmp`] says of `f`.
pub proof fn lemma_effect_mpmmp<
    M0,
    P1,
    M2,
    M3,
    P4,
    Out,
    F: FnMut(&mut M0, P1, &mut M2, &mut M3, P4) -> Out,
>(f: F, m0: M0, p1: P1, m2: M2, m3: M3, p4: P4, m0_after: M0, m2_after: M2, m3_after: M3, out: Out)
    requires
        effect_mpmmp(f, m0, p1, m2, m3, p4, m0_after, m2_after, m3_after, out),
    ensures
        exists|r0: &mut M0|
            *r0 == m0
                && *final(r0) == m0_after
                && exists|r2: &mut M2|
                    *r2 == m2
                        && *final(r2) == m2_after
                        && exists|r3: &mut M3|
                            *r3 == m3
                                && *final(r3) == m3_after
                                && call_ensures(f, (r0, p1, r2, r3, p4), out),
{
}

/// Carries the outcome of a call of `f` on two mutable references and three plain arguments.
pub fn effect_mpmpp_fact<M0, P1, M2, P3, P4, Out, F: FnMut(&mut M0, P1, &mut M2, P3, P4) -> Out>(
    call: Ghost<(F, M0, P1, M2, P3, P4, M0, M2, Out)>,
)
    requires
        exists|r0: &mut M0|
            *r0 == call@.1
                && *final(r0) == call@.6
                && exists|r2: &mut M2|
                    *r2 == call@.3
                        && *final(r2) == call@.7
                        && call_ensures(call@.0, (r0, call@.2, r2, call@.4, call@.5), call@.8),
    ensures
        exists|r0: &mut M0|
            *r0 == call@.1
                && *final(r0) == call@.6
                && exists|r2: &mut M2|
                    *r2 == call@.3
                        && *final(r2) == call@.7
                        && call_ensures(call@.0, (r0, call@.2, r2, call@.4, call@.5), call@.8),
{
}

/// `f` may return `out` on two mutable references and three plain arguments,
/// and leave the referents at the given values.
pub open spec fn effect_mpmpp<
    M0,
    P1,
    M2,
    P3,
    P4,
    Out,
    F: FnMut(&mut M0, P1, &mut M2, P3, P4) -> Out,
>(f: F, m0: M0, p1: P1, m2: M2, p3: P3, p4: P4, m0_after: M0, m2_after: M2, out: Out) -> bool {
    call_ensures(
        effect_mpmpp_fact::<M0, P1, M2, P3, P4, Out, F>,
        (Ghost((f, m0, p1, m2, p3, p4, m0_after, m2_after, out)),),
        (),
    )
}

/// What [`effect_mpmpp`] says of `f`.
pub proof fn lemma_effect_mpmpp<
    M0,
    P1,
    M2,
    P3,
    P4,
    Out,
    F: FnMut(&mut M0, P1, &mut M2, P3, P4) -> Out,
>(f: F, m0: M0, p1: P1, m2: M2, p3: P3, p4: P4, m0_after: M0, m2_after: M2, out: Out)
    requires
        effect_mpmpp(f, m0, p1, m2, p3, p4, m0_after, m2_after, out),
    ensures
        exists|r0: &mut M0|
            *r0 == m0
                && *final(r0) == m0_after
                && exists|r2: &mut M2|
                    *r2 == m2
                        && *final(r2) == m2_after
                        && call_ensures(f, (r0, p1, r2, p3, p4), out),
{
}

/// Carries the outcome of a call of `f` on two mutable references and three plain arguments.
pub fn effect_mppmp_fact<M0, P1, P2, M3, P4, Out, F: FnMut(&mut M0, P1, P2, &mut M3, P4) -> Out>(
    call: Ghost<(F, M0, P1, P2, M3, P4, M0, M3, Out)>,
)
    requires
        exists|r0: &mut M0|
            *r0 == call@.1
                && *final(r0) == call@.6
                && exists|r3: &mut M3|
                    *r3 == call@.4
                        && *final(r3) == call@.7
                        && call_ensures(call@.0, (r0, call@.2, call@.3, r3, call@.5), call@.8),
    ensures
        exists|r0: &mut M0|
            *r0 == call@.1
                && *final(r0) == call@.6
                && exists|r3: &mut M3|
                    *r3 == call@.4
                        && *final(r3) == call@.7
                        && call_ensures(call@.0, (r0, call@.2, call@.3, r3, call@.5), call@.8),
{
}

/// `f` may return `out` on two mutable references and three plain arguments,
/// and leave the referents at the given values.
pub open spec fn effect_mppmp<
    M0,
    P1,
    P2,
    M3,
    P4,
    Out,
    F: FnMut(&mut M0, P1, P2, &mut M3, P4) -> Out,
>(f: F, m0: M0, p1: P1, p2: P2, m3: M3, p4: P4, m0_after: M0, m3_after: M3, out: Out) -> bool {
    call_ensures(
        effect_mppmp_fact::<M0, P1, P2, M3, P4, Out, F>,
        (Ghost((f, m0, p1, p2, m3, p4, m0_after, m3_after, out)),),
        (),
    )
}

/// What [`effect_mppmp`] says of `f`.
pub proof fn lemma_effect_mppmp<
    M0,
    P1,
    P2,
    M3,
    P4,
    Out,
    F: FnMut(&mut M0, P1, P2, &mut M3, P4) -> Out,
>(f: F, m0: M0, p1: P1, p2: P2, m3: M3, p4: P4, m0_after: M0, m3_after: M3, out: Out)
    requires
        effect_mppmp(f, m0, p1, p2, m3, p4, m0_after, m3_after, out),
    ensures
        exists|r0: &mut M0|
            *r0 == m0
                && *final(r0) == m0_after
                && exists|r3: &mut M3|
                    *r3 == m3
                        && *final(r3) == m3_after
                        && call_ensures(f, (r0, p1, p2, r3, p4), out),
{
}

/// Carries the outcome of a call of `f` on a mutable reference and four plain arguments.
pub fn effect_mpppp_fact<M0, P1, P2, P3, P4, Out, F: FnMut(&mut M0, P1, P2, P3, P4) -> Out>(
    call: Ghost<(F, M0, P1, P2, P3, P4, M0, Out)>,
)
    requires
        exists|r0: &mut M0|
            *r0 == call@.1
                && *final(r0) == call@.6
                && call_ensures(call@.0, (r0, call@.2, call@.3, call@.4, call@.5), call@.7),
    ensures
        exists|r0: &mut M0|
            *r0 == call@.1
                && *final(r0) == call@.6
                && call_ensures(call@.0, (r0, call@.2, call@.3, call@.4, call@.5), call@.7),
{
}

/// `f` may return `out` on a mutable reference and four plain arguments,
/// and leave the referents at the given values.
pub open spec fn effect_mpppp<M0, P1, P2, P3, P4, Out, F: FnMut(&mut M0, P1, P2, P3, P4) -> Out>(
    f: F,
    m0: M0,
    p1: P1,
    p2: P2,
    p3: P3,
    p4: P4,
    m0_after: M0,
    out: Out,
) -> bool {
    call_ensures(
        effect_mpppp_fact::<M0, P1, P2, P3, P4, Out, F>,
        (Ghost((f, m0, p1, p2, p3, p4, m0_after, out)),),
        (),
    )
}

/// What [`effect_mpppp`] says of `f`.
pub proof fn lemma_effect_mpppp<M0, P1, P2, P3, P4, Out, F: FnMut(&mut M0, P1, P2, P3, P4) -> Out>(
    f: F,
    m0: M0,
    p1: P1,
    p2: P2,
    p3: P3,
    p4: P4,
    m0_after: M0,
    out: Out,
)
    requires
        effect_mpppp(f, m0, p1, p2, p3, p4, m0_after, out),
    ensures
        exists|r0: &mut M0|
            *r0 == m0
                && *final(r0) == m0_after
                && call_ensures(f, (r0, p1, p2, p3, p4), out),
{
}

/// Carries the outcome of a call of `f` on three mutable references and two plain arguments.
pub fn effect_pmmmp_fact<
    P0,
    M1,
    M2,
    M3,
    P4,
    Out,
    F: FnMut(P0, &mut M1, &mut M2, &mut M3, P4) -> Out,
>(call: Ghost<(F, P0, M1, M2, M3, P4, M1, M2, M3, Out)>)
    requires
        exists|r1: &mut M1|
            *r1 == call@.2
                && *final(r1) == call@.6
                && exists|r2: &mut M2|
                    *r2 == call@.3
                        && *final(r2) == call@.7
                        && exists|r3: &mut M3|
                            *r3 == call@.4
                                && *final(r3) == call@.8
                                && call_ensures(call@.0, (call@.1, r1, r2, r3, call@.5), call@.9),
    ensures
        exists|r1: &mut M1|
            *r1 == call@.2
                && *final(r1) == call@.6
                && exists|r2: &mut M2|
                    *r2 == call@.3
                        && *final(r2) == call@.7
                        && exists|r3: &mut M3|
                            *r3 == call@.4
                                && *final(r3) == call@.8
                                && call_ensures(call@.0, (call@.1, r1, r2, r3, call@.5), call@.9),
{
}

/// `f` may return `out` on three mutable references and two plain arguments,
/// and leave the referents at the given values.
pub open spec fn effect_pmmmp<
    P0,
    M1,
    M2,
    M3,
    P4,
    Out,
    F: FnMut(P0, &mut M1, &mut M2, &mut M3, P4) -> Out,
>(
    f: F,
    p0: P0,
    m1: M1,
    m2: M2,
    m3: M3,
    p4: P4,
    m1_after: M1,
    m2_after: M2,
    m3_after: M3,
    out: Out,
) -> bool {
    call_ensures(
        effect_pmmmp_fact::<P0, M1, M2, M3, P4, Out, F>,
        (Ghost((f, p0, m1, m2, m3, p4, m1_after, m2_after, m3_after, out)),),
        (),
    )
}

/// What [`effect_pmmmp`] says of `f`.
pub proof fn lemma_effect_pmmmp<
    P0,
    M1,
    M2,
    M3,
    P4,
    Out,
    F: FnMut(P0, &mut M1, &mut M2, &mut M3, P4) -> Out,
>(f: F, p0: P0, m1: M1, m2: M2, m3: M3, p4: P4, m1_after: M1, m2_after: M2, m3_after: M3, out: Out)
    requires
        effect_pmmmp(f, p0, m1, m2, m3, p4, m1_after, m2_after, m3_after, out),
    ensures
        exists|r1: &mut M1|
            *r1 == m1
                && *final(r1) == m1_after
                && exists|r2: &mut M2|
                    *r2 == m2
                        && *final(r2) == m2_after
                        && exists|r3: &mut M3|
                            *r3 == m3
                                && *final(r3) == m3_after
                                && call_ensures(f, (p0, r1, r2, r3, p4), out),
{
}

/// Carries the outcome of a call of `f` on two mutable references and three plain arguments.
pub fn effect_pmmpp_fact<P0, M1, M2, P3, P4, Out, F: FnMut(P0, &mut M1, &mut M2, P3, P4) -> Out>(
    call: Ghost<(F, P0, M1, M2, P3, P4, M1, M2, Out)>,
)
    requires
        exists|r1: &mut M1|
            *r1 == call@.2
                && *final(r1) == call@.6
                && exists|r2: &mut M2|
                    *r2 == call@.3
                        && *final(r2) == call@.7
                        && call_ensures(call@.0, (call@.1, r1, r2, call@.4, call@.5), call@.8),
    ensures
        exists|r1: &mut M1|
            *r1 == call@.2
                && *final(r1) == call@.6
                && exists|r2: &mut M2|
                    *r2 == call@.3
                        && *final(r2) == call@.7
                        && call_ensures(call@.0, (call@.1, r1, r2, call@.4, call@.5), call@.8),
{
}

/// `f` may return `out` on two mutable references and three plain arguments,
/// and leave the referents at the given values.
pub open spec fn effect_pmmpp<
    P0,
    M1,
    M2,
    P3,
    P4,
    Out,
    F: FnMut(P0, &mut M1, &mut M2, P3, P4) -> Out,
>(f: F, p0: P0, m1: M1, m2: M2, p3: P3, p4: P4, m1_after: M1, m2_after: M2, out: Out) -> bool {
    call_ensures(
        effect_pmmpp_fact::<P0, M1, M2, P3, P4, Out, F>,
        (Ghost((f, p0, m1, m2, p3, p4, m1_after, m2_after, out)),),
        (),
    )
}

/// What [`effect_pmmpp`] says of `f`.
pub proof fn lemma_effect_pmmpp<
    P0,
    M1,
    M2,
    P3,
    P4,
    Out,
    F: FnMut(P0, &mut M1, &mut M2, P3, P4) -> Out,
>(f: F, p0: P0, m1: M1, m2: M2, p3: P3, p4: P4, m1_after: M1, m2_after: M2, out: Out)
    requires
        effect_pmmpp(f, p0, m1, m2, p3, p4, m1_after, m2_after, out),
    ensures
        exists|r1: &mut M1|
            *r1 == m1
                && *final(r1) == m1_after
                && exists|r2: &mut M2|
                    *r2 == m2
                        && *final(r2) == m2_after
                        && call_ensures(f, (p0, r1, r2, p3, p4), out),
{
}

/// Carries the outcome of a call of `f` on two mutable references and three plain arguments.
pub fn effect_pmpmp_fact<P0, M1, P2, M3, P4, Out, F: FnMut(P0, &mut M1, P2, &mut M3, P4) -> Out>(
    call: Ghost<(F, P0, M1, P2, M3, P4, M1, M3, Out)>,
)
    requires
        exists|r1: &mut M1|
            *r1 == call@.2
                && *final(r1) == call@.6
                && exists|r3: &mut M3|
                    *r3 == call@.4
                        && *final(r3) == call@.7
                        && call_ensures(call@.0, (call@.1, r1, call@.3, r3, call@.5), call@.8),
    ensures
        exists|r1: &mut M1|
            *r1 == call@.2
                && *final(r1) == call@.6
                && exists|r3: &mut M3|
                    *r3 == call@.4
                        && *final(r3) == call@.7
                        && call_ensures(call@.0, (call@.1, r1, call@.3, r3, call@.5), call@.8),
{
}

/// `f` may return `out` on two mutable references and three plain arguments,
/// and leave the referents at the given values.
pub open spec fn effect_pmpmp<
    P0,
    M1,
    P2,
    M3,
    P4,
    Out,
    F: FnMut(P0, &mut M1, P2, &mut M3, P4) -> Out,
>(f: F, p0: P0, m1: M1, p2: P2, m3: M3, p4: P4, m1_after: M1, m3_after: M3, out: Out) -> bool {
    call_ensures(
        effect_pmpmp_fact::<P0, M1, P2, M3, P4, Out, F>,
        (Ghost((f, p0, m1, p2, m3, p4, m1_after, m3_after, out)),),
        (),
    )
}

/// What [`effect_pmpmp`] says of `f`.
pub proof fn lemma_effect_pmpmp<
    P0,
    M1,
    P2,
    M3,
    P4,
    Out,
    F: FnMut(P0, &mut M1, P2, &mut M3, P4) -> Out,
>(f: F, p0: P0, m1: M1, p2: P2, m3: M3, p4: P4, m1_after: M1, m3_after: M3, out: Out)
    requires
        effect_pmpmp(f, p0, m1, p2, m3, p4, m1_after, m3_after, out),
    ensures
        exists|r1: &mut M1|
            *r1 == m1
                && *final(r1) == m1_after
                && exists|r3: &mut M3|
                    *r3 == m3
                        && *final(r3) == m3_after
                        && call_ensures(f, (p0, r1, p2, r3, p4), out),
{
}

/// Carries the outcome of a call of `f` on a mutable reference and four plain arguments.
pub fn effect_pmppp_fact<P0, M1, P2, P3, P4, Out, F: FnMut(P0, &mut M1, P2, P3, P4) -> Out>(
    call: Ghost<(F, P0, M1, P2, P3, P4, M1, Out)>,
)
    requires
        exists|r1: &mut M1|
            *r1 == call@.2
                && *final(r1) == call@.6
                && call_ensures(call@.0, (call@.1, r1, call@.3, call@.4, call@.5), call@.7),
    ensures
        exists|r1: &mut M1|
            *r1 == call@.2
                && *final(r1) == call@.6
                && call_ensures(call@.0, (call@.1, r1, call@.3, call@.4, call@.5), call@.7),
{
}

/// `f` may return `out` on a mutable reference and four plain arguments,
/// and leave the referents at the given values.
pub open spec fn effect_pmppp<P0, M1, P2, P3, P4, Out, F: FnMut(P0, &mut M1, P2, P3, P4) -> Out>(
    f: F,
    p0: P0,
    m1: M1,
    p2: P2,
    p3: P3,
    p4: P4,
    m1_after: M1,
    out: Out,
) -> bool {
    call_ensures(
        effect_pmppp_fact::<P0, M1, P2, P3, P4, Out, F>,
        (Ghost((f, p0, m1, p2, p3, p4, m1_after, out)),),
        (),
    )
}

/// What [`effect_pmppp`] says of `f`.
pub proof fn lemma_effect_pmppp<P0, M1, P2, P3, P4, Out, F: FnMut(P0, &mut M1, P2, P3, P4) -> Out>(
    f: F,
    p0: P0,
    m1: M1,
    p2: P2,
    p3: P3,
    p4: P4,
    m1_after: M1,
    out: Out,
)
    requires
        effect_pmppp(f, p0, m1, p2, p3, p4, m1_after, out),
    ensures
        exists|r1: &mut M1|
            *r1 == m1
                && *final(r1) == m1_after
                && call_ensures(f, (p0, r1, p2, p3, p4), out),
{
}

/// Carries the outcome of a call of `f` on two mutable references and three plain arguments.
pub fn effect_ppmmp_fact<P0, P1, M2, M3, P4, Out, F: FnMut(P0, P1, &mut M2, &mut M3, P4) -> Out>(
    call: Ghost<(F, P0, P1, M2, M3, P4, M2, M3, Out)>,
)
    requires
        exists|r2: &mut M2|
            *r2 == call@.3
                && *final(r2) == call@.6
                && exists|r3: &mut M3|
                    *r3 == call@.4
                        && *final(r3) == call@.7
                        && call_ensures(call@.0, (call@.1, call@.2, r2, r3, call@.5), call@.8),
    ensures
        exists|r2: &mut M2|
            *r2 == call@.3
                && *final(r2) == call@.6
                && exists|r3: &mut M3|
                    *r3 == call@.4
                        && *final(r3) == call@.7
                        && call_ensures(call@.0, (call@.1, call@.2, r2, r3, call@.5), call@.8),
{
}

/// `f` may return `out` on two mutable references and three plain arguments,
/// and leave the referents at the given values.
pub open spec fn effect_ppmmp<
    P0,
    P1,
    M2,
    M3,
    P4,
    Out,
    F: FnMut(P0, P1, &mut M2, &mut M3, P4) -> Out,
>(f: F, p0: P0, p1: P1, m2: M2, m3: M3, p4: P4, m2_after: M2, m3_after: M3, out: Out) -> bool {
    call_ensures(
        effect_ppmmp_fact::<P0, P1, M2, M3, P4, Out, F>,
        (Ghost((f, p0, p1, m2, m3, p4, m2_after, m3_after, out)),),
        (),
    )
}

/// What [`effect_ppmmp`] says of `f`.
pub proof fn lemma_effect_ppmmp<
    P0,
    P1,
    M2,
    M3,
    P4,
    Out,
    F: FnMut(P0, P1, &mut M2, &mut M3, P4) -> Out,
>(f: F, p0: P0, p1: P1, m2: M2, m3: M3, p4: P4, m2_after: M2, m3_after: M3, out: Out)
    requires
        effect_ppmmp(f, p0, p1, m2, m3, p4, m2_after, m3_after, out),
    ensures
        exists|r2: &mut M2|
            *r2 == m2
                && *final(r2) == m2_after
                && exists|r3: &mut M3|
                    *r3 == m3
                        && *final(r3) == m3_after
                        && call_ensures(f, (p0, p1, r2, r3, p4), out),
{
}

/// Carries the outcome of a call of `f` on a mutable reference and four plain arguments.
pub fn effect_ppmpp_fact<P0, P1, M2, P3, P4, Out, F: FnMut(P0, P1, &mut M2, P3, P4) -> Out>(
    call: Ghost<(F, P0, P1, M2, P3, P4, M2, Out)>,
)
    requires
        exists|r2: &mut M2|
            *r2 == call@.3
                && *final(r2) == call@.6
                && call_ensures(call@.0, (call@.1, call@.2, r2, call@.4, call@.5), call@.7),
    ensures
        exists|r2: &mut M2|
            *r2 == call@.3
                && *final(r2) == call@.6
                && call_ensures(call@.0, (call@.1, call@.2, r2, call@.4, call@.5), call@.7),
{
}

/// `f` may return `out` on a mutable reference and four plain arguments,
/// and leave the referents at the given values.
pub open spec fn effect_ppmpp<P0, P1, M2, P3, P4, Out, F: FnMut(P0, P1, &mut M2, P3, P4) -> Out>(
    f: F,
    p0: P0,
    p1: P1,
    m2: M2,
    p3: P3,
    p4: P4,
    m2_after: M2,
    out: Out,
) -> bool {
    call_ensures(
        effect_ppmpp_fact::<P0, P1, M2, P3, P4, Out, F>,
        (Ghost((f, p0, p1, m2, p3, p4, m2_after, out)),),
        (),
    )
}

/// What [`effect_ppmpp`] says of `f`.
pub proof fn lemma_effect_ppmpp<P0, P1, M2, P3, P4, Out, F: FnMut(P0, P1, &mut M2, P3, P4) -> Out>(
    f: F,
    p0: P0,
    p1: P1,
    m2: M2,
    p3: P3,
    p4: P4,
    m2_after: M2,
    out: Out,
)
    requires
        effect_ppmpp(f, p0, p1, m2, p3, p4, m2_after, out),
    ensures
        exists|r2: &mut M2|
            *r2 == m2
                && *final(r2) == m2_after
                && call_ensures(f, (p0, p1, r2, p3, p4), out),
{
}

/// Carries the outcome of a call of `f` on a mutable reference and four plain arguments.
pub fn effect_pppmp_fact<P0, P1, P2, M3, P4, Out, F: FnMut(P0, P1, P2, &mut M3, P4) -> Out>(
    call: Ghost<(F, P0, P1, P2, M3, P4, M3, Out)>,
)
    requires
        exists|r3: &mut M3|
            *r3 == call@.4
                && *final(r3) == call@.6
                && call_ensures(call@.0, (call@.1, call@.2, call@.3, r3, call@.5), call@.7),
    ensures
        exists|r3: &mut M3|
            *r3 == call@.4
                && *final(r3) == call@.6
                && call_ensures(call@.0, (call@.1, call@.2, call@.3, r3, call@.5), call@.7),
{
}

/// `f` may return `out` on a mutable reference and four plain arguments,
/// and leave the referents at the given values.
pub open spec fn effect_pppmp<P0, P1, P2, M3, P4, Out, F: FnMut(P0, P1, P2, &mut M3, P4) -> Out>(
    f: F,
    p0: P0,
    p1: P1,
    p2: P2,
    m3: M3,
    p4: P4,
    m3_after: M3,
    out: Out,
) -> bool {
    call_ensures(
        effect_pppmp_fact::<P0, P1, P2, M3, P4, Out, F>,
        (Ghost((f, p0, p1, p2, m3, p4, m3_after, out)),),
        (),
    )
}

/// What [`effect_pppmp`] says of `f`.
pub proof fn lemma_effect_pppmp<P0, P1, P2, M3, P4, Out, F: FnMut(P0, P1, P2, &mut M3, P4) -> Out>(
    f: F,
    p0: P0,
    p1: P1,
    p2: P2,
    m3: M3,
    p4: P4,
    m3_after: M3,
    out: Out,
)
    requires
        effect_pppmp(f, p0, p1, p2, m3, p4, m3_after, out),
    ensures
        exists|r3: &mut M3|
            *r3 == m3
                && *final(r3) == m3_after
                && call_ensures(f, (p0, p1, p2, r3, p4), out),
{
}

/// Carries the outcome of a call of `f` on four mutable references and two plain arguments.
pub fn effect_mmmmpp_fact<
    M0,
    M1,
    M2,
    M3,
    P4,
    P5,
    Out,
    F: FnMut(&mut M0, &mut M1, &mut M2, &mut M3, P4, P5) -> Out,
>(call: Ghost<(F, M0, M1, M2, M3, P4, P5, M0, M1, M2, M3, Out)>)
    requires
        exists|r0: &mut M0|
            *r0 == call@.1
                && *final(r0) == call@.7
                && exists|r1: &mut M1|
                    *r1 == call@.2
                        && *final(r1) == call@.8
                        && exists|r2: &mut M2|
                            *r2 == call@.3
                                && *final(r2) == call@.9
                                && exists|r3: &mut M3|
                                    *r3 == call@.4
                                        && *final(r3) == call@.10
                                        && call_ensures(
                                            call@.0,
                                            (r0, r1, r2, r3, call@.5, call@.6),
                                            call@.11,
                                        ),
    ensures
        exists|r0: &mut M0|
            *r0 == call@.1
                && *final(r0) == call@.7
                && exists|r1: &mut M1|
                    *r1 == call@.2
                        && *final(r1) == call@.8
                        && exists|r2: &mut M2|
                            *r2 == call@.3
                                && *final(r2) == call@.9
                                && exists|r3: &mut M3|
                                    *r3 == call@.4
                                        && *final(r3) == call@.10
                                        && call_ensures(
                                            call@.0,
                                            (r0, r1, r2, r3, call@.5, call@.6),
                                            call@.11,
                                        ),
{
}

/// `f` may return `out` on four mutable references and two plain arguments,
/// and leave the referents at the given values.
pub open spec fn effect_mmmmpp<
    M0,
    M1,
    M2,
    M3,
    P4,
    P5,
    Out,
    F: FnMut(&mut M0, &mut M1, &mut M2, &mut M3, P4, P5) -> Out,
>(
    f: F,
    m0: M0,
    m1: M1,
    m2: M2,
    m3: M3,
    p4: P4,
    p5: P5,
    m0_after: M0,
    m1_after: M1,
    m2_after: M2,
    m3_after: M3,
    out: Out,
) -> bool {
    call_ensures(
        effect_mmmmpp_fact::<M0, M1, M2, M3, P4, P5, Out, F>,
        (Ghost((f, m0, m1, m2, m3, p4, p5, m0_after, m1_after, m2_after, m3_after, out)),),
        (),
    )
}

/// What [`effect_mmmmpp`] says of `f`.
pub proof fn lemma_effect_mmmmpp<
    M0,
    M1,
    M2,
    M3,
    P4,
    P5,
    Out,
    F: FnMut(&mut M0, &mut M1, &mut M2, &mut M3, P4, P5) -> Out,
>(
    f: F,
    m0: M0,
    m1: M1,
    m2: M2,
    m3: M3,
    p4: P4,
    p5: P5,
    m0_after: M0,
    m1_after: M1,
    m2_after: M2,
    m3_after: M3,
    out: Out,
)
    requires
        effect_mmmmpp(f, m0, m1, m2, m3, p4, p5, m0_after, m1_after, m2_after, m3_after, out),
    ensures
        exists|r0: &mut M0|
            *r0 == m0
                && *final(r0) == m0_after
                && exists|r1: &mut M1|
                    *r1 == m1
                        && *final(r1) == m1_after
                        && exists|r2: &mut M2|
                            *r2 == m2
                                && *final(r2) == m2_after
                                && exists|r3: &mut M3|
                                    *r3 == m3
                                        && *final(r3) == m3_after
                                        && call_ensures(f, (r0, r1, r2, r3, p4, p5), out),
{
}

/// Carries the outcome of a call of `f` on three mutable references and three plain arguments.
pub fn effect_mmmppp_fact<
    M0,
    M1,
    M2,
    P3,
    P4,
    P5,
    Out,
    F: FnMut(&mut M0, &mut M1, &mut M2, P3, P4, P5) -> Out,
>(call: Ghost<(F, M0, M1, M2, P3, P4, P5, M0, M1, M2, Out)>)
    requires
        exists|r0: &mut M0|
            *r0 == call@.1
                && *final(r0) == call@.7
                && exists|r1: &mut M1|
                    *r1 == call@.2
                        && *final(r1) == call@.8
                        && exists|r2: &mut M2|
                            *r2 == call@.3
                                && *final(r2) == call@.9
                                && call_ensures(
                                    call@.0,
                                    (r0, r1, r2, call@.4, call@.5, call@.6),
                                    call@.10,
                                ),
    ensures
        exists|r0: &mut M0|
            *r0 == call@.1
                && *final(r0) == call@.7
                && exists|r1: &mut M1|
                    *r1 == call@.2
                        && *final(r1) == call@.8
                        && exists|r2: &mut M2|
                            *r2 == call@.3
                                && *final(r2) == call@.9
                                && call_ensures(
                                    call@.0,
                                    (r0, r1, r2, call@.4, call@.5, call@.6),
                                    call@.10,
                                ),
{
}

/// `f` may return `out` on three mutable references and three plain arguments,
/// and leave the referents at the given values.
pub open spec fn effect_mmmppp<
    M0,
    M1,
    M2,
    P3,
    P4,
    P5,
    Out,
    F: FnMut(&mut M0, &mut M1, &mut M2, P3, P4, P5) -> Out,
>(
    f: F,
    m0: M0,
    m1: M1,
    m2: M2,
    p3: P3,
    p4: P4,
    p5: P5,
    m0_after: M0,
    m1_after: M1,
    m2_after: M2,
    out: Out,
) -> bool {
    call_ensures(
        effect_mmmppp_fact::<M0, M1, M2, P3, P4, P5, Out, F>,
        (Ghost((f, m0, m1, m2, p3, p4, p5, m0_after, m1_after, m2_after, out)),),
        (),
    )
}

/// What [`effect_mmmppp`] says of `f`.
pub proof fn lemma_effect_mmmppp<
    M0,
    M1,
    M2,
    P3,
    P4,
    P5,
    Out,
    F: FnMut(&mut M0, &mut M1, &mut M2, P3, P4, P5) -> Out,
>(
    f: F,
    m0: M0,
    m1: M1,
    m2: M2,
    p3: P3,
    p4: P4,
    p5: P5,
    m0_after: M0,
    m1_after: M1,
    m2_after: M2,
    out: Out,
)
    requires
        effect_mmmppp(f, m0, m1, m2, p3, p4, p5, m0_after, m1_after, m2_after, out),
    ensures
        exists|r0: &mut M0|
            *r0 == m0
                && *final(r0) == m0_after
                && exists|r1: &mut M1|
                    *r1 == m1
                        && *final(r1) == m1_after
                        && exists|r2: &mut M2|
                            *r2 == m2
                                && *final(r2) == m2_after
                                && call_ensures(f, (r0, r1, r2, p3, p4, p5), out),
{
}

/// Carries the outcome of a call of `f` on three mutable references and three plain arguments.
pub fn effect_mmpmpp_fact<
    M0,
    M1,
    P2,
    M3,
    P4,
    P5,
    Out,
    F: FnMut(&mut M0, &mut M1, P2, &mut M3, P4, P5) -> Out,
>(call: Ghost<(F, M0, M1, P2, M3, P4, P5, M0, M1, M3, Out)>)
    requires
        exists|r0: &mut M0|
            *r0 == call@.1
                && *final(r0) == call@.7
                && exists|r1: &mut M1|
                    *r1 == call@.2
                        && *final(r1) == call@.8
                        && exists|r3: &mut M3|
                            *r3 == call@.4
                                && *final(r3) == call@.9
                                && call_ensures(
                                    call@.0,
                                    (r0, r1, call@.3, r3, call@.5, call@.6),
                                    call@.10,
                                ),
    ensures
        exists|r0: &mut M0|
            *r0 == call@.1
                && *final(r0) == call@.7
                && exists|r1: &mut M1|
                    *r1 == call@.2
                        && *final(r1) == call@.8
                        && exists|r3: &mut M3|
                            *r3 == call@.4
                                && *final(r3) == call@.9
                                && call_ensures(
                                    call@.0,
                                    (r0, r1, call@.3, r3, call@.5, call@.6),
                                    call@.10,
                                ),
{
}

/// `f` may return `out` on three mutable references and three plain arguments,
/// and leave the referents at the given values.
pub open spec fn effect_mmpmpp<
    M0,
    M1,
    P2,
    M3,
    P4,
    P5,
    Out,
    F: FnMut(&mut M0, &mut M1, P2, &mut M3, P4, P5) -> Out,
>(
    f: F,
    m0: M0,
    m1: M1,
    p2: P2,
    m3: M3,
    p4: P4,
    p5: P5,
    m0_after: M0,
    m1_after: M1,
    m3_after: M3,
    out: Out,
) -> bool {
    call_ensures(
        effect_mmpmpp_fact::<M0, M1, P2, M3, P4, P5, Out, F>,
        (Ghost((f, m0, m1, p2, m3, p4, p5, m0_after, m1_after, m3_after, out)),),
        (),
    )
}

/// What [`effect_mmpmpp`] says of `f`.
pub proof fn lemma_effect_mmpmpp<
    M0,
    M1,
    P2,
    M3,
    P4,
    P5,
    Out,
    F: FnMut(&mut M0, &mut M1, P2, &mut M3, P4, P5) -> Out,
>(
    f: F,
    m0: M0,
    m1: M1,
    p2: P2,
    m3: M3,
    p4: P4,
    p5: P5,
    m0_after: M0,
    m1_after: M1,
    m3_after: M3,
    out: Out,
)
    requires
        effect_mmpmpp(f, m0, m1, p2, m3, p4, p5, m0_after, m1_after, m3_after, out),
    ensures
        exists|r0: &mut M0|
            *r0 == m0
                && *final(r0) == m0_after
                && exists|r1: &mut M1|
                    *r1 == m1
                        && *final(r1) == m1_after
                        && exists|r3: &mut M3|
                            *r3 == m3
                                && *final(r3) == m3_after
                                && call_ensures(f, (r0, r1, p2, r3, p4, p5), out),
{
}

/// Carries the outcome of a call of `f` on two mutable references and four plain arguments.
pub fn effect_mmpppp_fact<
    M0,
    M1,
    P2,
    P3,
    P4,
    P5,
    Out,
    F: FnMut(&mut M0, &mut M1, P2, P3, P4, P5) -> Out,
>(call: Ghost<(F, M0, M1, P2, P3, P4, P5, M0, M1, Out)>)
    requires
        exists|r0: &mut M0|
            *r0 == call@.1
                && *final(r0) == call@.7
                && exists|r1: &mut M1|
                    *r1 == call@.2
                        && *final(r1) == call@.8
                        && call_ensures(
                            call@.0,
                            (r0, r1, call@.3, call@.4, call@.5, call@.6),
                            call@.9,
                        ),
    ensures
        exists|r0: &mut M0|
            *r0 == call@.1
                && *final(r0) == call@.7
                && exists|r1: &mut M1|
                    *r1 == call@.2
                        && *final(r1) == call@.8
                        && call_ensures(
                            call@.0,
                            (r0, r1, call@.3, call@.4, call@.5, call@.6),
                            call@.9,
                        ),
{
}

/// `f` may return `out` on two mutable references and four plain arguments,
/// and leave the referents at the given values.
pub open spec fn effect_mmpppp<
    M0,
    M1,
    P2,
    P3,
    P4,
    P5,
    Out,
    F: FnMut(&mut M0, &mut M1, P2, P3, P4, P5) -> Out,
>(
    f: F,
    m0: M0,
    m1: M1,
    p2: P2,
    p3: P3,
    p4: P4,
    p5: P5,
    m0_after: M0,
    m1_after: M1,
    out: Out,
) -> bool {
    call_ensures(
        effect_mmpppp_fact::<M0, M1, P2, P3, P4, P5, Out, F>,
        (Ghost((f, m0, m1, p2, p3, p4, p5, m0_after, m1_after, out)),),
        (),
    )
}

/// What [`effect_mmpppp`] says of `f`.
pub proof fn lemma_effect_mmpppp<
    M0,
    M1,
    P2,
    P3,
    P4,
    P5,
    Out,
    F: FnMut(&mut M0, &mut M1, P2, P3, P4, P5) -> Out,
>(f: F, m0: M0, m1: M1, p2: P2, p3: P3, p4: P4, p5: P5, m0_after: M0, m1_after: M1, out: Out)
    requires
        effect_mmpppp(f, m0, m1, p2, p3, p4, p5, m0_after, m1_after, out),
    ensures
        exists|r0: &mut M0|
            *r0 == m0
                && *final(r0) == m0_after
                && exists|r1: &mut M1|
                    *r1 == m1
                        && *final(r1) == m1_after
                        && call_ensures(f, (r0, r1, p2, p3, p4, p5), out),
{
}

/// Carries the outcome of a call of `f` on three mutable references and three plain arguments.
pub fn effect_mpmmpp_fact<
    M0,
    P1,
    M2,
    M3,
    P4,
    P5,
    Out,
    F: FnMut(&mut M0, P1, &mut M2, &mut M3, P4, P5) -> Out,
>(call: Ghost<(F, M0, P1, M2, M3, P4, P5, M0, M2, M3, Out)>)
    requires
        exists|r0: &mut M0|
            *r0 == call@.1
                && *final(r0) == call@.7
                && exists|r2: &mut M2|
                    *r2 == call@.3
                        && *final(r2) == call@.8
                        && exists|r3: &mut M3|
                            *r3 == call@.4
                                && *final(r3) == call@.9
                                && call_ensures(
                                    call@.0,
                                    (r0, call@.2, r2, r3, call@.5, call@.6),
                                    call@.10,
                                ),
    ensures
        exists|r0: &mut M0|
            *r0 == call@.1
                && *final(r0) == call@.7
                && exists|r2: &mut M2|
                    *r2 == call@.3
                        && *final(r2) == call@.8
                        && exists|r3: &mut M3|
                            *r3 == call@.4
                                && *final(r3) == call@.9
                                && call_ensures(
                                    call@.0,
                                    (r0, call@.2, r2, r3, call@.5, call@.6),
                                    call@.10,
                                ),
{
}

/// `f` may return `out` on three mutable references and three plain arguments,
/// and leave the referents at the given values.
pub open spec fn effect_mpmmpp<
    M0,
    P1,
    M2,
    M3,
    P4,
    P5,
    Out,
    F: FnMut(&mut M0, P1, &mut M2, &mut M3, P4, P5) -> Out,
>(
    f: F,
    m0: M0,
    p1: P1,
    m2: M2,
    m3: M3,
    p4: P4,
    p5: P5,
    m0_after: M0,
    m2_after: M2,
    m3_after: M3,
    out: Out,
) -> bool {
    call_ensures(
        effect_mpmmpp_fact::<M0, P1, M2, M3, P4, P5, Out, F>,
        (Ghost((f, m0, p1, m2, m3, p4, p5, m0_after, m2_after, m3_after, out)),),
        (),
    )
}

/// What [`effect_mpmmpp`] says of `f`.
pub proof fn lemma_effect_mpmmpp<
    M0,
    P1,
    M2,
    M3,
    P4,
    P5,
    Out,
    F: FnMut(&mut M0, P1, &mut M2, &mut M3, P4, P5) -> Out,
>(
    f: F,
    m0: M0,
    p1: P1,
    m2: M2,
    m3: M3,
    p4: P4,
    p5: P5,
    m0_after: M0,
    m2_after: M2,
    m3_after: M3,
    out: Out,
)
    requires
        effect_mpmmpp(f, m0, p1, m2, m3, p4, p5, m0_after, m2_after, m3_after, out),
    ensures
        exists|r0: &mut M0|
            *r0 == m0
                && *final(r0) == m0_after
                && exists|r2: &mut M2|
                    *r2 == m2
                        && *final(r2) == m2_after
                        && exists|r3: &mut M3|
                            *r3 == m3
                                && *final(r3) == m3_after
                                && call_ensures(f, (r0, p1, r2, r3, p4, p5), out),
{
}

/// Carries the outcome of a call of `f` on two mutable references and four plain arguments.
pub fn effect_mpmppp_fact<
    M0,
    P1,
    M2,
    P3,
    P4,
    P5,
    Out,
    F: FnMut(&mut M0, P1, &mut M2, P3, P4, P5) -> Out,
>(call: Ghost<(F, M0, P1, M2, P3, P4, P5, M0, M2, Out)>)
    requires
        exists|r0: &mut M0|
            *r0 == call@.1
                && *final(r0) == call@.7
                && exists|r2: &mut M2|
                    *r2 == call@.3
                        && *final(r2) == call@.8
                        && call_ensures(
                            call@.0,
                            (r0, call@.2, r2, call@.4, call@.5, call@.6),
                            call@.9,
                        ),
    ensures
        exists|r0: &mut M0|
            *r0 == call@.1
                && *final(r0) == call@.7
                && exists|r2: &mut M2|
                    *r2 == call@.3
                        && *final(r2) == call@.8
                        && call_ensures(
                            call@.0,
                            (r0, call@.2, r2, call@.4, call@.5, call@.6),
                            call@.9,
                        ),
{
}

/// `f` may return `out` on two mutable references and four plain arguments,
/// and leave the referents at the given values.
pub open spec fn effect_mpmppp<
    M0,
    P1,
    M2,
    P3,
    P4,
    P5,
    Out,
    F: FnMut(&mut M0, P1, &mut M2, P3, P4, P5) -> Out,
>(
    f: F,
    m0: M0,
    p1: P1,
    m2: M2,
    p3: P3,
    p4: P4,
    p5: P5,
    m0_after: M0,
    m2_after: M2,
    out: Out,
) -> bool {
    call_ensures(
        effect_mpmppp_fact::<M0, P1, M2, P3, P4, P5, Out, F>,
        (Ghost((f, m0, p1, m2, p3, p4, p5, m0_after, m2_after, out)),),
        (),
    )
}

/// What [`effect_mpmppp`] says of `f`.
pub proof fn lemma_effect_mpmppp<
    M0,
    P1,
    M2,
    P3,
    P4,
    P5,
    Out,
    F: FnMut(&mut M0, P1, &mut M2, P3, P4, P5) -> Out,
>(f: F, m0: M0, p1: P1, m2: M2, p3: P3, p4: P4, p5: P5, m0_after: M0, m2_after: M2, out: Out)
    requires
        effect_mpmppp(f, m0, p1, m2, p3, p4, p5, m0_after, m2_after, out),
    ensures
        exists|r0: &mut M0|
            *r0 == m0
                && *final(r0) == m0_after
                && exists|r2: &mut M2|
                    *r2 == m2
                        && *final(r2) == m2_after
                        && call_ensures(f, (r0, p1, r2, p3, p4, p5), out),
{
}

/// Carries the outcome of a call of `f` on two mutable references and four plain arguments.
pub fn effect_mppmpp_fact<
    M0,
    P1,
    P2,
    M3,
    P4,
    P5,
    Out,
    F: FnMut(&mut M0, P1, P2, &mut M3, P4, P5) -> Out,
>(call: Ghost<(F, M0, P1, P2, M3, P4, P5, M0, M3, Out)>)
    requires
        exists|r0: &mut M0|
            *r0 == call@.1
                && *final(r0) == call@.7
                && exists|r3: &mut M3|
                    *r3 == call@.4
                        && *final(r3) == call@.8
                        && call_ensures(
                            call@.0,
                            (r0, call@.2, call@.3, r3, call@.5, call@.6),
                            call@.9,
                        ),
    ensures
        exists|r0: &mut M0|
            *r0 == call@.1
                && *final(r0) == call@.7
                && exists|r3: &mut M3|
                    *r3 == call@.4
                        && *final(r3) == call@.8
                        && call_ensures(
                            call@.0,
                            (r0, call@.2, call@.3, r3, call@.5, call@.6),
                            call@.9,
                        ),
{
}

/// `f` may return `out` on two mutable references and four plain arguments,
/// and leave the referents at the given values.
pub open spec fn effect_mppmpp<
    M0,
    P1,
    P2,
    M3,
    P4,
    P5,
    Out,
    F: FnMut(&mut M0, P1, P2, &mut M3, P4, P5) -> Out,
>(
    f: F,
    m0: M0,
    p1: P1,
    p2: P2,
    m3: M3,
    p4: P4,
    p5: P5,
    m0_after: M0,
    m3_after: M3,
    out: Out,
) -> bool {
    call_ensures(
        effect_mppmpp_fact::<M0, P1, P2, M3, P4, P5, Out, F>,
        (Ghost((f, m0, p1, p2, m3, p4, p5, m0_after, m3_after, out)),),
        (),
    )
}

/// What [`effect_mppmpp`] says of `f`.
pub proof fn lemma_effect_mppmpp<
    M0,
    P1,
    P2,
    M3,
    P4,
    P5,
    Out,
    F: FnMut(&mut M0, P1, P2, &mut M3, P4, P5) -> Out,
>(f: F, m0: M0, p1: P1, p2: P2, m3: M3, p4: P4, p5: P5, m0_after: M0, m3_after: M3, out: Out)
    requires
        effect_mppmpp(f, m0, p1, p2, m3, p4, p5, m0_after, m3_after, out),
    ensures
        exists|r0: &mut M0|
            *r0 == m0
                && *final(r0) == m0_after
                && exists|r3: &mut M3|
                    *r3 == m3
                        && *final(r3) == m3_after
                        && call_ensures(f, (r0, p1, p2, r3, p4, p5), out),
{
}

/// Carries the outcome of a call of `f` on a mutable reference and five plain arguments.
pub fn effect_mppppp_fact<
    M0,
    P1,
    P2,
    P3,
    P4,
    P5,
    Out,
    F: FnMut(&mut M0, P1, P2, P3, P4, P5) -> Out,
>(call: Ghost<(F, M0, P1, P2, P3, P4, P5, M0, Out)>)
    requires
        exists|r0: &mut M0|
            *r0 == call@.1
                && *final(r0) == call@.7
                && call_ensures(
                    call@.0,
                    (r0, call@.2, call@.3, call@.4, call@.5, call@.6),
                    call@.8,
                ),
    ensures
        exists|r0: &mut M0|
            *r0 == call@.1
                && *final(r0) == call@.7
                && call_ensures(
                    call@.0,
                    (r0, call@.2, call@.3, call@.4, call@.5, call@.6),
                    call@.8,
                ),
{
}

/// `f` may return `out` on a mutable reference and five plain arguments,
/// and leave the referents at the given values.
pub open spec fn effect_mppppp<
    M0,
    P1,
    P2,
    P3,
    P4,
    P5,
    Out,
    F: FnMut(&mut M0, P1, P2, P3, P4, P5) -> Out,
>(f: F, m0: M0, p1: P1, p2: P2, p3: P3, p4: P4, p5: P5, m0_after: M0, out: Out) -> bool {
    call_ensures(
        effect_mppppp_fact::<M0, P1, P2, P3, P4, P5, Out, F>,
        (Ghost((f, m0, p1, p2, p3, p4, p5, m0_after, out)),),
        (),
    )
}

/// What [`effect_mppppp`] says of `f`.
pub proof fn lemma_effect_mppppp<
    M0,
    P1,
    P2,
    P3,
    P4,
    P5,
    Out,
    F: FnMut(&mut M0, P1, P2, P3, P4, P5) -> Out,
>(f: F, m0: M0, p1: P1, p2: P2, p3: P3, p4: P4, p5: P5, m0_after: M0, out: Out)
    requires
        effect_mppppp(f, m0, p1, p2, p3, p4, p5, m0_after, out),
    ensures
        exists|r0: &mut M0|
            *r0 == m0
                && *final(r0) == m0_after
                && call_ensures(f, (r0, p1, p2, p3, p4, p5), out),
{
}

/// Carries the outcome of a call of `f` on two mutable references and four plain arguments.
pub fn effect_pmmppp_fact<
    P0,
    M1,
    M2,
    P3,
    P4,
    P5,
    Out,
    F: FnMut(P0, &mut M1, &mut M2, P3, P4, P5) -> Out,
>(call: Ghost<(F, P0, M1, M2, P3, P4, P5, M1, M2, Out)>)
    requires
        exists|r1: &mut M1|
            *r1 == call@.2
                && *final(r1) == call@.7
                && exists|r2: &mut M2|
                    *r2 == call@.3
                        && *final(r2) == call@.8
                        && call_ensures(
                            call@.0,
                            (call@.1, r1, r2, call@.4, call@.5, call@.6),
                            call@.9,
                        ),
    ensures
        exists|r1: &mut M1|
            *r1 == call@.2
                && *final(r1) == call@.7
                && exists|r2: &mut M2|
                    *r2 == call@.3
                        && *final(r2) == call@.8
                        && call_ensures(
                            call@.0,
                            (call@.1, r1, r2, call@.4, call@.5, call@.6),
                            call@.9,
                        ),
{
}

/// `f` may return `out` on two mutable references and four plain arguments,
/// and leave the referents at the given values.
pub open spec fn effect_pmmppp<
    P0,
    M1,
    M2,
    P3,
    P4,
    P5,
    Out,
    F: FnMut(P0, &mut M1, &mut M2, P3, P4, P5) -> Out,
>(
    f: F,
    p0: P0,
    m1: M1,
    m2: M2,
    p3: P3,
    p4: P4,
    p5: P5,
    m1_after: M1,
    m2_after: M2,
    out: Out,
) -> bool {
    call_ensures(
        effect_pmmppp_fact::<P0, M1, M2, P3, P4, P5, Out, F>,
        (Ghost((f, p0, m1, m2, p3, p4, p5, m1_after, m2_after, out)),),
        (),
    )
}

/// What [`effect_pmmppp`] says of `f`.
pub proof fn lemma_effect_pmmppp<
    P0,
    M1,
    M2,
    P3,
    P4,
    P5,
    Out,
    F: FnMut(P0, &mut M1, &mut M2, P3, P4, P5) -> Out,
>(f: F, p0: P0, m1: M1, m2: M2, p3: P3, p4: P4, p5: P5, m1_after: M1, m2_after: M2, out: Out)
    requires
        effect_pmmppp(f, p0, m1, m2, p3, p4, p5, m1_after, m2_after, out),
    ensures
        exists|r1: &mut M1|
            *r1 == m1
                && *final(r1) == m1_after
                && exists|r2: &mut M2|
                    *r2 == m2
                        && *final(r2) == m2_after
                        && call_ensures(f, (p0, r1, r2, p3, p4, p5), out),
{
}

/// Carries the outcome of a call of `f` on a mutable reference and five plain arguments.
pub fn effect_pmpppp_fact<
    P0,
    M1,
    P2,
    P3,
    P4,
    P5,
    Out,
    F: FnMut(P0, &mut M1, P2, P3, P4, P5) -> Out,
>(call: Ghost<(F, P0, M1, P2, P3, P4, P5, M1, Out)>)
    requires
        exists|r1: &mut M1|
            *r1 == call@.2
                && *final(r1) == call@.7
                && call_ensures(
                    call@.0,
                    (call@.1, r1, call@.3, call@.4, call@.5, call@.6),
                    call@.8,
                ),
    ensures
        exists|r1: &mut M1|
            *r1 == call@.2
                && *final(r1) == call@.7
                && call_ensures(
                    call@.0,
                    (call@.1, r1, call@.3, call@.4, call@.5, call@.6),
                    call@.8,
                ),
{
}

/// `f` may return `out` on a mutable reference and five plain arguments,
/// and leave the referents at the given values.
pub open spec fn effect_pmpppp<
    P0,
    M1,
    P2,
    P3,
    P4,
    P5,
    Out,
    F: FnMut(P0, &mut M1, P2, P3, P4, P5) -> Out,
>(f: F, p0: P0, m1: M1, p2: P2, p3: P3, p4: P4, p5: P5, m1_after: M1, out: Out) -> bool {
    call_ensures(
        effect_pmpppp_fact::<P0, M1, P2, P3, P4, P5, Out, F>,
        (Ghost((f, p0, m1, p2, p3, p4, p5, m1_after, out)),),
        (),
    )
}

/// What [`effect_pmpppp`] says of `f`.
pub proof fn lemma_effect_pmpppp<
    P0,
    M1,
    P2,
    P3,
    P4,
    P5,
    Out,
    F: FnMut(P0, &mut M1, P2, P3, P4, P5) -> Out,
>(f: F, p0: P0, m1: M1, p2: P2, p3: P3, p4: P4, p5: P5, m1_after: M1, out: Out)
    requires
        effect_pmpppp(f, p0, m1, p2, p3, p4, p5, m1_after, out),
    ensures
        exists|r1: &mut M1|
            *r1 == m1
                && *final(r1) == m1_after
                && call_ensures(f, (p0, r1, p2, p3, p4, p5), out),
{
}

/// Carries the outcome of a call of `f` on a mutable reference and five plain arguments.
pub fn effect_ppmppp_fact<
    P0,
    P1,
    M2,
    P3,
    P4,
    P5,
    Out,
    F: FnMut(P0, P1, &mut M2, P3, P4, P5) -> Out,
>(call: Ghost<(F, P0, P1, M2, P3, P4, P5, M2, Out)>)
    requires
        exists|r2: &mut M2|
            *r2 == call@.3
                && *final(r2) == call@.7
                && call_ensures(
                    call@.0,
                    (call@.1, call@.2, r2, call@.4, call@.5, call@.6),
                    call@.8,
                ),
    ensures
        exists|r2: &mut M2|
            *r2 == call@.3
                && *final(r2) == call@.7
                && call_ensures(
                    call@.0,
                    (call@.1, call@.2, r2, call@.4, call@.5, call@.6),
                    call@.8,
                ),
{
}

/// `f` may return `out` on a mutable reference and five plain arguments,
/// and leave the referents at the given values.
pub open spec fn effect_ppmppp<
    P0,
    P1,
    M2,
    P3,
    P4,
    P5,
    Out,
    F: FnMut(P0, P1, &mut M2, P3, P4, P5) -> Out,
>(f: F, p0: P0, p1: P1, m2: M2, p3: P3, p4: P4, p5: P5, m2_after: M2, out: Out) -> bool {
    call_ensures(
        effect_ppmppp_fact::<P0, P1, M2, P3, P4, P5, Out, F>,
        (Ghost((f, p0, p1, m2, p3, p4, p5, m2_after, out)),),
        (),
    )
}

/// What [`effect_ppmppp`] says of `f`.
pub proof fn lemma_effect_ppmppp<
    P0,
    P1,
    M2,
    P3,
    P4,
    P5,
    Out,
    F: FnMut(P0, P1, &mut M2, P3, P4, P5) -> Out,
>(f: F, p0: P0, p1: P1, m2: M2, p3: P3, p4: P4, p5: P5, m2_after: M2, out: Out)
    requires
        effect_ppmppp(f, p0, p1, m2, p3, p4, p5, m2_after, out),
    ensures
        exists|r2: &mut M2|
            *r2 == m2
                && *final(r2) == m2_after
                && call_ensures(f, (p0, p1, r2, p3, p4, p5), out),
{
}

/// Carries the outcome of a call of `f` on four mutable references and three plain arguments.
pub fn effect_mmmmppp_fact<
    M0,
    M1,
    M2,
    M3,
    P4,
    P5,
    P6,
    Out,
    F: FnMut(&mut M0, &mut M1, &mut M2, &mut M3, P4, P5, P6) -> Out,
>(call: Ghost<(F, M0, M1, M2, M3, P4, P5, P6, M0, M1, M2, M3, Out)>)
    requires
        exists|r0: &mut M0|
            *r0 == call@.1
                && *final(r0) == call@.8
                && exists|r1: &mut M1|
                    *r1 == call@.2
                        && *final(r1) == call@.9
                        && exists|r2: &mut M2|
                            *r2 == call@.3
                                && *final(r2) == call@.10
                                && exists|r3: &mut M3|
                                    *r3 == call@.4
                                        && *final(r3) == call@.11
                                        && call_ensures(
                                            call@.0,
                                            (r0, r1, r2, r3, call@.5, call@.6, call@.7),
                                            call@.12,
                                        ),
    ensures
        exists|r0: &mut M0|
            *r0 == call@.1
                && *final(r0) == call@.8
                && exists|r1: &mut M1|
                    *r1 == call@.2
                        && *final(r1) == call@.9
                        && exists|r2: &mut M2|
                            *r2 == call@.3
                                && *final(r2) == call@.10
                                && exists|r3: &mut M3|
                                    *r3 == call@.4
                                        && *final(r3) == call@.11
                                        && call_ensures(
                                            call@.0,
                                            (r0, r1, r2, r3, call@.5, call@.6, call@.7),
                                            call@.12,
                                        ),
{
}

/// `f` may return `out` on four mutable references and three plain arguments,
/// and leave the referents at the given values.
pub open spec fn effect_mmmmppp<
    M0,
    M1,
    M2,
    M3,
    P4,
    P5,
    P6,
    Out,
    F: FnMut(&mut M0, &mut M1, &mut M2, &mut M3, P4, P5, P6) -> Out,
>(
    f: F,
    m0: M0,
    m1: M1,
    m2: M2,
    m3: M3,
    p4: P4,
    p5: P5,
    p6: P6,
    m0_after: M0,
    m1_after: M1,
    m2_after: M2,
    m3_after: M3,
    out: Out,
) -> bool {
    call_ensures(
        effect_mmmmppp_fact::<M0, M1, M2, M3, P4, P5, P6, Out, F>,
        (Ghost((f, m0, m1, m2, m3, p4, p5, p6, m0_after, m1_after, m2_after, m3_after, out)),),
        (),
    )
}

/// What [`effect_mmmmppp`] says of `f`.
pub proof fn lemma_effect_mmmmppp<
    M0,
    M1,
    M2,
    M3,
    P4,
    P5,
    P6,
    Out,
    F: FnMut(&mut M0, &mut M1, &mut M2, &mut M3, P4, P5, P6) -> Out,
>(
    f: F,
    m0: M0,
    m1: M1,
    m2: M2,
    m3: M3,
    p4: P4,
    p5: P5,
    p6: P6,
    m0_after: M0,
    m1_after: M1,
    m2_after: M2,
    m3_after: M3,
    out: Out,
)
    requires
        effect_mmmmppp(f, m0, m1, m2, m3, p4, p5, p6, m0_after, m1_after, m2_after, m3_after, out),
    ensures
        exists|r0: &mut M0|
            *r0 == m0
                && *final(r0) == m0_after
                && exists|r1: &mut M1|
                    *r1 == m1
                        && *final(r1) == m1_after
                        && exists|r2: &mut M2|
                            *r2 == m2
                                && *final(r2) == m2_after
                                && exists|r3: &mut M3|
                                    *r3 == m3
                                        && *final(r3) == m3_after
                                        && call_ensures(f, (r0, r1, r2, r3, p4, p5, p6), out),
{
}

/// Carries the outcome of a call of `f` on three mutable references and four plain arguments.
pub fn effect_mmmpppp_fact<
    M0,
    M1,
    M2,
    P3,
    P4,
    P5,
    P6,
    Out,
    F: FnMut(&mut M0, &mut M1, &mut M2, P3, P4, P5, P6) -> Out,
>(call: Ghost<(F, M0, M1, M2, P3, P4, P5, P6, M0, M1, M2, Out)>)
    requires
        exists|r0: &mut M0|
            *r0 == call@.1
                && *final(r0) == call@.8
                && exists|r1: &mut M1|
                    *r1 == call@.2
                        && *final(r1) == call@.9
                        && exists|r2: &mut M2|
                            *r2 == call@.3
                                && *final(r2) == call@.10
                                && call_ensures(
                                    call@.0,
                                    (r0, r1, r2, call@.4, call@.5, call@.6, call@.7),
                                    call@.11,
                                ),
    ensures
        exists|r0: &mut M0|
            *r0 == call@.1
                && *final(r0) == call@.8
                && exists|r1: &mut M1|
                    *r1 == call@.2
                        && *final(r1) == call@.9
                        && exists|r2: &mut M2|
                            *r2 == call@.3
                                && *final(r2) == call@.10
                                && call_ensures(
                                    call@.0,
                                    (r0, r1, r2, call@.4, call@.5, call@.6, call@.7),
                                    call@.11,
                                ),
{
}

/// `f` may return `out` on three mutable references and four plain arguments,
/// and leave the referents at the given values.
pub open spec fn effect_mmmpppp<
    M0,
    M1,
    M2,
    P3,
    P4,
    P5,
    P6,
    Out,
    F: FnMut(&mut M0, &mut M1, &mut M2, P3, P4, P5, P6) -> Out,
>(
    f: F,
    m0: M0,
    m1: M1,
    m2: M2,
    p3: P3,
    p4: P4,
    p5: P5,
    p6: P6,
    m0_after: M0,
    m1_after: M1,
    m2_after: M2,
    out: Out,
) -> bool {
    call_ensures(
        effect_mmmpppp_fact::<M0, M1, M2, P3, P4, P5, P6, Out, F>,
        (Ghost((f, m0, m1, m2, p3, p4, p5, p6, m0_after, m1_after, m2_after, out)),),
        (),
    )
}

/// What [`effect_mmmpppp`] says of `f`.
pub proof fn lemma_effect_mmmpppp<
    M0,
    M1,
    M2,
    P3,
    P4,
    P5,
    P6,
    Out,
    F: FnMut(&mut M0, &mut M1, &mut M2, P3, P4, P5, P6) -> Out,
>(
    f: F,
    m0: M0,
    m1: M1,
    m2: M2,
    p3: P3,
    p4: P4,
    p5: P5,
    p6: P6,
    m0_after: M0,
    m1_after: M1,
    m2_after: M2,
    out: Out,
)
    requires
        effect_mmmpppp(f, m0, m1, m2, p3, p4, p5, p6, m0_after, m1_after, m2_after, out),
    ensures
        exists|r0: &mut M0|
            *r0 == m0
                && *final(r0) == m0_after
                && exists|r1: &mut M1|
                    *r1 == m1
                        && *final(r1) == m1_after
                        && exists|r2: &mut M2|
                            *r2 == m2
                                && *final(r2) == m2_after
                                && call_ensures(f, (r0, r1, r2, p3, p4, p5, p6), out),
{
}

/// Carries the outcome of a call of `f` on three mutable references and four plain arguments.
pub fn effect_mmpmppp_fact<
    M0,
    M1,
    P2,
    M3,
    P4,
    P5,
    P6,
    Out,
    F: FnMut(&mut M0, &mut M1, P2, &mut M3, P4, P5, P6) -> Out,
>(call: Ghost<(F, M0, M1, P2, M3, P4, P5, P6, M0, M1, M3, Out)>)
    requires
        exists|r0: &mut M0|
            *r0 == call@.1
                && *final(r0) == call@.8
                && exists|r1: &mut M1|
                    *r1 == call@.2
                        && *final(r1) == call@.9
                        && exists|r3: &mut M3|
                            *r3 == call@.4
                                && *final(r3) == call@.10
                                && call_ensures(
                                    call@.0,
                                    (r0, r1, call@.3, r3, call@.5, call@.6, call@.7),
                                    call@.11,
                                ),
    ensures
        exists|r0: &mut M0|
            *r0 == call@.1
                && *final(r0) == call@.8
                && exists|r1: &mut M1|
                    *r1 == call@.2
                        && *final(r1) == call@.9
                        && exists|r3: &mut M3|
                            *r3 == call@.4
                                && *final(r3) == call@.10
                                && call_ensures(
                                    call@.0,
                                    (r0, r1, call@.3, r3, call@.5, call@.6, call@.7),
                                    call@.11,
                                ),
{
}

/// `f` may return `out` on three mutable references and four plain arguments,
/// and leave the referents at the given values.
pub open spec fn effect_mmpmppp<
    M0,
    M1,
    P2,
    M3,
    P4,
    P5,
    P6,
    Out,
    F: FnMut(&mut M0, &mut M1, P2, &mut M3, P4, P5, P6) -> Out,
>(
    f: F,
    m0: M0,
    m1: M1,
    p2: P2,
    m3: M3,
    p4: P4,
    p5: P5,
    p6: P6,
    m0_after: M0,
    m1_after: M1,
    m3_after: M3,
    out: Out,
) -> bool {
    call_ensures(
        effect_mmpmppp_fact::<M0, M1, P2, M3, P4, P5, P6, Out, F>,
        (Ghost((f, m0, m1, p2, m3, p4, p5, p6, m0_after, m1_after, m3_after, out)),),
        (),
    )
}

/// What [`effect_mmpmppp`] says of `f`.
pub proof fn lemma_effect_mmpmppp<
    M0,
    M1,
    P2,
    M3,
    P4,
    P5,
    P6,
    Out,
    F: FnMut(&mut M0, &mut M1, P2, &mut M3, P4, P5, P6) -> Out,
>(
    f: F,
    m0: M0,
    m1: M1,
    p2: P2,
    m3: M3,
    p4: P4,
    p5: P5,
    p6: P6,
    m0_after: M0,
    m1_after: M1,
    m3_after: M3,
    out: Out,
)
    requires
        effect_mmpmppp(f, m0, m1, p2, m3, p4, p5, p6, m0_after, m1_after, m3_after, out),
    ensures
        exists|r0: &mut M0|
            *r0 == m0
                && *final(r0) == m0_after
                && exists|r1: &mut M1|
                    *r1 == m1
                        && *final(r1) == m1_after
                        && exists|r3: &mut M3|
                            *r3 == m3
                                && *final(r3) == m3_after
                                && call_ensures(f, (r0, r1, p2, r3, p4, p5, p6), out),
{
}

/// Carries the outcome of a call of `f` on two mutable references and five plain arguments.
pub fn effect_mmppppp_fact<
    M0,
    M1,
    P2,
    P3,
    P4,
    P5,
    P6,
    Out,
    F: FnMut(&mut M0, &mut M1, P2, P3, P4, P5, P6) -> Out,
>(call: Ghost<(F, M0, M1, P2, P3, P4, P5, P6, M0, M1, Out)>)
    requires
        exists|r0: &mut M0|
            *r0 == call@.1
                && *final(r0) == call@.8
                && exists|r1: &mut M1|
                    *r1 == call@.2
                        && *final(r1) == call@.9
                        && call_ensures(
                            call@.0,
                            (r0, r1, call@.3, call@.4, call@.5, call@.6, call@.7),
                            call@.10,
                        ),
    ensures
        exists|r0: &mut M0|
            *r0 == call@.1
                && *final(r0) == call@.8
                && exists|r1: &mut M1|
                    *r1 == call@.2
                        && *final(r1) == call@.9
                        && call_ensures(
                            call@.0,
                            (r0, r1, call@.3, call@.4, call@.5, call@.6, call@.7),
                            call@.10,
                        ),
{
}

/// `f` may return `out` on two mutable references and five plain arguments,
/// and leave the referents at the given values.
pub open spec fn effect_mmppppp<
    M0,
    M1,
    P2,
    P3,
    P4,
    P5,
    P6,
    Out,
    F: FnMut(&mut M0, &mut M1, P2, P3, P4, P5, P6) -> Out,
>(
    f: F,
    m0: M0,
    m1: M1,
    p2: P2,
    p3: P3,
    p4: P4,
    p5: P5,
    p6: P6,
    m0_after: M0,
    m1_after: M1,
    out: Out,
) -> bool {
    call_ensures(
        effect_mmppppp_fact::<M0, M1, P2, P3, P4, P5, P6, Out, F>,
        (Ghost((f, m0, m1, p2, p3, p4, p5, p6, m0_after, m1_after, out)),),
        (),
    )
}

/// What [`effect_mmppppp`] says of `f`.
pub proof fn lemma_effect_mmppppp<
    M0,
    M1,
    P2,
    P3,
    P4,
    P5,
    P6,
    Out,
    F: FnMut(&mut M0, &mut M1, P2, P3, P4, P5, P6) -> Out,
>(
    f: F,
    m0: M0,
    m1: M1,
    p2: P2,
    p3: P3,
    p4: P4,
    p5: P5,
    p6: P6,
    m0_after: M0,
    m1_after: M1,
    out: Out,
)
    requires
        effect_mmppppp(f, m0, m1, p2, p3, p4, p5, p6, m0_after, m1_after, out),
    ensures
        exists|r0: &mut M0|
            *r0 == m0
                && *final(r0) == m0_after
                && exists|r1: &mut M1|
                    *r1 == m1
                        && *final(r1) == m1_after
                        && call_ensures(f, (r0, r1, p2, p3, p4, p5, p6), out),
{
}

/// Carries the outcome of a call of `f` on three mutable references and four plain arguments.
pub fn effect_mpmmppp_fact<
    M0,
    P1,
    M2,
    M3,
    P4,
    P5,
    P6,
    Out,
    F: FnMut(&mut M0, P1, &mut M2, &mut M3, P4, P5, P6) -> Out,
>(call: Ghost<(F, M0, P1, M2, M3, P4, P5, P6, M0, M2, M3, Out)>)
    requires
        exists|r0: &mut M0|
            *r0 == call@.1
                && *final(r0) == call@.8
                && exists|r2: &mut M2|
                    *r2 == call@.3
                        && *final(r2) == call@.9
                        && exists|r3: &mut M3|
                            *r3 == call@.4
                                && *final(r3) == call@.10
                                && call_ensures(
                                    call@.0,
                                    (r0, call@.2, r2, r3, call@.5, call@.6, call@.7),
                                    call@.11,
                                ),
    ensures
        exists|r0: &mut M0|
            *r0 == call@.1
                && *final(r0) == call@.8
                && exists|r2: &mut M2|
                    *r2 == call@.3
                        && *final(r2) == call@.9
                        && exists|r3: &mut M3|
                            *r3 == call@.4
                                && *final(r3) == call@.10
                                && call_ensures(
                                    call@.0,
                                    (r0, call@.2, r2, r3, call@.5, call@.6, call@.7),
                                    call@.11,
                                ),
{
}

/// `f` may return `out` on three mutable references and four plain arguments,
/// and leave the referents at the given values.
pub open spec fn effect_mpmmppp<
    M0,
    P1,
    M2,
    M3,
    P4,
    P5,
    P6,
    Out,
    F: FnMut(&mut M0, P1, &mut M2, &mut M3, P4, P5, P6) -> Out,
>(
    f: F,
    m0: M0,
    p1: P1,
    m2: M2,
    m3: M3,
    p4: P4,
    p5: P5,
    p6: P6,
    m0_after: M0,
    m2_after: M2,
    m3_after: M3,
    out: Out,
) -> bool {
    call_ensures(
        effect_mpmmppp_fact::<M0, P1, M2, M3, P4, P5, P6, Out, F>,
        (Ghost((f, m0, p1, m2, m3, p4, p5, p6, m0_after, m2_after, m3_after, out)),),
        (),
    )
}

/// What [`effect_mpmmppp`] says of `f`.
pub proof fn lemma_effect_mpmmppp<
    M0,
    P1,
    M2,
    M3,
    P4,
    P5,
    P6,
    Out,
    F: FnMut(&mut M0, P1, &mut M2, &mut M3, P4, P5, P6) -> Out,
>(
    f: F,
    m0: M0,
    p1: P1,
    m2: M2,
    m3: M3,
    p4: P4,
    p5: P5,
    p6: P6,
    m0_after: M0,
    m2_after: M2,
    m3_after: M3,
    out: Out,
)
    requires
        effect_mpmmppp(f, m0, p1, m2, m3, p4, p5, p6, m0_after, m2_after, m3_after, out),
    ensures
        exists|r0: &mut M0|
            *r0 == m0
                && *final(r0) == m0_after
                && exists|r2: &mut M2|
                    *r2 == m2
                        && *final(r2) == m2_after
                        && exists|r3: &mut M3|
                            *r3 == m3
                                && *final(r3) == m3_after
                                && call_ensures(f, (r0, p1, r2, r3, p4, p5, p6), out),
{
}

/// Carries the outcome of a call of `f` on two mutable references and five plain arguments.
pub fn effect_mpmpppp_fact<
    M0,
    P1,
    M2,
    P3,
    P4,
    P5,
    P6,
    Out,
    F: FnMut(&mut M0, P1, &mut M2, P3, P4, P5, P6) -> Out,
>(call: Ghost<(F, M0, P1, M2, P3, P4, P5, P6, M0, M2, Out)>)
    requires
        exists|r0: &mut M0|
            *r0 == call@.1
                && *final(r0) == call@.8
                && exists|r2: &mut M2|
                    *r2 == call@.3
                        && *final(r2) == call@.9
                        && call_ensures(
                            call@.0,
                            (r0, call@.2, r2, call@.4, call@.5, call@.6, call@.7),
                            call@.10,
                        ),
    ensures
        exists|r0: &mut M0|
            *r0 == call@.1
                && *final(r0) == call@.8
                && exists|r2: &mut M2|
                    *r2 == call@.3
                        && *final(r2) == call@.9
                        && call_ensures(
                            call@.0,
                            (r0, call@.2, r2, call@.4, call@.5, call@.6, call@.7),
                            call@.10,
                        ),
{
}

/// `f` may return `out` on two mutable references and five plain arguments,
/// and leave the referents at the given values.
pub open spec fn effect_mpmpppp<
    M0,
    P1,
    M2,
    P3,
    P4,
    P5,
    P6,
    Out,
    F: FnMut(&mut M0, P1, &mut M2, P3, P4, P5, P6) -> Out,
>(
    f: F,
    m0: M0,
    p1: P1,
    m2: M2,
    p3: P3,
    p4: P4,
    p5: P5,
    p6: P6,
    m0_after: M0,
    m2_after: M2,
    out: Out,
) -> bool {
    call_ensures(
        effect_mpmpppp_fact::<M0, P1, M2, P3, P4, P5, P6, Out, F>,
        (Ghost((f, m0, p1, m2, p3, p4, p5, p6, m0_after, m2_after, out)),),
        (),
    )
}

/// What [`effect_mpmpppp`] says of `f`.
pub proof fn lemma_effect_mpmpppp<
    M0,
    P1,
    M2,
    P3,
    P4,
    P5,
    P6,
    Out,
    F: FnMut(&mut M0, P1, &mut M2, P3, P4, P5, P6) -> Out,
>(
    f: F,
    m0: M0,
    p1: P1,
    m2: M2,
    p3: P3,
    p4: P4,
    p5: P5,
    p6: P6,
    m0_after: M0,
    m2_after: M2,
    out: Out,
)
    requires
        effect_mpmpppp(f, m0, p1, m2, p3, p4, p5, p6, m0_after, m2_after, out),
    ensures
        exists|r0: &mut M0|
            *r0 == m0
                && *final(r0) == m0_after
                && exists|r2: &mut M2|
                    *r2 == m2
                        && *final(r2) == m2_after
                        && call_ensures(f, (r0, p1, r2, p3, p4, p5, p6), out),
{
}

/// Carries the outcome of a call of `f` on two mutable references and five plain arguments.
pub fn effect_mppmppp_fact<
    M0,
    P1,
    P2,
    M3,
    P4,
    P5,
    P6,
    Out,
    F: FnMut(&mut M0, P1, P2, &mut M3, P4, P5, P6) -> Out,
>(call: Ghost<(F, M0, P1, P2, M3, P4, P5, P6, M0, M3, Out)>)
    requires
        exists|r0: &mut M0|
            *r0 == call@.1
                && *final(r0) == call@.8
                && exists|r3: &mut M3|
                    *r3 == call@.4
                        && *final(r3) == call@.9
                        && call_ensures(
                            call@.0,
                            (r0, call@.2, call@.3, r3, call@.5, call@.6, call@.7),
                            call@.10,
                        ),
    ensures
        exists|r0: &mut M0|
            *r0 == call@.1
                && *final(r0) == call@.8
                && exists|r3: &mut M3|
                    *r3 == call@.4
                        && *final(r3) == call@.9
                        && call_ensures(
                            call@.0,
                            (r0, call@.2, call@.3, r3, call@.5, call@.6, call@.7),
                            call@.10,
                        ),
{
}

/// `f` may return `out` on two mutable references and five plain arguments,
/// and leave the referents at the given values.
pub open spec fn effect_mppmppp<
    M0,
    P1,
    P2,
    M3,
    P4,
    P5,
    P6,
    Out,
    F: FnMut(&mut M0, P1, P2, &mut M3, P4, P5, P6) -> Out,
>(
    f: F,
    m0: M0,
    p1: P1,
    p2: P2,
    m3: M3,
    p4: P4,
    p5: P5,
    p6: P6,
    m0_after: M0,
    m3_after: M3,
    out: Out,
) -> bool {
    call_ensures(
        effect_mppmppp_fact::<M0, P1, P2, M3, P4, P5, P6, Out, F>,
        (Ghost((f, m0, p1, p2, m3, p4, p5, p6, m0_after, m3_after, out)),),
        (),
    )
}

/// What [`effect_mppmppp`] says of `f`.
pub proof fn lemma_effect_mppmppp<
    M0,
    P1,
    P2,
    M3,
    P4,
    P5,
    P6,
    Out,
    F: FnMut(&mut M0, P1, P2, &mut M3, P4, P5, P6) -> Out,
>(
    f: F,
    m0: M0,
    p1: P1,
    p2: P2,
    m3: M3,
    p4: P4,
    p5: P5,
    p6: P6,
    m0_after: M0,
    m3_after: M3,
    out: Out,
)
    requires
        effect_mppmppp(f, m0, p1, p2, m3, p4, p5, p6, m0_after, m3_after, out),
    ensures
        exists|r0: &mut M0|
            *r0 == m0
                && *final(r0) == m0_after
                && exists|r3: &mut M3|
                    *r3 == m3
                        && *final(r3) == m3_after
                        && call_ensures(f, (r0, p1, p2, r3, p4, p5, p6), out),
{
}

/// Carries the outcome of a call of `f` on a mutable reference and six plain arguments.
pub fn effect_mpppppp_fact<
    M0,
    P1,
    P2,
    P3,
    P4,
    P5,
    P6,
    Out,
    F: FnMut(&mut M0, P1, P2, P3, P4, P5, P6) -> Out,
>(call: Ghost<(F, M0, P1, P2, P3, P4, P5, P6, M0, Out)>)
    requires
        exists|r0: &mut M0|
            *r0 == call@.1
                && *final(r0) == call@.8
                && call_ensures(
                    call@.0,
                    (r0, call@.2, call@.3, call@.4, call@.5, call@.6, call@.7),
                    call@.9,
                ),
    ensures
        exists|r0: &mut M0|
            *r0 == call@.1
                && *final(r0) == call@.8
                && call_ensures(
                    call@.0,
                    (r0, call@.2, call@.3, call@.4, call@.5, call@.6, call@.7),
                    call@.9,
                ),
{
}

/// `f` may return `out` on a mutable reference and six plain arguments,
/// and leave the referents at the given values.
pub open spec fn effect_mpppppp<
    M0,
    P1,
    P2,
    P3,
    P4,
    P5,
    P6,
    Out,
    F: FnMut(&mut M0, P1, P2, P3, P4, P5, P6) -> Out,
>(f: F, m0: M0, p1: P1, p2: P2, p3: P3, p4: P4, p5: P5, p6: P6, m0_after: M0, out: Out) -> bool {
    call_ensures(
        effect_mpppppp_fact::<M0, P1, P2, P3, P4, P5, P6, Out, F>,
        (Ghost((f, m0, p1, p2, p3, p4, p5, p6, m0_after, out)),),
        (),
    )
}

/// What [`effect_mpppppp`] says of `f`.
pub proof fn lemma_effect_mpppppp<
    M0,
    P1,
    P2,
    P3,
    P4,
    P5,
    P6,
    Out,
    F: FnMut(&mut M0, P1, P2, P3, P4, P5, P6) -> Out,
>(f: F, m0: M0, p1: P1, p2: P2, p3: P3, p4: P4, p5: P5, p6: P6, m0_after: M0, out: Out)
    requires
        effect_mpppppp(f, m0, p1, p2, p3, p4, p5, p6, m0_after, out),
    ensures
        exists|r0: &mut M0|
            *r0 == m0
                && *final(r0) == m0_after
                && call_ensures(f, (r0, p1, p2, p3, p4, p5, p6), out),
{
}

/// Carries the outcome of a call of `f` on two mutable references and five plain arguments.
pub fn effect_pmmpppp_fact<
    P0,
    M1,
    M2,
    P3,
    P4,
    P5,
    P6,
    Out,
    F: FnMut(P0, &mut M1, &mut M2, P3, P4, P5, P6) -> Out,
>(call: Ghost<(F, P0, M1, M2, P3, P4, P5, P6, M1, M2, Out)>)
    requires
        exists|r1: &mut M1|
            *r1 == call@.2
                && *final(r1) == call@.8
                && exists|r2: &mut M2|
                    *r2 == call@.3
                        && *final(r2) == call@.9
                        && call_ensures(
                            call@.0,
                            (call@.1, r1, r2, call@.4, call@.5, call@.6, call@.7),
                            call@.10,
                        ),
    ensures
        exists|r1: &mut M1|
            *r1 == call@.2
                && *final(r1) == call@.8
                && exists|r2: &mut M2|
                    *r2 == call@.3
                        && *final(r2) == call@.9
                        && call_ensures(
                            call@.0,
                            (call@.1, r1, r2, call@.4, call@.5, call@.6, call@.7),
                            call@.10,
                        ),
{
}

/// `f` may return `out` on two mutable references and five plain arguments,
/// and leave the referents at the given values.
pub open spec fn effect_pmmpppp<
    P0,
    M1,
    M2,
    P3,
    P4,
    P5,
    P6,
    Out,
    F: FnMut(P0, &mut M1, &mut M2, P3, P4, P5, P6) -> Out,
>(
    f: F,
    p0: P0,
    m1: M1,
    m2: M2,
    p3: P3,
    p4: P4,
    p5: P5,
    p6: P6,
    m1_after: M1,
    m2_after: M2,
    out: Out,
) -> bool {
    call_ensures(
        effect_pmmpppp_fact::<P0, M1, M2, P3, P4, P5, P6, Out, F>,
        (Ghost((f, p0, m1, m2, p3, p4, p5, p6, m1_after, m2_after, out)),),
        (),
    )
}

/// What [`effect_pmmpppp`] says of `f`.
pub proof fn lemma_effect_pmmpppp<
    P0,
    M1,
    M2,
    P3,
    P4,
    P5,
    P6,
    Out,
    F: FnMut(P0, &mut M1, &mut M2, P3, P4, P5, P6) -> Out,
>(
    f: F,
    p0: P0,
    m1: M1,
    m2: M2,
    p3: P3,
    p4: P4,
    p5: P5,
    p6: P6,
    m1_after: M1,
    m2_after: M2,
    out: Out,
)
    requires
        effect_pmmpppp(f, p0, m1, m2, p3, p4, p5, p6, m1_after, m2_after, out),
    ensures
        exists|r1: &mut M1|
            *r1 == m1
                && *final(r1) == m1_after
                && exists|r2: &mut M2|
                    *r2 == m2
                        && *final(r2) == m2_after
                        && call_ensures(f, (p0, r1, r2, p3, p4, p5, p6), out),
{
}

/// Carries the outcome of a call of `f` on a mutable reference and six plain arguments.
pub fn effect_pmppppp_fact<
    P0,
    M1,
    P2,
    P3,
    P4,
    P5,
    P6,
    Out,
    F: FnMut(P0, &mut M1, P2, P3, P4, P5, P6) -> Out,
>(call: Ghost<(F, P0, M1, P2, P3, P4, P5, P6, M1, Out)>)
    requires
        exists|r1: &mut M1|
            *r1 == call@.2
                && *final(r1) == call@.8
                && call_ensures(
                    call@.0,
                    (call@.1, r1, call@.3, call@.4, call@.5, call@.6, call@.7),
                    call@.9,
                ),
    ensures
        exists|r1: &mut M1|
            *r1 == call@.2
                && *final(r1) == call@.8
                && call_ensures(
                    call@.0,
                    (call@.1, r1, call@.3, call@.4, call@.5, call@.6, call@.7),
                    call@.9,
                ),
{
}

/// `f` may return `out` on a mutable reference and six plain arguments,
/// and leave the referents at the given values.
pub open spec fn effect_pmppppp<
    P0,
    M1,
    P2,
    P3,
    P4,
    P5,
    P6,
    Out,
    F: FnMut(P0, &mut M1, P2, P3, P4, P5, P6) -> Out,
>(f: F, p0: P0, m1: M1, p2: P2, p3: P3, p4: P4, p5: P5, p6: P6, m1_after: M1, out: Out) -> bool {
    call_ensures(
        effect_pmppppp_fact::<P0, M1, P2, P3, P4, P5, P6, Out, F>,
        (Ghost((f, p0, m1, p2, p3, p4, p5, p6, m1_after, out)),),
        (),
    )
}

/// What [`effect_pmppppp`] says of `f`.
pub proof fn lemma_effect_pmppppp<
    P0,
    M1,
    P2,
    P3,
    P4,
    P5,
    P6,
    Out,
    F: FnMut(P0, &mut M1, P2, P3, P4, P5, P6) -> Out,
>(f: F, p0: P0, m1: M1, p2: P2, p3: P3, p4: P4, p5: P5, p6: P6, m1_after: M1, out: Out)
    requires
        effect_pmppppp(f, p0, m1, p2, p3, p4, p5, p6, m1_after, out),
    ensures
        exists|r1: &mut M1|
            *r1 == m1
                && *final(r1) == m1_after
                && call_ensures(f, (p0, r1, p2, p3, p4, p5, p6), out),
{
}

/// Carries the outcome of a call of `f` on a mutable reference and six plain arguments.
pub fn effect_ppmpppp_fact<
    P0,
    P1,
    M2,
    P3,
    P4,
    P5,
    P6,
    Out,
    F: FnMut(P0, P1, &mut M2, P3, P4, P5, P6) -> Out,
>(call: Ghost<(F, P0, P1, M2, P3, P4, P5, P6, M2, Out)>)
    requires
        exists|r2: &mut M2|
            *r2 == call@.3
                && *final(r2) == call@.8
                && call_ensures(
                    call@.0,
                    (call@.1, call@.2, r2, call@.4, call@.5, call@.6, call@.7),
                    call@.9,
                ),
    ensures
        exists|r2: &mut M2|
            *r2 == call@.3
                && *final(r2) == call@.8
                && call_ensures(
                    call@.0,
                    (call@.1, call@.2, r2, call@.4, call@.5, call@.6, call@.7),
                    call@.9,
                ),
{
}

/// `f` may return `out` on a mutable reference and six plain arguments,
/// and leave the referents at the given values.
pub open spec fn effect_ppmpppp<
    P0,
    P1,
    M2,
    P3,
    P4,
    P5,
    P6,
    Out,
    F: FnMut(P0, P1, &mut M2, P3, P4, P5, P6) -> Out,
>(f: F, p0: P0, p1: P1, m2: M2, p3: P3, p4: P4, p5: P5, p6: P6, m2_after: M2, out: Out) -> bool {
    call_ensures(
        effect_ppmpppp_fact::<P0, P1, M2, P3, P4, P5, P6, Out, F>,
        (Ghost((f, p0, p1, m2, p3, p4, p5, p6, m2_after, out)),),
        (),
    )
}

/// What [`effect_ppmpppp`] says of `f`.
pub proof fn lemma_effect_ppmpppp<
    P0,
    P1,
    M2,
    P3,
    P4,
    P5,
    P6,
    Out,
    F: FnMut(P0, P1, &mut M2, P3, P4, P5, P6) -> Out,
>(f: F, p0: P0, p1: P1, m2: M2, p3: P3, p4: P4, p5: P5, p6: P6, m2_after: M2, out: Out)
    requires
        effect_ppmpppp(f, p0, p1, m2, p3, p4, p5, p6, m2_after, out),
    ensures
        exists|r2: &mut M2|
            *r2 == m2
                && *final(r2) == m2_after
                && call_ensures(f, (p0, p1, r2, p3, p4, p5, p6), out),
{
}

/// Carries the outcome of a call of `f` on four mutable references and four plain arguments.
pub fn effect_mmmmpppp_fact<
    M0,
    M1,
    M2,
    M3,
    P4,
    P5,
    P6,
    P7,
    Out,
    F: FnMut(&mut M0, &mut M1, &mut M2, &mut M3, P4, P5, P6, P7) -> Out,
>(call: Ghost<(F, M0, M1, M2, M3, P4, P5, P6, P7, M0, M1, M2, M3, Out)>)
    requires
        exists|r0: &mut M0|
            *r0 == call@.1
                && *final(r0) == call@.9
                && exists|r1: &mut M1|
                    *r1 == call@.2
                        && *final(r1) == call@.10
                        && exists|r2: &mut M2|
                            *r2 == call@.3
                                && *final(r2) == call@.11
                                && exists|r3: &mut M3|
                                    *r3 == call@.4
                                        && *final(r3) == call@.12
                                        && call_ensures(
                                            call@.0,
                                            (r0, r1, r2, r3, call@.5, call@.6, call@.7, call@.8),
                                            call@.13,
                                        ),
    ensures
        exists|r0: &mut M0|
            *r0 == call@.1
                && *final(r0) == call@.9
                && exists|r1: &mut M1|
                    *r1 == call@.2
                        && *final(r1) == call@.10
                        && exists|r2: &mut M2|
                            *r2 == call@.3
                                && *final(r2) == call@.11
                                && exists|r3: &mut M3|
                                    *r3 == call@.4
                                        && *final(r3) == call@.12
                                        && call_ensures(
                                            call@.0,
                                            (r0, r1, r2, r3, call@.5, call@.6, call@.7, call@.8),
                                            call@.13,
                                        ),
{
}

/// `f` may return `out` on four mutable references and four plain arguments,
/// and leave the referents at the given values.
pub open spec fn effect_mmmmpppp<
    M0,
    M1,
    M2,
    M3,
    P4,
    P5,
    P6,
    P7,
    Out,
    F: FnMut(&mut M0, &mut M1, &mut M2, &mut M3, P4, P5, P6, P7) -> Out,
>(
    f: F,
    m0: M0,
    m1: M1,
    m2: M2,
    m3: M3,
    p4: P4,
    p5: P5,
    p6: P6,
    p7: P7,
    m0_after: M0,
    m1_after: M1,
    m2_after: M2,
    m3_after: M3,
    out: Out,
) -> bool {
    call_ensures(
        effect_mmmmpppp_fact::<M0, M1, M2, M3, P4, P5, P6, P7, Out, F>,
        (Ghost((f, m0, m1, m2, m3, p4, p5, p6, p7, m0_after, m1_after, m2_after, m3_after, out)),),
        (),
    )
}

/// What [`effect_mmmmpppp`] says of `f`.
pub proof fn lemma_effect_mmmmpppp<
    M0,
    M1,
    M2,
    M3,
    P4,
    P5,
    P6,
    P7,
    Out,
    F: FnMut(&mut M0, &mut M1, &mut M2, &mut M3, P4, P5, P6, P7) -> Out,
>(
    f: F,
    m0: M0,
    m1: M1,
    m2: M2,
    m3: M3,
    p4: P4,
    p5: P5,
    p6: P6,
    p7: P7,
    m0_after: M0,
    m1_after: M1,
    m2_after: M2,
    m3_after: M3,
    out: Out,
)
    requires
        effect_mmmmpppp(
            f,
            m0,
            m1,
            m2,
            m3,
            p4,
            p5,
            p6,
            p7,
            m0_after,
            m1_after,
            m2_after,
            m3_after,
            out,
        ),
    ensures
        exists|r0: &mut M0|
            *r0 == m0
                && *final(r0) == m0_after
                && exists|r1: &mut M1|
                    *r1 == m1
                        && *final(r1) == m1_after
                        && exists|r2: &mut M2|
                            *r2 == m2
                                && *final(r2) == m2_after
                                && exists|r3: &mut M3|
                                    *r3 == m3
                                        && *final(r3) == m3_after
                                        && call_ensures(f, (r0, r1, r2, r3, p4, p5, p6, p7), out),
{
}

/// Carries the outcome of a call of `f` on three mutable references and five plain arguments.
pub fn effect_mmmppppp_fact<
    M0,
    M1,
    M2,
    P3,
    P4,
    P5,
    P6,
    P7,
    Out,
    F: FnMut(&mut M0, &mut M1, &mut M2, P3, P4, P5, P6, P7) -> Out,
>(call: Ghost<(F, M0, M1, M2, P3, P4, P5, P6, P7, M0, M1, M2, Out)>)
    requires
        exists|r0: &mut M0|
            *r0 == call@.1
                && *final(r0) == call@.9
                && exists|r1: &mut M1|
                    *r1 == call@.2
                        && *final(r1) == call@.10
                        && exists|r2: &mut M2|
                            *r2 == call@.3
                                && *final(r2) == call@.11
                                && call_ensures(
                                    call@.0,
                                    (r0, r1, r2, call@.4, call@.5, call@.6, call@.7, call@.8),
                                    call@.12,
                                ),
    ensures
        exists|r0: &mut M0|
            *r0 == call@.1
                && *final(r0) == call@.9
                && exists|r1: &mut M1|
                    *r1 == call@.2
                        && *final(r1) == call@.10
                        && exists|r2: &mut M2|
                            *r2 == call@.3
                                && *final(r2) == call@.11
                                && call_ensures(
                                    call@.0,
                                    (r0, r1, r2, call@.4, call@.5, call@.6, call@.7, call@.8),
                                    call@.12,
                                ),
{
}

/// `f` may return `out` on three mutable references and five plain arguments,
/// and leave the referents at the given values.
pub open spec fn effect_mmmppppp<
    M0,
    M1,
    M2,
    P3,
    P4,
    P5,
    P6,
    P7,
    Out,
    F: FnMut(&mut M0, &mut M1, &mut M2, P3, P4, P5, P6, P7) -> Out,
>(
    f: F,
    m0: M0,
    m1: M1,
    m2: M2,
    p3: P3,
    p4: P4,
    p5: P5,
    p6: P6,
    p7: P7,
    m0_after: M0,
    m1_after: M1,
    m2_after: M2,
    out: Out,
) -> bool {
    call_ensures(
        effect_mmmppppp_fact::<M0, M1, M2, P3, P4, P5, P6, P7, Out, F>,
        (Ghost((f, m0, m1, m2, p3, p4, p5, p6, p7, m0_after, m1_after, m2_after, out)),),
        (),
    )
}

/// What [`effect_mmmppppp`] says of `f`.
pub proof fn lemma_effect_mmmppppp<
    M0,
    M1,
    M2,
    P3,
    P4,
    P5,
    P6,
    P7,
    Out,
    F: FnMut(&mut M0, &mut M1, &mut M2, P3, P4, P5, P6, P7) -> Out,
>(
    f: F,
    m0: M0,
    m1: M1,
    m2: M2,
    p3: P3,
    p4: P4,
    p5: P5,
    p6: P6,
    p7: P7,
    m0_after: M0,
    m1_after: M1,
    m2_after: M2,
    out: Out,
)
    requires
        effect_mmmppppp(f, m0, m1, m2, p3, p4, p5, p6, p7, m0_after, m1_after, m2_after, out),
    ensures
        exists|r0: &mut M0|
            *r0 == m0
                && *final(r0) == m0_after
                && exists|r1: &mut M1|
                    *r1 == m1
                        && *final(r1) == m1_after
                        && exists|r2: &mut M2|
                            *r2 == m2
                                && *final(r2) == m2_after
                                && call_ensures(f, (r0, r1, r2, p3, p4, p5, p6, p7), out),
{
}

/// Carries the outcome of a call of `f` on three mutable references and five plain arguments.
pub fn effect_mmpmpppp_fact<
    M0,
    M1,
    P2,
    M3,
    P4,
    P5,
    P6,
    P7,
    Out,
    F: FnMut(&mut M0, &mut M1, P2, &mut M3, P4, P5, P6, P7) -> Out,
>(call: Ghost<(F, M0, M1, P2, M3, P4, P5, P6, P7, M0, M1, M3, Out)>)
    requires
        exists|r0: &mut M0|
            *r0 == call@.1
                && *final(r0) == call@.9
                && exists|r1: &mut M1|
                    *r1 == call@.2
                        && *final(r1) == call@.10
                        && exists|r3: &mut M3|
                            *r3 == call@.4
                                && *final(r3) == call@.11
                                && call_ensures(
                                    call@.0,
                                    (r0, r1, call@.3, r3, call@.5, call@.6, call@.7, call@.8),
                                    call@.12,
                                ),
    ensures
        exists|r0: &mut M0|
            *r0 == call@.1
                && *final(r0) == call@.9
                && exists|r1: &mut M1|
                    *r1 == call@.2
                        && *final(r1) == call@.10
                        && exists|r3: &mut M3|
                            *r3 == call@.4
                                && *final(r3) == call@.11
                                && call_ensures(
                                    call@.0,
                                    (r0, r1, call@.3, r3, call@.5, call@.6, call@.7, call@.8),
                                    call@.12,
                                ),
{
}

/// `f` may return `out` on three mutable references and five plain arguments,
/// and leave the referents at the given values.
pub open spec fn effect_mmpmpppp<
    M0,
    M1,
    P2,
    M3,
    P4,
    P5,
    P6,
    P7,
    Out,
    F: FnMut(&mut M0, &mut M1, P2, &mut M3, P4, P5, P6, P7) -> Out,
>(
    f: F,
    m0: M0,
    m1: M1,
    p2: P2,
    m3: M3,
    p4: P4,
    p5: P5,
    p6: P6,
    p7: P7,
    m0_after: M0,
    m1_after: M1,
    m3_after: M3,
    out: Out,
) -> bool {
    call_ensures(
        effect_mmpmpppp_fact::<M0, M1, P2, M3, P4, P5, P6, P7, Out, F>,
        (Ghost((f, m0, m1, p2, m3, p4, p5, p6, p7, m0_after, m1_after, m3_after, out)),),
        (),
    )
}

/// What [`effect_mmpmpppp`] says of `f`.
pub proof fn lemma_effect_mmpmpppp<
    M0,
    M1,
    P2,
    M3,
    P4,
    P5,
    P6,
    P7,
    Out,
    F: FnMut(&mut M0, &mut M1, P2, &mut M3, P4, P5, P6, P7) -> Out,
>(
    f: F,
    m0: M0,
    m1: M1,
    p2: P2,
    m3: M3,
    p4: P4,
    p5: P5,
    p6: P6,
    p7: P7,
    m0_after: M0,
    m1_after: M1,
    m3_after: M3,
    out: Out,
)
    requires
        effect_mmpmpppp(f, m0, m1, p2, m3, p4, p5, p6, p7, m0_after, m1_after, m3_after, out),
    ensures
        exists|r0: &mut M0|
            *r0 == m0
                && *final(r0) == m0_after
                && exists|r1: &mut M1|
                    *r1 == m1
                        && *final(r1) == m1_after
                        && exists|r3: &mut M3|
                            *r3 == m3
                                && *final(r3) == m3_after
                                && call_ensures(f, (r0, r1, p2, r3, p4, p5, p6, p7), out),
{
}

/// Carries the outcome of a call of `f` on two mutable references and six plain arguments.
pub fn effect_mmpppppp_fact<
    M0,
    M1,
    P2,
    P3,
    P4,
    P5,
    P6,
    P7,
    Out,
    F: FnMut(&mut M0, &mut M1, P2, P3, P4, P5, P6, P7) -> Out,
>(call: Ghost<(F, M0, M1, P2, P3, P4, P5, P6, P7, M0, M1, Out)>)
    requires
        exists|r0: &mut M0|
            *r0 == call@.1
                && *final(r0) == call@.9
                && exists|r1: &mut M1|
                    *r1 == call@.2
                        && *final(r1) == call@.10
                        && call_ensures(
                            call@.0,
                            (r0, r1, call@.3, call@.4, call@.5, call@.6, call@.7, call@.8),
                            call@.11,
                        ),
    ensures
        exists|r0: &mut M0|
            *r0 == call@.1
                && *final(r0) == call@.9
                && exists|r1: &mut M1|
                    *r1 == call@.2
                        && *final(r1) == call@.10
                        && call_ensures(
                            call@.0,
                            (r0, r1, call@.3, call@.4, call@.5, call@.6, call@.7, call@.8),
                            call@.11,
                        ),
{
}

/// `f` may return `out` on two mutable references and six plain arguments,
/// and leave the referents at the given values.
pub open spec fn effect_mmpppppp<
    M0,
    M1,
    P2,
    P3,
    P4,
    P5,
    P6,
    P7,
    Out,
    F: FnMut(&mut M0, &mut M1, P2, P3, P4, P5, P6, P7) -> Out,
>(
    f: F,
    m0: M0,
    m1: M1,
    p2: P2,
    p3: P3,
    p4: P4,
    p5: P5,
    p6: P6,
    p7: P7,
    m0_after: M0,
    m1_after: M1,
    out: Out,
) -> bool {
    call_ensures(
        effect_mmpppppp_fact::<M0, M1, P2, P3, P4, P5, P6, P7, Out, F>,
        (Ghost((f, m0, m1, p2, p3, p4, p5, p6, p7, m0_after, m1_after, out)),),
        (),
    )
}

/// What [`effect_mmpppppp`] says of `f`.
pub proof fn lemma_effect_mmpppppp<
    M0,
    M1,
    P2,
    P3,
    P4,
    P5,
    P6,
    P7,
    Out,
    F: FnMut(&mut M0, &mut M1, P2, P3, P4, P5, P6, P7) -> Out,
>(
    f: F,
    m0: M0,
    m1: M1,
    p2: P2,
    p3: P3,
    p4: P4,
    p5: P5,
    p6: P6,
    p7: P7,
    m0_after: M0,
    m1_after: M1,
    out: Out,
)
    requires
        effect_mmpppppp(f, m0, m1, p2, p3, p4, p5, p6, p7, m0_after, m1_after, out),
    ensures
        exists|r0: &mut M0|
            *r0 == m0
                && *final(r0) == m0_after
                && exists|r1: &mut M1|
                    *r1 == m1
                        && *final(r1) == m1_after
                        && call_ensures(f, (r0, r1, p2, p3, p4, p5, p6, p7), out),
{
}

/// Carries the outcome of a call of `f` on three mutable references and five plain arguments.
pub fn effect_mpmmpppp_fact<
    M0,
    P1,
    M2,
    M3,
    P4,
    P5,
    P6,
    P7,
    Out,
    F: FnMut(&mut M0, P1, &mut M2, &mut M3, P4, P5, P6, P7) -> Out,
>(call: Ghost<(F, M0, P1, M2, M3, P4, P5, P6, P7, M0, M2, M3, Out)>)
    requires
        exists|r0: &mut M0|
            *r0 == call@.1
                && *final(r0) == call@.9
                && exists|r2: &mut M2|
                    *r2 == call@.3
                        && *final(r2) == call@.10
                        && exists|r3: &mut M3|
                            *r3 == call@.4
                                && *final(r3) == call@.11
                                && call_ensures(
                                    call@.0,
                                    (r0, call@.2, r2, r3, call@.5, call@.6, call@.7, call@.8),
                                    call@.12,
                                ),
    ensures
        exists|r0: &mut M0|
            *r0 == call@.1
                && *final(r0) == call@.9
                && exists|r2: &mut M2|
                    *r2 == call@.3
                        && *final(r2) == call@.10
                        && exists|r3: &mut M3|
                            *r3 == call@.4
                                && *final(r3) == call@.11
                                && call_ensures(
                                    call@.0,
                                    (r0, call@.2, r2, r3, call@.5, call@.6, call@.7, call@.8),
                                    call@.12,
                                ),
{
}

/// `f` may return `out` on three mutable references and five plain arguments,
/// and leave the referents at the given values.
pub open spec fn effect_mpmmpppp<
    M0,
    P1,
    M2,
    M3,
    P4,
    P5,
    P6,
    P7,
    Out,
    F: FnMut(&mut M0, P1, &mut M2, &mut M3, P4, P5, P6, P7) -> Out,
>(
    f: F,
    m0: M0,
    p1: P1,
    m2: M2,
    m3: M3,
    p4: P4,
    p5: P5,
    p6: P6,
    p7: P7,
    m0_after: M0,
    m2_after: M2,
    m3_after: M3,
    out: Out,
) -> bool {
    call_ensures(
        effect_mpmmpppp_fact::<M0, P1, M2, M3, P4, P5, P6, P7, Out, F>,
        (Ghost((f, m0, p1, m2, m3, p4, p5, p6, p7, m0_after, m2_after, m3_after, out)),),
        (),
    )
}

/// What [`effect_mpmmpppp`] says of `f`.
pub proof fn lemma_effect_mpmmpppp<
    M0,
    P1,
    M2,
    M3,
    P4,
    P5,
    P6,
    P7,
    Out,
    F: FnMut(&mut M0, P1, &mut M2, &mut M3, P4, P5, P6, P7) -> Out,
>(
    f: F,
    m0: M0,
    p1: P1,
    m2: M2,
    m3: M3,
    p4: P4,
    p5: P5,
    p6: P6,
    p7: P7,
    m0_after: M0,
    m2_after: M2,
    m3_after: M3,
    out: Out,
)
    requires
        effect_mpmmpppp(f, m0, p1, m2, m3, p4, p5, p6, p7, m0_after, m2_after, m3_after, out),
    ensures
        exists|r0: &mut M0|
            *r0 == m0
                && *final(r0) == m0_after
                && exists|r2: &mut M2|
                    *r2 == m2
                        && *final(r2) == m2_after
                        && exists|r3: &mut M3|
                            *r3 == m3
                                && *final(r3) == m3_after
                                && call_ensures(f, (r0, p1, r2, r3, p4, p5, p6, p7), out),
{
}

/// Carries the outcome of a call of `f` on two mutable references and six plain arguments.
pub fn effect_mpmppppp_fact<
    M0,
    P1,
    M2,
    P3,
    P4,
    P5,
    P6,
    P7,
    Out,
    F: FnMut(&mut M0, P1, &mut M2, P3, P4, P5, P6, P7) -> Out,
>(call: Ghost<(F, M0, P1, M2, P3, P4, P5, P6, P7, M0, M2, Out)>)
    requires
        exists|r0: &mut M0|
            *r0 == call@.1
                && *final(r0) == call@.9
                && exists|r2: &mut M2|
                    *r2 == call@.3
                        && *final(r2) == call@.10
                        && call_ensures(
                            call@.0,
                            (r0, call@.2, r2, call@.4, call@.5, call@.6, call@.7, call@.8),
                            call@.11,
                        ),
    ensures
        exists|r0: &mut M0|
            *r0 == call@.1
                && *final(r0) == call@.9
                && exists|r2: &mut M2|
                    *r2 == call@.3
                        && *final(r2) == call@.10
                        && call_ensures(
                            call@.0,
                            (r0, call@.2, r2, call@.4, call@.5, call@.6, call@.7, call@.8),
                            call@.11,
                        ),
{
}

/// `f` may return `out` on two mutable references and six plain arguments,
/// and leave the referents at the given values.
pub open spec fn effect_mpmppppp<
    M0,
    P1,
    M2,
    P3,
    P4,
    P5,
    P6,
    P7,
    Out,
    F: FnMut(&mut M0, P1, &mut M2, P3, P4, P5, P6, P7) -> Out,
>(
    f: F,
    m0: M0,
    p1: P1,
    m2: M2,
    p3: P3,
    p4: P4,
    p5: P5,
    p6: P6,
    p7: P7,
    m0_after: M0,
    m2_after: M2,
    out: Out,
) -> bool {
    call_ensures(
        effect_mpmppppp_fact::<M0, P1, M2, P3, P4, P5, P6, P7, Out, F>,
        (Ghost((f, m0, p1, m2, p3, p4, p5, p6, p7, m0_after, m2_after, out)),),
        (),
    )
}

/// What [`effect_mpmppppp`] says of `f`.
pub proof fn lemma_effect_mpmppppp<
    M0,
    P1,
    M2,
    P3,
    P4,
    P5,
    P6,
    P7,
    Out,
    F: FnMut(&mut M0, P1, &mut M2, P3, P4, P5, P6, P7) -> Out,
>(
    f: F,
    m0: M0,
    p1: P1,
    m2: M2,
    p3: P3,
    p4: P4,
    p5: P5,
    p6: P6,
    p7: P7,
    m0_after: M0,
    m2_after: M2,
    out: Out,
)
    requires
        effect_mpmppppp(f, m0, p1, m2, p3, p4, p5, p6, p7, m0_after, m2_after, out),
    ensures
        exists|r0: &mut M0|
            *r0 == m0
                && *final(r0) == m0_after
                && exists|r2: &mut M2|
                    *r2 == m2
                        && *final(r2) == m2_after
                        && call_ensures(f, (r0, p1, r2, p3, p4, p5, p6, p7), out),
{
}

/// Carries the outcome of a call of `f` on two mutable references and six plain arguments.
pub fn effect_mppmpppp_fact<
    M0,
    P1,
    P2,
    M3,
    P4,
    P5,
    P6,
    P7,
    Out,
    F: FnMut(&mut M0, P1, P2, &mut M3, P4, P5, P6, P7) -> Out,
>(call: Ghost<(F, M0, P1, P2, M3, P4, P5, P6, P7, M0, M3, Out)>)
    requires
        exists|r0: &mut M0|
            *r0 == call@.1
                && *final(r0) == call@.9
                && exists|r3: &mut M3|
                    *r3 == call@.4
                        && *final(r3) == call@.10
                        && call_ensures(
                            call@.0,
                            (r0, call@.2, call@.3, r3, call@.5, call@.6, call@.7, call@.8),
                            call@.11,
                        ),
    ensures
        exists|r0: &mut M0|
            *r0 == call@.1
                && *final(r0) == call@.9
                && exists|r3: &mut M3|
                    *r3 == call@.4
                        && *final(r3) == call@.10
                        && call_ensures(
                            call@.0,
                            (r0, call@.2, call@.3, r3, call@.5, call@.6, call@.7, call@.8),
                            call@.11,
                        ),
{
}

/// `f` may return `out` on two mutable references and six plain arguments,
/// and leave the referents at the given values.
pub open spec fn effect_mppmpppp<
    M0,
    P1,
    P2,
    M3,
    P4,
    P5,
    P6,
    P7,
    Out,
    F: FnMut(&mut M0, P1, P2, &mut M3, P4, P5, P6, P7) -> Out,
>(
    f: F,
    m0: M0,
    p1: P1,
    p2: P2,
    m3: M3,
    p4: P4,
    p5: P5,
    p6: P6,
    p7: P7,
    m0_after: M0,
    m3_after: M3,
    out: Out,
) -> bool {
    call_ensures(
        effect_mppmpppp_fact::<M0, P1, P2, M3, P4, P5, P6, P7, Out, F>,
        (Ghost((f, m0, p1, p2, m3, p4, p5, p6, p7, m0_after, m3_after, out)),),
        (),
    )
}

/// What [`effect_mppmpppp`] says of `f`.
pub proof fn lemma_effect_mppmpppp<
    M0,
    P1,
    P2,
    M3,
    P4,
    P5,
    P6,
    P7,
    Out,
    F: FnMut(&mut M0, P1, P2, &mut M3, P4, P5, P6, P7) -> Out,
>(
    f: F,
    m0: M0,
    p1: P1,
    p2: P2,
    m3: M3,
    p4: P4,
    p5: P5,
    p6: P6,
    p7: P7,
    m0_after: M0,
    m3_after: M3,
    out: Out,
)
    requires
        effect_mppmpppp(f, m0, p1, p2, m3, p4, p5, p6, p7, m0_after, m3_after, out),
    ensures
        exists|r0: &mut M0|
            *r0 == m0
                && *final(r0) == m0_after
                && exists|r3: &mut M3|
                    *r3 == m3
                        && *final(r3) == m3_after
                        && call_ensures(f, (r0, p1, p2, r3, p4, p5, p6, p7), out),
{
}

/// Carries the outcome of a call of `f` on a mutable reference and seven plain arguments.
pub fn effect_mppppppp_fact<
    M0,
    P1,
    P2,
    P3,
    P4,
    P5,
    P6,
    P7,
    Out,
    F: FnMut(&mut M0, P1, P2, P3, P4, P5, P6, P7) -> Out,
>(call: Ghost<(F, M0, P1, P2, P3, P4, P5, P6, P7, M0, Out)>)
    requires
        exists|r0: &mut M0|
            *r0 == call@.1
                && *final(r0) == call@.9
                && call_ensures(
                    call@.0,
                    (r0, call@.2, call@.3, call@.4, call@.5, call@.6, call@.7, call@.8),
                    call@.10,
                ),
    ensures
        exists|r0: &mut M0|
            *r0 == call@.1
                && *final(r0) == call@.9
                && call_ensures(
                    call@.0,
                    (r0, call@.2, call@.3, call@.4, call@.5, call@.6, call@.7, call@.8),
                    call@.10,
                ),
{
}

/// `f` may return `out` on a mutable reference and seven plain arguments,
/// and leave the referents at the given values.
pub open spec fn effect_mppppppp<
    M0,
    P1,
    P2,
    P3,
    P4,
    P5,
    P6,
    P7,
    Out,
    F: FnMut(&mut M0, P1, P2, P3, P4, P5, P6, P7) -> Out,
>(
    f: F,
    m0: M0,
    p1: P1,
    p2: P2,
    p3: P3,
    p4: P4,
    p5: P5,
    p6: P6,
    p7: P7,
    m0_after: M0,
    out: Out,
) -> bool {
    call_ensures(
        effect_mppppppp_fact::<M0, P1, P2, P3, P4, P5, P6, P7, Out, F>,
        (Ghost((f, m0, p1, p2, p3, p4, p5, p6, p7, m0_after, out)),),
        (),
    )
}

/// What [`effect_mppppppp`] says of `f`.
pub proof fn lemma_effect_mppppppp<
    M0,
    P1,
    P2,
    P3,
    P4,
    P5,
    P6,
    P7,
    Out,
    F: FnMut(&mut M0, P1, P2, P3, P4, P5, P6, P7) -> Out,
>(f: F, m0: M0, p1: P1, p2: P2, p3: P3, p4: P4, p5: P5, p6: P6, p7: P7, m0_after: M0, out: Out)
    requires
        effect_mppppppp(f, m0, p1, p2, p3, p4, p5, p6, p7, m0_after, out),
    ensures
        exists|r0: &mut M0|
            *r0 == m0
                && *final(r0) == m0_after
                && call_ensures(f, (r0, p1, p2, p3, p4, p5, p6, p7), out),
{
}

/// Carries the outcome of a call of `f` on two mutable references and six plain arguments.
pub fn effect_pmmppppp_fact<
    P0,
    M1,
    M2,
    P3,
    P4,
    P5,
    P6,
    P7,
    Out,
    F: FnMut(P0, &mut M1, &mut M2, P3, P4, P5, P6, P7) -> Out,
>(call: Ghost<(F, P0, M1, M2, P3, P4, P5, P6, P7, M1, M2, Out)>)
    requires
        exists|r1: &mut M1|
            *r1 == call@.2
                && *final(r1) == call@.9
                && exists|r2: &mut M2|
                    *r2 == call@.3
                        && *final(r2) == call@.10
                        && call_ensures(
                            call@.0,
                            (call@.1, r1, r2, call@.4, call@.5, call@.6, call@.7, call@.8),
                            call@.11,
                        ),
    ensures
        exists|r1: &mut M1|
            *r1 == call@.2
                && *final(r1) == call@.9
                && exists|r2: &mut M2|
                    *r2 == call@.3
                        && *final(r2) == call@.10
                        && call_ensures(
                            call@.0,
                            (call@.1, r1, r2, call@.4, call@.5, call@.6, call@.7, call@.8),
                            call@.11,
                        ),
{
}

/// `f` may return `out` on two mutable references and six plain arguments,
/// and leave the referents at the given values.
pub open spec fn effect_pmmppppp<
    P0,
    M1,
    M2,
    P3,
    P4,
    P5,
    P6,
    P7,
    Out,
    F: FnMut(P0, &mut M1, &mut M2, P3, P4, P5, P6, P7) -> Out,
>(
    f: F,
    p0: P0,
    m1: M1,
    m2: M2,
    p3: P3,
    p4: P4,
    p5: P5,
    p6: P6,
    p7: P7,
    m1_after: M1,
    m2_after: M2,
    out: Out,
) -> bool {
    call_ensures(
        effect_pmmppppp_fact::<P0, M1, M2, P3, P4, P5, P6, P7, Out, F>,
        (Ghost((f, p0, m1, m2, p3, p4, p5, p6, p7, m1_after, m2_after, out)),),
        (),
    )
}

/// What [`effect_pmmppppp`] says of `f`.
pub proof fn lemma_effect_pmmppppp<
    P0,
    M1,
    M2,
    P3,
    P4,
    P5,
    P6,
    P7,
    Out,
    F: FnMut(P0, &mut M1, &mut M2, P3, P4, P5, P6, P7) -> Out,
>(
    f: F,
    p0: P0,
    m1: M1,
    m2: M2,
    p3: P3,
    p4: P4,
    p5: P5,
    p6: P6,
    p7: P7,
    m1_after: M1,
    m2_after: M2,
    out: Out,
)
    requires
        effect_pmmppppp(f, p0, m1, m2, p3, p4, p5, p6, p7, m1_after, m2_after, out),
    ensures
        exists|r1: &mut M1|
            *r1 == m1
                && *final(r1) == m1_after
                && exists|r2: &mut M2|
                    *r2 == m2
                        && *final(r2) == m2_after
                        && call_ensures(f, (p0, r1, r2, p3, p4, p5, p6, p7), out),
{
}

/// Carries the outcome of a call of `f` on a mutable reference and seven plain arguments.
pub fn effect_pmpppppp_fact<
    P0,
    M1,
    P2,
    P3,
    P4,
    P5,
    P6,
    P7,
    Out,
    F: FnMut(P0, &mut M1, P2, P3, P4, P5, P6, P7) -> Out,
>(call: Ghost<(F, P0, M1, P2, P3, P4, P5, P6, P7, M1, Out)>)
    requires
        exists|r1: &mut M1|
            *r1 == call@.2
                && *final(r1) == call@.9
                && call_ensures(
                    call@.0,
                    (call@.1, r1, call@.3, call@.4, call@.5, call@.6, call@.7, call@.8),
                    call@.10,
                ),
    ensures
        exists|r1: &mut M1|
            *r1 == call@.2
                && *final(r1) == call@.9
                && call_ensures(
                    call@.0,
                    (call@.1, r1, call@.3, call@.4, call@.5, call@.6, call@.7, call@.8),
                    call@.10,
                ),
{
}

/// `f` may return `out` on a mutable reference and seven plain arguments,
/// and leave the referents at the given values.
pub open spec fn effect_pmpppppp<
    P0,
    M1,
    P2,
    P3,
    P4,
    P5,
    P6,
    P7,
    Out,
    F: FnMut(P0, &mut M1, P2, P3, P4, P5, P6, P7) -> Out,
>(
    f: F,
    p0: P0,
    m1: M1,
    p2: P2,
    p3: P3,
    p4: P4,
    p5: P5,
    p6: P6,
    p7: P7,
    m1_after: M1,
    out: Out,
) -> bool {
    call_ensures(
        effect_pmpppppp_fact::<P0, M1, P2, P3, P4, P5, P6, P7, Out, F>,
        (Ghost((f, p0, m1, p2, p3, p4, p5, p6, p7, m1_after, out)),),
        (),
    )
}

/// What [`effect_pmpppppp`] says of `f`.
pub proof fn lemma_effect_pmpppppp<
    P0,
    M1,
    P2,
    P3,
    P4,
    P5,
    P6,
    P7,
    Out,
    F: FnMut(P0, &mut M1, P2, P3, P4, P5, P6, P7) -> Out,
>(f: F, p0: P0, m1: M1, p2: P2, p3: P3, p4: P4, p5: P5, p6: P6, p7: P7, m1_after: M1, out: Out)
    requires
        effect_pmpppppp(f, p0, m1, p2, p3, p4, p5, p6, p7, m1_after, out),
    ensures
        exists|r1: &mut M1|
            *r1 == m1
                && *final(r1) == m1_after
                && call_ensures(f, (p0, r1, p2, p3, p4, p5, p6, p7), out),
{
}

/// Carries the outcome of a call of `f` on a mutable reference and seven plain arguments.
pub fn effect_ppmppppp_fact<
    P0,
    P1,
    M2,
    P3,
    P4,
    P5,
    P6,
    P7,
    Out,
    F: FnMut(P0, P1, &mut M2, P3, P4, P5, P6, P7) -> Out,
>(call: Ghost<(F, P0, P1, M2, P3, P4, P5, P6, P7, M2, Out)>)
    requires
        exists|r2: &mut M2|
            *r2 == call@.3
                && *final(r2) == call@.9
                && call_ensures(
                    call@.0,
                    (call@.1, call@.2, r2, call@.4, call@.5, call@.6, call@.7, call@.8),
                    call@.10,
                ),
    ensures
        exists|r2: &mut M2|
            *r2 == call@.3
                && *final(r2) == call@.9
                && call_ensures(
                    call@.0,
                    (call@.1, call@.2, r2, call@.4, call@.5, call@.6, call@.7, call@.8),
                    call@.10,
                ),
{
}

/// `f` may return `out` on a mutable reference and seven plain arguments,
/// and leave the referents at the given values.
pub open spec fn effect_ppmppppp<
    P0,
    P1,
    M2,
    P3,
    P4,
    P5,
    P6,
    P7,
    Out,
    F: FnMut(P0, P1, &mut M2, P3, P4, P5, P6, P7) -> Out,
>(
    f: F,
    p0: P0,
    p1: P1,
    m2: M2,
    p3: P3,
    p4: P4,
    p5: P5,
    p6: P6,
    p7: P7,
    m2_after: M2,
    out: Out,
) -> bool {
    call_ensures(
        effect_ppmppppp_fact::<P0, P1, M2, P3, P4, P5, P6, P7, Out, F>,
        (Ghost((f, p0, p1, m2, p3, p4, p5, p6, p7, m2_after, out)),),
        (),
    )
}

/// What [`effect_ppmppppp`] says of `f`.
pub proof fn lemma_effect_ppmppppp<
    P0,
    P1,
    M2,
    P3,
    P4,
    P5,
    P6,
    P7,
    Out,
    F: FnMut(P0, P1, &mut M2, P3, P4, P5, P6, P7) -> Out,
>(f: F, p0: P0, p1: P1, m2: M2, p3: P3, p4: P4, p5: P5, p6: P6, p7: P7, m2_after: M2, out: Out)
    requires
        effect_ppmppppp(f, p0, p1, m2, p3, p4, p5, p6, p7, m2_after, out),
    ensures
        exists|r2: &mut M2|
            *r2 == m2
                && *final(r2) == m2_after
                && call_ensures(f, (p0, p1, r2, p3, p4, p5, p6, p7), out),
{
}

} // verus!
