//! Small-signal corner of the electrostatic pickup network.
//!
//! The reed plate, the rest of the reed bar and C-2 (220 pF at TR-1's base)
//! form the node whose charge relaxes through the bias network: a one-pole
//! high-pass. Its corner scales with the node capacitance,
//! `f = f_ref * (C_ref + C2) / (C_total + C2)`, where `f_ref` is the corner
//! fitted at `C_ref = 240 pF` for the return node of C-2 (ground, or TR-1's
//! emitter, which bootstraps C-2 away). Capacitances are in picofarads and
//! corners in millihertz, rounded down.

use vstd::prelude::*;

verus! {

/// Total plate-node capacitance of the reed bar, in pF (an assumption; an
/// LCR measurement is expected to replace it).
pub const C_TOTAL_PF: u64 = 240;

/// C-2, the capacitor at TR-1's base, in pF.
pub const C2_BASE_PF: u64 = 220;

/// Whether C-2 returns to ground (its return rail is drawn broken; ground is
/// the settled assumption). The alternative is TR-1's emitter.
pub const C2_RETURNS_TO_GROUND: bool = true;

/// Fitted corner at `C_TOTAL_REF_PF` with C-2 returned to ground, in mHz.
pub const FC_REF_C2_GROUND_MHZ: u64 = 880_500;

/// Fitted corner at `C_TOTAL_REF_PF` with C-2 returned to TR-1's emitter, in mHz.
pub const FC_REF_C2_EMITTER_MHZ: u64 = 1_436_000;

/// Total capacitance at which both reference corners were fitted, in pF.
pub const C_TOTAL_REF_PF: u64 = 240;

/// The reference corner of a return fork, in mHz.
pub open spec fn spec_reference_corner(c2_returns_to_ground: bool) -> nat {
    if c2_returns_to_ground { FC_REF_C2_GROUND_MHZ as nat } else { FC_REF_C2_EMITTER_MHZ as nat }
}

/// The scaling law `f_ref * (C_ref + C2) / (C_total + C2)`, in mHz rounded down.
pub open spec fn spec_corner(c_total_pf: nat, c2_returns_to_ground: bool) -> nat {
    spec_reference_corner(c2_returns_to_ground) * (C_TOTAL_REF_PF + C2_BASE_PF) as nat
        / (c_total_pf + C2_BASE_PF) as nat
}

/// Corner of the pickup high-pass for a plate-node capacitance of
/// `c_total_pf` picofarads and the given return node of C-2, in millihertz.
pub fn pickup_corner_millihertz(c_total_pf: u64, c2_returns_to_ground: bool) -> (f: u64)
    requires
        c_total_pf <= u64::MAX - C2_BASE_PF,
    ensures
        f == spec_corner(c_total_pf as nat, c2_returns_to_ground),
{
    let f_ref: u64 = if c2_returns_to_ground { FC_REF_C2_GROUND_MHZ } else { FC_REF_C2_EMITTER_MHZ };
    let num: u64 = f_ref * (C_TOTAL_REF_PF + C2_BASE_PF);
    num / (c_total_pf + C2_BASE_PF)
}

/// The pickup corner of the instrument as built: `C_TOTAL_PF` and the
/// chosen return node of C-2 (880.5 Hz).
pub fn pickup_fc_millihertz() -> (f: u64)
    ensures
        f == spec_corner(C_TOTAL_PF as nat, C2_RETURNS_TO_GROUND),
        f == 880_500,
{
    let f = pickup_corner_millihertz(C_TOTAL_PF, C2_RETURNS_TO_GROUND);
    proof {
        vstd::arithmetic::div_mod::lemma_div_multiples_vanish(880_500, 460);
        assert(spec_reference_corner(C2_RETURNS_TO_GROUND) == 880_500);
        assert(spec_corner(C_TOTAL_PF as nat, C2_RETURNS_TO_GROUND) == (880_500nat * 460nat) / 460nat);
        assert(460 * 880_500 == 880_500nat * 460nat);
    }
    f
}

/// The corner falls as the node capacitance grows, for either return node.
pub proof fn lemma_corner_falls_with_capacitance(c1: nat, c2: nat, ground: bool)
    requires
        c1 <= c2,
    ensures
        spec_corner(c2, ground) <= spec_corner(c1, ground),
{
    vstd::arithmetic::div_mod::lemma_div_is_ordered_by_denominator(
        (spec_reference_corner(ground) * (C_TOTAL_REF_PF + C2_BASE_PF) as nat) as int,
        (c1 + C2_BASE_PF) as int,
        (c2 + C2_BASE_PF) as int,
    );
}

/// At the reference capacitance the law gives the fitted corner itself, and
/// the emitter-return fork sits more than 1.5 times above the ground fork.
pub proof fn lemma_reference_corners(ground: bool)
    ensures
        spec_corner(C_TOTAL_REF_PF as nat, ground) == spec_reference_corner(ground),
        2 * FC_REF_C2_EMITTER_MHZ > 3 * FC_REF_C2_GROUND_MHZ,
{
    vstd::arithmetic::div_mod::lemma_div_multiples_vanish(
        spec_reference_corner(ground) as int,
        (C_TOTAL_REF_PF + C2_BASE_PF) as int,
    );
    assert(spec_reference_corner(ground) * 460 == 460 * spec_reference_corner(ground));
}

} // verus!
