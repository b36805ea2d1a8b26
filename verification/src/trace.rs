//! The Monte Carlo bounce state machine.
//!
//! Each bounce of a light path is decided here from plain values: the
//! closest-hit record, the running throughput, the bounce depth, and the
//! two cosine weights of the candidate directions (computed by the sampler
//! that owns the real-valued direction math). The decision either
//! terminates the path with a color or continues it with an updated
//! throughput; a driver folds a whole event list into the traced color.

use vstd::prelude::*;
use crate::color::{ch_mul, ch_sub, Color, FP_ONE};
use crate::objects::HitInfo;

verus! {

/// The bounce cap: a path longer than this is cut off and contributes
/// black.
pub const MAX_RECURSION: u8 = 5;

/// What one bounce of a path feeds the state machine: the chosen
/// intersection record and the fixed-point cosine weights of the sampled
/// specular and diffuse directions.
#[derive(Clone, Copy, Debug, PartialEq, Eq, Structural)]
pub struct BounceEvent {
    pub info: HitInfo,
    pub specular_weight: u64,
    pub diffuse_weight: u64,
}

/// The outcome of one bounce: the path ends with a color, or goes on with
/// a new throughput.
#[derive(Clone, Copy, Debug, PartialEq, Eq, Structural)]
pub enum BounceStep {
    Terminate { color: Color },
    Bounce { throughput: Color },
}

/// The scalar a bounce multiplies into the throughput besides the albedo:
/// `metallic * specular_weight + (1 - metallic) * diffuse_weight`, in
/// fixed point, with `1 - metallic` floored at zero.
pub open spec fn bounce_weight(metallic: u64, specular_weight: u64, diffuse_weight: u64) -> u64 {
    ch_add_spec(
        ch_mul(metallic, specular_weight),
        ch_mul(ch_sub(FP_ONE, metallic), diffuse_weight),
    )
}

/// Saturating sum, re-exported shape of [`crate::color::ch_add`] so this
/// module's specs read in one place.
pub open spec fn ch_add_spec(a: u64, b: u64) -> u64 {
    crate::color::ch_add(a, b)
}

/// One step of the integrator:
/// a miss ends the path black; an emissive hit ends it with
/// `throughput * albedo * emission`; a hit at or past the bounce cap ends
/// it black; any other hit continues with
/// `throughput * albedo * bounce_weight`.
pub open spec fn bounce_step_spec(event: BounceEvent, throughput: Color, bounce_num: u8)
    -> BounceStep {
    if !event.info.has_hit {
        BounceStep::Terminate { color: Color::black_spec() }
    } else if event.info.material.emission > 0 {
        BounceStep::Terminate {
            color: throughput.mul_spec(event.info.material.albedo).mul_scalar_spec(
                event.info.material.emission,
            ),
        }
    } else if bounce_num >= MAX_RECURSION {
        BounceStep::Terminate { color: Color::black_spec() }
    } else {
        BounceStep::Bounce {
            throughput: throughput.mul_spec(event.info.material.albedo).mul_scalar_spec(
                bounce_weight(
                    event.info.material.metallic,
                    event.specular_weight,
                    event.diffuse_weight,
                ),
            ),
        }
    }
}

/// Decides one bounce.
pub fn bounce_step(event: &BounceEvent, throughput: Color, bounce_num: u8) -> (step: BounceStep)
    ensures
        step == bounce_step_spec(*event, throughput, bounce_num),
{
    if !event.info.has_hit {
        return BounceStep::Terminate { color: Color::black() };
    }
    let material = event.info.material;
    if material.emission > 0 {
        return BounceStep::Terminate {
            color: throughput.mul(material.albedo).mul_scalar(material.emission),
        };
    }
    if bounce_num >= MAX_RECURSION {
        return BounceStep::Terminate { color: Color::black() };
    }
    let spec_part = mul_fixed(material.metallic, event.specular_weight);
    let diffuse_factor = if material.metallic >= FP_ONE {
        0
    } else {
        FP_ONE - material.metallic
    };
    let diff_part = mul_fixed(diffuse_factor, event.diffuse_weight);
    let weight = add_sat(spec_part, diff_part);
    BounceStep::Bounce { throughput: throughput.mul(material.albedo).mul_scalar(weight) }
}

fn mul_fixed(a: u64, b: u64) -> (c: u64)
    ensures
        c == ch_mul(a, b),
{
    proof {
        assert((a as int) * (b as int) <= (u64::MAX as int) * (u64::MAX as int))
            by (nonlinear_arith)
            requires
                a <= u64::MAX,
                b <= u64::MAX,
        ;
    }
    let wide: u128 = (a as u128) * (b as u128) / (FP_ONE as u128);
    if wide > u64::MAX as u128 {
        u64::MAX
    } else {
        wide as u64
    }
}

fn add_sat(a: u64, b: u64) -> (c: u64)
    ensures
        c == ch_add_spec(a, b),
{
    if a > u64::MAX - b {
        u64::MAX
    } else {
        a + b
    }
}

/// The color of a whole path: events are applied in order from
/// `bounce_num`, and a path that outruns its events ends black, as a miss
/// would end it.
pub open spec fn trace_spec(events: Seq<BounceEvent>, throughput: Color, bounce_num: u8) -> Color
    decreases events.len(),
{
    if events.len() == 0 {
        Color::black_spec()
    } else {
        match bounce_step_spec(events[0], throughput, bounce_num) {
            BounceStep::Terminate { color } => color,
            BounceStep::Bounce { throughput: next } => if bounce_num < u8::MAX {
                trace_spec(events.drop_first(), next, (bounce_num + 1) as u8)
            } else {
                Color::black_spec()
            },
        }
    }
}

/// Folds a path's bounce events into its color, starting at depth zero.
pub fn trace_path(events: &Vec<BounceEvent>, throughput: Color) -> (c: Color)
    ensures
        c == trace_spec(events@, throughput, 0),
{
    let mut tp = throughput;
    let mut depth: u8 = 0;
    let mut k: usize = 0;
    proof {
        assert(events@.skip(0) =~= events@);
    }
    while k < events.len()
        invariant
            0 <= k <= events@.len(),
            depth <= MAX_RECURSION,
            trace_spec(events@, throughput, 0) == trace_spec(events@.skip(k as int), tp, depth),
        decreases events@.len() - k,
    {
        let step = bounce_step(&events[k], tp, depth);
        proof {
            assert(events@.skip(k as int)[0] == events@[k as int]);
            assert(events@.skip(k as int).drop_first() =~= events@.skip(k + 1));
        }
        match step {
            BounceStep::Terminate { color } => {
                return color;
            },
            BounceStep::Bounce { throughput: next } => {
                tp = next;
                depth = depth + 1;
                k = k + 1;
            },
        }
    }
    Color::black()
}

/// Multiplying by a black albedo blacks out every channel.
proof fn lemma_mul_black(tp: Color)
    ensures
        tp.mul_spec(Color::black_spec()) == Color::black_spec(),
{
}

/// Energy bound, dark-scene half: in a scene whose every surface is
/// non-emissive with black albedo, every traced path returns exactly
/// black, whatever the throughput, depth and weights.
pub proof fn lemma_black_scene_traces_black(events: Seq<BounceEvent>, throughput: Color,
    bounce_num: u8)
    requires
        forall|i: int|
            0 <= i < events.len() ==> (#[trigger] events[i]).info.material.albedo
                == Color::black_spec() && events[i].info.material.emission == 0,
    ensures
        trace_spec(events, throughput, bounce_num) == Color::black_spec(),
    decreases events.len(),
{
    if events.len() > 0 {
        assert(events[0].info.material.albedo == Color::black_spec());
        match bounce_step_spec(events[0], throughput, bounce_num) {
            BounceStep::Terminate { color } => {
                lemma_mul_black(throughput);
            },
            BounceStep::Bounce { throughput: next } => {
                lemma_mul_black(throughput);
                if bounce_num < u8::MAX {
                    assert(forall|i: int|
                        0 <= i < events.drop_first().len() ==> (#[trigger] events.drop_first()[
                            i]).info.material.albedo == Color::black_spec()
                            && events.drop_first()[i].info.material.emission == 0);
                    lemma_black_scene_traces_black(
                        events.drop_first(),
                        next,
                        (bounce_num + 1) as u8,
                    );
                }
            },
        }
    }
}

/// Multiplying a color by full white is the identity: the fixed-point
/// product `(v * FP_ONE) / FP_ONE` is exact.
pub proof fn lemma_white_identity(c: Color)
    ensures
        Color::white_spec().mul_spec(c) == c,
{
    lemma_one_mul_exact(c.r);
    lemma_one_mul_exact(c.g);
    lemma_one_mul_exact(c.b);
}

proof fn lemma_one_mul_exact(v: u64)
    ensures
        ch_mul(FP_ONE, v) == v,
{
    assert((FP_ONE as int) * (v as int) / (FP_ONE as int) == v) by (nonlinear_arith)
        requires
            v >= 0,
            FP_ONE == 1000,
    ;
}

/// Energy bound, emitter half: a path whose very first event is an
/// emissive hit returns `albedo * emission` exactly when traced with full
/// white throughput — the directly visible light is reported undimmed.
pub proof fn lemma_direct_emitter(events: Seq<BounceEvent>, bounce_num: u8)
    requires
        events.len() > 0,
        events[0].info.has_hit,
        events[0].info.material.emission > 0,
    ensures
        trace_spec(events, Color::white_spec(), bounce_num)
            == events[0].info.material.albedo.mul_scalar_spec(events[0].info.material.emission),
{
    lemma_white_identity(events[0].info.material.albedo);
}

} // verus!
