//! The inputs of the expression that computes a dab in a brush's main
//! effect: the order in which they are declared, which depends on whether
//! the brush has a tip texture, a pattern texture, a dual brush (which adds
//! the stroke distance) and a dual tip texture, and the index at which each
//! source node is connected to them.

use vstd::prelude::*;

verus! {

/// An input of the main dab expression.
#[derive(Clone, Copy, Debug, PartialEq, Eq, Structural)]
pub enum MainInput {
    PixelPosition,
    PenPosition,
    ForegroundColor,
    TipTexture,
    BackgroundColor,
    CurrentColor,
    PatternTexture,
    Pressure,
    Tilt,
    Azimuth,
    Direction,
    InitialDirection,
    DabIndex,
    StrokeDistance,
    StrokeBegin,
    DualTipTexture,
    UserSize,
    UserFlow,
}

/// `x` alone when `present`, nothing otherwise.
pub open spec fn optional_input(present: bool, x: MainInput) -> Seq<MainInput> {
    if present {
        seq![x]
    } else {
        Seq::empty()
    }
}

/// The pen inputs that every dab expression reads, in their order.
pub open spec fn dynamics_inputs() -> Seq<MainInput> {
    seq![
        MainInput::Pressure,
        MainInput::Tilt,
        MainInput::Azimuth,
        MainInput::Direction,
        MainInput::InitialDirection,
        MainInput::DabIndex,
    ]
}

/// The inputs of the dab expression in the order they are declared.
pub open spec fn main_input_order(
    has_tip: bool,
    has_pattern: bool,
    has_stroke_distance: bool,
    has_dual_tip: bool,
) -> Seq<MainInput> {
    seq![MainInput::PixelPosition, MainInput::PenPosition, MainInput::ForegroundColor]
        + optional_input(has_tip, MainInput::TipTexture)
        + seq![MainInput::BackgroundColor, MainInput::CurrentColor]
        + optional_input(has_pattern, MainInput::PatternTexture)
        + dynamics_inputs()
        + optional_input(has_stroke_distance, MainInput::StrokeDistance)
        + seq![MainInput::StrokeBegin]
        + optional_input(has_dual_tip, MainInput::DualTipTexture)
        + seq![MainInput::UserSize, MainInput::UserFlow]
}

/// Appends `x` to `v` when `present`.
fn push_if(v: &mut Vec<MainInput>, present: bool, x: MainInput)
    ensures
        final(v)@ == old(v)@ + optional_input(present, x),
{
    if present {
        v.push(x);
    }
    proof {
        assert(final(v)@ =~= old(v)@ + optional_input(present, x));
    }
}

/// The inputs of the dab expression, declared in order.
pub fn main_effect_inputs(
    has_tip: bool,
    has_pattern: bool,
    has_stroke_distance: bool,
    has_dual_tip: bool,
) -> (r: Vec<MainInput>)
    ensures
        r@ == main_input_order(has_tip, has_pattern, has_stroke_distance, has_dual_tip),
{
    let mut v: Vec<MainInput> = Vec::new();
    v.push(MainInput::PixelPosition);
    v.push(MainInput::PenPosition);
    v.push(MainInput::ForegroundColor);
    let ghost s1 = v@;
    push_if(&mut v, has_tip, MainInput::TipTexture);
    let ghost s2 = v@;
    v.push(MainInput::BackgroundColor);
    v.push(MainInput::CurrentColor);
    let ghost s3 = v@;
    push_if(&mut v, has_pattern, MainInput::PatternTexture);
    let ghost s4 = v@;
    v.push(MainInput::Pressure);
    v.push(MainInput::Tilt);
    v.push(MainInput::Azimuth);
    v.push(MainInput::Direction);
    v.push(MainInput::InitialDirection);
    v.push(MainInput::DabIndex);
    let ghost s5 = v@;
    push_if(&mut v, has_stroke_distance, MainInput::StrokeDistance);
    let ghost s6 = v@;
    v.push(MainInput::StrokeBegin);
    let ghost s7 = v@;
    push_if(&mut v, has_dual_tip, MainInput::DualTipTexture);
    let ghost s8 = v@;
    v.push(MainInput::UserSize);
    v.push(MainInput::UserFlow);
    proof {
        assert(s1 =~= seq![MainInput::PixelPosition, MainInput::PenPosition, MainInput::ForegroundColor]);
        assert(s3 =~= s2 + seq![MainInput::BackgroundColor, MainInput::CurrentColor]);
        assert(s5 =~= s4 + dynamics_inputs());
        assert(s7 =~= s6 + seq![MainInput::StrokeBegin]);
        assert(v@ =~= s8 + seq![MainInput::UserSize, MainInput::UserFlow]);
    }
    v
}

/// The index at which each source node is connected to the dab
/// expression; an optional input has an index only when it is declared.
/// The pixel position, pen position and foreground colour always take the
/// first three indices, in that order.
pub struct MainInputSlots {
    pub tip: Option<usize>,
    pub background: usize,
    pub current_color: usize,
    pub pattern: Option<usize>,
    /// The first of the six pen inputs, which follow one another.
    pub dynamics: usize,
    pub stroke_distance: Option<usize>,
    pub stroke_time: usize,
    pub dual_tip: Option<usize>,
    pub user_size: usize,
    pub user_flow: usize,
}

/// `Some(i)` when `present`.
pub open spec fn index_if(present: bool, i: int) -> Option<usize> {
    if present {
        Some(i as usize)
    } else {
        None
    }
}

/// `1` when `present`, else `0`.
pub open spec fn count_if(present: bool) -> int {
    if present {
        1
    } else {
        0
    }
}

/// The connection indices: after the three fixed inputs (and the tip
/// texture at index 3), the background and current colours, the pattern
/// texture, the six pen inputs, the stroke distance, the stroke time, the
/// dual tip texture, then the size and the flow that the user set.
pub open spec fn main_input_slots_spec(
    has_tip: bool,
    has_pattern: bool,
    has_stroke_distance: bool,
    has_dual_tip: bool,
) -> MainInputSlots {
    let background = 3 + count_if(has_tip);
    let current_color = background + 1;
    let dynamics = current_color + 1 + count_if(has_pattern);
    let stroke_time = dynamics + 6 + count_if(has_stroke_distance);
    let user_size = stroke_time + 1 + count_if(has_dual_tip);
    MainInputSlots {
        tip: index_if(has_tip, 3),
        background: background as usize,
        current_color: current_color as usize,
        pattern: index_if(has_pattern, current_color + 1),
        dynamics: dynamics as usize,
        stroke_distance: index_if(has_stroke_distance, dynamics + 6),
        stroke_time: stroke_time as usize,
        dual_tip: index_if(has_dual_tip, stroke_time + 1),
        user_size: user_size as usize,
        user_flow: (user_size + 1) as usize,
    }
}

/// The index at which each source node is connected to the dab expression.
pub fn main_effect_input_slots(
    has_tip: bool,
    has_pattern: bool,
    has_stroke_distance: bool,
    has_dual_tip: bool,
) -> (r: MainInputSlots)
    ensures
        r == main_input_slots_spec(has_tip, has_pattern, has_stroke_distance, has_dual_tip),
{
    let tip_input_offset: usize = if has_tip { 1 } else { 0 };
    let background_input: usize = 3 + tip_input_offset;
    let current_color_input: usize = background_input + 1;
    let pattern_input: usize = current_color_input + 1;
    let dynamics_input: usize = pattern_input + if has_pattern { 1 } else { 0 };
    let stroke_distance_input: usize = dynamics_input + 6;
    let stroke_time_input: usize = stroke_distance_input + if has_stroke_distance { 1 } else { 0 };
    let user_size_input: usize = stroke_time_input + 1 + if has_dual_tip { 1 } else { 0 };
    MainInputSlots {
        tip: if has_tip { Some(3) } else { None },
        background: background_input,
        current_color: current_color_input,
        pattern: if has_pattern { Some(pattern_input) } else { None },
        dynamics: dynamics_input,
        stroke_distance: if has_stroke_distance { Some(stroke_distance_input) } else { None },
        stroke_time: stroke_time_input,
        dual_tip: if has_dual_tip { Some(stroke_time_input + 1) } else { None },
        user_size: user_size_input,
        user_flow: user_size_input + 1,
    }
}

/// Every connection index names the input it is meant for in the declared
/// order, and the flow is the last input: each source node is wired to its
/// own input, whichever optional inputs the brush has.
pub proof fn lemma_slots_match_declared_inputs(
    has_tip: bool,
    has_pattern: bool,
    has_stroke_distance: bool,
    has_dual_tip: bool,
)
    ensures
        ({
            let o = main_input_order(has_tip, has_pattern, has_stroke_distance, has_dual_tip);
            let r = main_input_slots_spec(has_tip, has_pattern, has_stroke_distance, has_dual_tip);
            &&& o[0] == MainInput::PixelPosition
            &&& o[1] == MainInput::PenPosition
            &&& o[2] == MainInput::ForegroundColor
            &&& (r.tip matches Some(i) ==> o[i as int] == MainInput::TipTexture)
            &&& o[r.background as int] == MainInput::BackgroundColor
            &&& o[r.current_color as int] == MainInput::CurrentColor
            &&& (r.pattern matches Some(i) ==> o[i as int] == MainInput::PatternTexture)
            &&& forall|k: int| 0 <= k < 6 ==> o[r.dynamics + k] == #[trigger] dynamics_inputs()[k]
            &&& (r.stroke_distance matches Some(i) ==> o[i as int] == MainInput::StrokeDistance)
            &&& o[r.stroke_time as int] == MainInput::StrokeBegin
            &&& (r.dual_tip matches Some(i) ==> o[i as int] == MainInput::DualTipTexture)
            &&& o[r.user_size as int] == MainInput::UserSize
            &&& o[r.user_flow as int] == MainInput::UserFlow
            &&& r.user_flow == o.len() - 1
        }),
{
    let r = main_input_slots_spec(has_tip, has_pattern, has_stroke_distance, has_dual_tip);
    let a = seq![MainInput::PixelPosition, MainInput::PenPosition, MainInput::ForegroundColor];
    let b = optional_input(has_tip, MainInput::TipTexture);
    let c = seq![MainInput::BackgroundColor, MainInput::CurrentColor];
    let d = optional_input(has_pattern, MainInput::PatternTexture);
    let e = dynamics_inputs();
    let f = optional_input(has_stroke_distance, MainInput::StrokeDistance);
    let g = seq![MainInput::StrokeBegin];
    let h = optional_input(has_dual_tip, MainInput::DualTipTexture);
    let z = seq![MainInput::UserSize, MainInput::UserFlow];
    let o = main_input_order(has_tip, has_pattern, has_stroke_distance, has_dual_tip);
    assert(o == a + b + c + d + e + f + g + h + z);
    let ab = a + b;
    let ac = ab + c;
    let ad = ac + d;
    let ae = ad + e;
    let af = ae + f;
    let ag = af + g;
    let ah = ag + h;
    assert(o == ah + z);
    assert(ab.len() == r.background);
    assert(ac.len() == r.background + 2);
    assert(ad.len() == r.dynamics);
    assert(ae.len() == r.dynamics + 6);
    assert(af.len() == r.stroke_time);
    assert(ah.len() == r.user_size);
    assert(o[0] == ab[0] && o[1] == ab[1] && o[2] == ab[2]);
    assert(ab[0] == a[0] && ab[1] == a[1] && ab[2] == a[2]);
    if has_tip {
        assert(o[3] == ab[3]);
        assert(ab[3] == b[0]);
    }
    assert(o[r.background as int] == ac[r.background as int]);
    assert(o[r.current_color as int] == ac[r.current_color as int]);
    if has_pattern {
        assert(o[r.current_color + 1] == ad[r.current_color + 1]);
        assert(ad[r.current_color + 1] == d[0]);
    }
    assert forall|k: int| 0 <= k < 6 implies o[r.dynamics + k] == #[trigger] dynamics_inputs()[k] by {
        assert(o[r.dynamics + k] == ae[r.dynamics + k]);
        assert(ae[r.dynamics + k] == e[k]);
    }
    if has_stroke_distance {
        assert(o[r.dynamics + 6] == af[r.dynamics + 6]);
        assert(af[r.dynamics + 6] == f[0]);
    }
    assert(o[r.stroke_time as int] == ag[r.stroke_time as int]);
    if has_dual_tip {
        assert(o[r.stroke_time + 1] == ah[r.stroke_time + 1]);
        assert(ah[r.stroke_time + 1] == h[0]);
    }
    assert(o[r.user_size as int] == z[0]);
    assert(o[r.user_flow as int] == z[1]);
}

} // verus!
