//! The effect slots that a brush preset is edited by, and the stabilizer
//! that passes pen samples through unchanged.

use vstd::prelude::*;

verus! {

/// The three effects that make up a brush.
#[derive(Clone, Copy, Debug, PartialEq, Eq, Structural)]
pub enum BrushEffectSlot {
    /// The effect that computes the spacing between dabs.
    Spacing,
    /// The effect run for every dab.
    Main,
    /// The effect run once over the whole stroke.
    Postprocess,
}

impl BrushEffectSlot {
    /// The slots in the order the editor lists them.
    pub fn all() -> (r: Vec<BrushEffectSlot>)
        ensures
            r@ == seq![BrushEffectSlot::Spacing, BrushEffectSlot::Main, BrushEffectSlot::Postprocess],
    {
        let r = vec![BrushEffectSlot::Spacing, BrushEffectSlot::Main, BrushEffectSlot::Postprocess];
        assert(r@ =~= seq![BrushEffectSlot::Spacing, BrushEffectSlot::Main, BrushEffectSlot::Postprocess]);
        r
    }

    /// The translation key of the slot's label.
    pub fn label_key(self) -> (r: &'static str)
        ensures
            r@ == match self {
                BrushEffectSlot::Spacing => "spacing_effect"@,
                BrushEffectSlot::Main => "main_effect"@,
                BrushEffectSlot::Postprocess => "postprocess_effect"@,
            },
    {
        match self {
            BrushEffectSlot::Spacing => "spacing_effect",
            BrushEffectSlot::Main => "main_effect",
            BrushEffectSlot::Postprocess => "postprocess_effect",
        }
    }
}

/// A stabilizer that takes the latest pen sample as it is.
#[derive(Clone, Copy, Debug, Default)]
pub struct BasicStabilizer;

impl BasicStabilizer {
    /// The stabilized sample of the buffered samples (oldest first): the
    /// latest one, or none when nothing is buffered.
    pub fn stabilize<T: Copy>(&self, inputs: &Vec<T>) -> (r: Option<T>)
        ensures
            inputs@.len() == 0 ==> r is None,
            inputs@.len() > 0 ==> r == Some(inputs@.last()),
    {
        if inputs.len() == 0 {
            None
        } else {
            Some(inputs[inputs.len() - 1])
        }
    }

    /// How many times the last sample must be fed again for the output to
    /// reach it: once.
    pub fn convergence_steps(&self) -> (r: usize)
        ensures
            r == 1,
    {
        1
    }
}

} // verus!
