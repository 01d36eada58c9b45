//! The eight smoothed routing weights of the feedback matrix.

use vstd::prelude::*;
use crate::params::RAMP_MS;
use crate::smooth::{lemma_ramp_glides, ramp_length, RampSmooth};

verus! {

/// The place of the weight from oscillator 1 to oscillator 1.
pub const LFO1_TO_LFO1: usize = 0;

/// The place of the weight from oscillator 1 to oscillator 2.
pub const LFO1_TO_LFO2: usize = 1;

/// The place of the weight from oscillator 1 to output 1.
pub const LFO1_TO_OUT1: usize = 2;

/// The place of the weight from oscillator 1 to output 2.
pub const LFO1_TO_OUT2: usize = 3;

/// The place of the weight from oscillator 2 to oscillator 1.
pub const LFO2_TO_LFO1: usize = 4;

/// The place of the weight from oscillator 2 to oscillator 2.
pub const LFO2_TO_LFO2: usize = 5;

/// The place of the weight from oscillator 2 to output 1.
pub const LFO2_TO_OUT1: usize = 6;

/// The place of the weight from oscillator 2 to output 2.
pub const LFO2_TO_OUT2: usize = 7;

/// Eight smoothers, one per routing weight. Its view lists them in the
/// order of the constants above.
pub struct SmoothParameters {
    lfo1_to_lfo1: RampSmooth,
    lfo1_to_lfo2: RampSmooth,
    lfo1_to_out1: RampSmooth,
    lfo1_to_out2: RampSmooth,
    lfo2_to_lfo1: RampSmooth,
    lfo2_to_lfo2: RampSmooth,
    lfo2_to_out1: RampSmooth,
    lfo2_to_out2: RampSmooth,
}

impl View for SmoothParameters {
    type V = Seq<RampSmooth>;

    closed spec fn view(&self) -> Seq<RampSmooth> {
        seq![
            self.lfo1_to_lfo1,
            self.lfo1_to_lfo2,
            self.lfo1_to_out1,
            self.lfo1_to_out2,
            self.lfo2_to_lfo1,
            self.lfo2_to_lfo2,
            self.lfo2_to_out1,
            self.lfo2_to_out2,
        ]
    }
}

/// The eight routing weights in the order of their places.
pub open spec fn routing(
    lfo1_to_lfo1: int,
    lfo1_to_lfo2: int,
    lfo1_to_out1: int,
    lfo1_to_out2: int,
    lfo2_to_lfo1: int,
    lfo2_to_lfo2: int,
    lfo2_to_out1: int,
    lfo2_to_out2: int,
) -> Seq<int> {
    seq![
        lfo1_to_lfo1,
        lfo1_to_lfo2,
        lfo1_to_out1,
        lfo1_to_out2,
        lfo2_to_lfo1,
        lfo2_to_lfo2,
        lfo2_to_out1,
        lfo2_to_out2,
    ]
}

/// There are eight smoothers and each is well formed.
pub open spec fn weights_wf(smoothers: Seq<RampSmooth>) -> bool {
    &&& smoothers.len() == 8
    &&& forall|i: int| 0 <= i < 8 ==> (#[trigger] smoothers[i]).wf()
}

/// All eight smoothers rest on 0 and take the ramp time of the engine to
/// reach a new target at `sample_rate` hertz.
pub open spec fn weights_at_rest(smoothers: Seq<RampSmooth>, sample_rate: int) -> bool {
    &&& smoothers.len() == 8
    &&& forall|i: int|
        0 <= i < 8 ==> {
            &&& (#[trigger] smoothers[i]).current() == 0
            &&& smoothers[i].target() == 0
            &&& smoothers[i].step() == 0
            &&& smoothers[i].ramp_samples() == ramp_length(sample_rate, RAMP_MS as int)
        }
}

/// Each of `after` is the smoother of `before` at its place after a jump to
/// the value of `values` at that place.
pub open spec fn weights_jumped(
    before: Seq<RampSmooth>,
    after: Seq<RampSmooth>,
    values: Seq<int>,
) -> bool {
    &&& after.len() == 8
    &&& forall|i: int| 0 <= i < 8 ==> (#[trigger] after[i]).jumped(before[i], values[i])
}

/// Each of `after` is the smoother of `before` at its place one sample
/// later, with the value of `targets` at that place as its target.
pub open spec fn weights_followed(
    before: Seq<RampSmooth>,
    after: Seq<RampSmooth>,
    targets: Seq<int>,
) -> bool {
    &&& after.len() == 8
    &&& forall|i: int| 0 <= i < 8 ==> (#[trigger] after[i]).followed(before[i], targets[i])
}

/// The two matrices hold the present values of `smoothers`: each row of the
/// first feeds one oscillator, each row of the second one output, and each
/// row lists the weight from oscillator 1 before that from oscillator 2.
pub open spec fn is_mix_of(
    mix: ([[i64; 2]; 2], [[i64; 2]; 2]),
    smoothers: Seq<RampSmooth>,
) -> bool {
    &&& mix.0[0][0] == smoothers[LFO1_TO_LFO1 as int].current()
    &&& mix.0[0][1] == smoothers[LFO2_TO_LFO1 as int].current()
    &&& mix.0[1][0] == smoothers[LFO1_TO_LFO2 as int].current()
    &&& mix.0[1][1] == smoothers[LFO2_TO_LFO2 as int].current()
    &&& mix.1[0][0] == smoothers[LFO1_TO_OUT1 as int].current()
    &&& mix.1[0][1] == smoothers[LFO2_TO_OUT1 as int].current()
    &&& mix.1[1][0] == smoothers[LFO1_TO_OUT2 as int].current()
    &&& mix.1[1][1] == smoothers[LFO2_TO_OUT2 as int].current()
}

impl SmoothParameters {
    /// Eight smoothers at rest on 0.
    pub fn new(sample_rate: u32) -> (parameters: SmoothParameters)
        ensures
            weights_wf(parameters@),
            weights_at_rest(parameters@, sample_rate as int),
    {
        SmoothParameters {
            lfo1_to_lfo1: RampSmooth::new(sample_rate, RAMP_MS),
            lfo1_to_lfo2: RampSmooth::new(sample_rate, RAMP_MS),
            lfo1_to_out1: RampSmooth::new(sample_rate, RAMP_MS),
            lfo1_to_out2: RampSmooth::new(sample_rate, RAMP_MS),
            lfo2_to_lfo1: RampSmooth::new(sample_rate, RAMP_MS),
            lfo2_to_lfo2: RampSmooth::new(sample_rate, RAMP_MS),
            lfo2_to_out1: RampSmooth::new(sample_rate, RAMP_MS),
            lfo2_to_out2: RampSmooth::new(sample_rate, RAMP_MS),
        }
    }

    /// Lets every weight jump to its value with no glide.
    pub fn initialize(
        &mut self,
        lfo1_to_lfo1: i64,
        lfo1_to_lfo2: i64,
        lfo1_to_out1: i64,
        lfo1_to_out2: i64,
        lfo2_to_lfo1: i64,
        lfo2_to_lfo2: i64,
        lfo2_to_out1: i64,
        lfo2_to_out2: i64,
    )
        requires
            weights_wf(old(self)@),
        ensures
            weights_wf(final(self)@),
            weights_jumped(
                old(self)@,
                final(self)@,
                routing(
                    lfo1_to_lfo1 as int,
                    lfo1_to_lfo2 as int,
                    lfo1_to_out1 as int,
                    lfo1_to_out2 as int,
                    lfo2_to_lfo1 as int,
                    lfo2_to_lfo2 as int,
                    lfo2_to_out1 as int,
                    lfo2_to_out2 as int,
                ),
            ),
    {
        proof {
            lemma_weights_places(self@);
        }
        self.lfo1_to_lfo1.initialize(lfo1_to_lfo1);
        self.lfo1_to_lfo2.initialize(lfo1_to_lfo2);
        self.lfo1_to_out1.initialize(lfo1_to_out1);
        self.lfo1_to_out2.initialize(lfo1_to_out2);
        self.lfo2_to_lfo1.initialize(lfo2_to_lfo1);
        self.lfo2_to_lfo2.initialize(lfo2_to_lfo2);
        self.lfo2_to_out1.initialize(lfo2_to_out1);
        self.lfo2_to_out2.initialize(lfo2_to_out2);
    }

    /// Takes the eight routing weights as targets, advances every smoother
    /// by one sample and returns the smoothed weights as the feedback matrix
    /// and the output matrix.
    pub fn process(
        &mut self,
        lfo1_to_lfo1: i64,
        lfo1_to_lfo2: i64,
        lfo1_to_out1: i64,
        lfo1_to_out2: i64,
        lfo2_to_lfo1: i64,
        lfo2_to_lfo2: i64,
        lfo2_to_out1: i64,
        lfo2_to_out2: i64,
    ) -> (mix: ([[i64; 2]; 2], [[i64; 2]; 2]))
        requires
            weights_wf(old(self)@),
        ensures
            weights_wf(final(self)@),
            weights_followed(
                old(self)@,
                final(self)@,
                routing(
                    lfo1_to_lfo1 as int,
                    lfo1_to_lfo2 as int,
                    lfo1_to_out1 as int,
                    lfo1_to_out2 as int,
                    lfo2_to_lfo1 as int,
                    lfo2_to_lfo2 as int,
                    lfo2_to_out1 as int,
                    lfo2_to_out2 as int,
                ),
            ),
            is_mix_of(mix, final(self)@),
    {
        proof {
            lemma_weights_places(self@);
        }
        (
            [
                [self.lfo1_to_lfo1.process(lfo1_to_lfo1), self.lfo2_to_lfo1.process(lfo2_to_lfo1)],
                [self.lfo1_to_lfo2.process(lfo1_to_lfo2), self.lfo2_to_lfo2.process(lfo2_to_lfo2)],
            ],
            [
                [self.lfo1_to_out1.process(lfo1_to_out1), self.lfo2_to_out1.process(lfo2_to_out1)],
                [self.lfo1_to_out2.process(lfo1_to_out2), self.lfo2_to_out2.process(lfo2_to_out2)],
            ],
        )
    }
}

/// The weights settle. Where the same `targets` are given for `n` samples
/// and `n` is at least the length of every ramp, the matrices that the
/// last sample returns hold the targets exactly, each in its place.
pub proof fn lemma_weights_settle(
    weights: Seq<Seq<RampSmooth>>,
    targets: Seq<int>,
    n: nat,
    mix: ([[i64; 2]; 2], [[i64; 2]; 2]),
)
    requires
        1 <= n < weights.len(),
        weights_wf(weights[0]),
        forall|i: int|
            1 <= i <= n ==> #[trigger] weights_followed(weights[i - 1], weights[i], targets),
        forall|place: int| 0 <= place < 8 ==> n >= (#[trigger] weights[0][place]).ramp_samples(),
        is_mix_of(mix, weights[n as int]),
    ensures
        forall|place: int|
            0 <= place < 8 ==> (#[trigger] weights[n as int][place]).current() == targets[place],
        mix.0[0][0] == targets[LFO1_TO_LFO1 as int],
        mix.0[0][1] == targets[LFO2_TO_LFO1 as int],
        mix.0[1][0] == targets[LFO1_TO_LFO2 as int],
        mix.0[1][1] == targets[LFO2_TO_LFO2 as int],
        mix.1[0][0] == targets[LFO1_TO_OUT1 as int],
        mix.1[0][1] == targets[LFO2_TO_OUT1 as int],
        mix.1[1][0] == targets[LFO1_TO_OUT2 as int],
        mix.1[1][1] == targets[LFO2_TO_OUT2 as int],
{
    assert forall|place: int| 0 <= place < 8 implies (#[trigger] weights[n as int][place]).current()
        == targets[place] by {
        let states = Seq::new(weights.len(), |i: int| weights[i][place]);
        assert forall|i: int| 1 <= i <= n implies (#[trigger] states[i]).followed(
            states[i - 1],
            targets[place],
        ) by {
            assert(weights_followed(weights[i - 1], weights[i], targets));
        }
        assert(weights[0][place].wf());
        lemma_ramp_glides(states, targets[place], n);
    }
    assert(weights[n as int][0].current() == targets[0]);
    assert(weights[n as int][1].current() == targets[1]);
    assert(weights[n as int][2].current() == targets[2]);
    assert(weights[n as int][3].current() == targets[3]);
    assert(weights[n as int][4].current() == targets[4]);
    assert(weights[n as int][5].current() == targets[5]);
    assert(weights[n as int][6].current() == targets[6]);
    assert(weights[n as int][7].current() == targets[7]);
}

/// Of well-formed weights, each place holds a well-formed smoother.
pub proof fn lemma_weights_places(smoothers: Seq<RampSmooth>)
    requires
        weights_wf(smoothers),
    ensures
        smoothers[0].wf(),
        smoothers[1].wf(),
        smoothers[2].wf(),
        smoothers[3].wf(),
        smoothers[4].wf(),
        smoothers[5].wf(),
        smoothers[6].wf(),
        smoothers[7].wf(),
{
}

} // verus!
