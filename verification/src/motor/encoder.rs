//! Quadrature decoding of the motor's two-channel encoder. The channels' levels
//! form a two-bit state `(A << 1) | B`; moving forward (A leading B) the state
//! runs 0, 2, 3, 1, 0 and each step counts +1, backward each step counts -1,
//! and a jump over two states is ambiguous and counts nothing.

use vstd::prelude::*;

verus! {

/// The pull resistor on the encoder's inputs.
#[derive(Clone, Copy, PartialEq, Eq, Structural, Debug)]
pub enum EncoderInputPull {
    NoPull,
    Up,
    Down,
}

/// How the encoder is wired.
#[derive(Clone, Copy, PartialEq, Eq, Structural, Debug)]
pub struct EncoderConfig {
    pub input_pull: EncoderInputPull,
    /// Channel B is wired where A is expected, and A where B is.
    pub swap_channels: bool,
}

impl Default for EncoderConfig {
    /// No pull resistor, channels as wired.
    fn default() -> (c: Self)
        ensures
            c.input_pull == EncoderInputPull::NoPull,
            !c.swap_channels,
    {
        EncoderConfig { input_pull: EncoderInputPull::NoPull, swap_channels: false }
    }
}

/// The two-bit state of the channels.
pub open spec fn quad_state(a_high: bool, b_high: bool) -> u8 {
    ((if a_high { 2u8 } else { 0u8 }) + (if b_high { 1u8 } else { 0u8 })) as u8
}

/// The count change of a move between two states.
pub open spec fn quad_delta(prev: u8, curr: u8) -> int {
    if (prev == 0 && curr == 2) || (prev == 2 && curr == 3) || (prev == 3 && curr == 1) || (prev == 1 && curr == 0) {
        1
    } else if (prev == 0 && curr == 1) || (prev == 1 && curr == 3) || (prev == 3 && curr == 2) || (prev == 2 && curr == 0) {
        -1
    } else {
        0
    }
}

/// The decoding table, indexed by `(prev << 2) | curr`.
const DELTA: [i8; 16] = [0, -1, 1, 0, 1, 0, 0, -1, -1, 0, 0, 1, 0, 1, -1, 0];

/// The count change of a move from state `prev` to state `curr`.
pub fn decode_step(prev: u8, curr: u8) -> (d: i8)
    requires
        prev < 4,
        curr < 4,
    ensures
        d == quad_delta(prev, curr),
{
    let table = DELTA;
    assert(table@ =~= seq![0i8, -1i8, 1i8, 0i8, 1i8, 0i8, 0i8, -1i8, -1i8, 0i8, 0i8, 1i8, 0i8, 1i8, -1i8, 0i8]);
    let index = (prev as usize) * 4 + curr as usize;
    table[index]
}

/// The encoder's counters, as its edge handler keeps them.
pub struct EncoderCounters {
    raw_count: i32,
    transitions: i32,
    valid_pos_steps: i32,
    valid_neg_steps: i32,
    invalid_transitions: i32,
    a_high: bool,
    b_high: bool,
    prev_state: u8,
    swap_channels: bool,
}

/// What the counters hold.
pub struct CountersView {
    pub raw_count: i32,
    pub transitions: i32,
    pub valid_pos_steps: i32,
    pub valid_neg_steps: i32,
    pub invalid_transitions: i32,
    pub a_high: bool,
    pub b_high: bool,
    pub prev_state: u8,
    pub swap_channels: bool,
}

/// An edge on either channel, seen with the channels at `a_pin`, `b_pin`
/// (swapped first when so configured): every counter moves as the decoding
/// says, with wrapping arithmetic.
pub open spec fn edge_step(c: CountersView, a_pin: bool, b_pin: bool) -> CountersView {
    let (a, b) = if c.swap_channels { (b_pin, a_pin) } else { (a_pin, b_pin) };
    let curr = quad_state(a, b);
    let d = quad_delta(c.prev_state, curr);
    CountersView {
        raw_count: if d == 1 {
            c.raw_count.wrapping_add(1)
        } else if d == -1 {
            c.raw_count.wrapping_add(-1i32)
        } else {
            c.raw_count
        },
        transitions: c.transitions.wrapping_add(1),
        valid_pos_steps: if d == 1 { c.valid_pos_steps.wrapping_add(1) } else { c.valid_pos_steps },
        valid_neg_steps: if d == -1 { c.valid_neg_steps.wrapping_add(1) } else { c.valid_neg_steps },
        invalid_transitions: if d == 0 && c.prev_state != curr {
            c.invalid_transitions.wrapping_add(1)
        } else {
            c.invalid_transitions
        },
        a_high: a,
        b_high: b,
        prev_state: curr,
        swap_channels: c.swap_channels,
    }
}

impl EncoderCounters {
    pub closed spec fn view(&self) -> CountersView {
        CountersView {
            raw_count: self.raw_count,
            transitions: self.transitions,
            valid_pos_steps: self.valid_pos_steps,
            valid_neg_steps: self.valid_neg_steps,
            invalid_transitions: self.invalid_transitions,
            a_high: self.a_high,
            b_high: self.b_high,
            prev_state: self.prev_state,
            swap_channels: self.swap_channels,
        }
    }

    pub closed spec fn wf(&self) -> bool {
        self.prev_state < 4
    }

    /// Counters at rest, with the channels read at start-up.
    pub fn new(a_pin: bool, b_pin: bool, swap_channels: bool) -> (c: Self)
        ensures
            c.wf(),
            c@.raw_count == 0,
            c@.transitions == 0,
            c@.valid_pos_steps == 0,
            c@.valid_neg_steps == 0,
            c@.invalid_transitions == 0,
            c@.swap_channels == swap_channels,
            c@.a_high == if swap_channels { b_pin } else { a_pin },
            c@.b_high == if swap_channels { a_pin } else { b_pin },
            c@.prev_state == quad_state(c@.a_high, c@.b_high),
    {
        let (a, b) = if swap_channels { (b_pin, a_pin) } else { (a_pin, b_pin) };
        let state: u8 = (if a { 2u8 } else { 0u8 }) + (if b { 1u8 } else { 0u8 });
        EncoderCounters {
            raw_count: 0,
            transitions: 0,
            valid_pos_steps: 0,
            valid_neg_steps: 0,
            invalid_transitions: 0,
            a_high: a,
            b_high: b,
            prev_state: state,
            swap_channels,
        }
    }

    /// An edge on either channel, with the channels now at `a_pin`, `b_pin`.
    pub fn on_edge(&mut self, a_pin: bool, b_pin: bool)
        requires
            old(self).wf(),
        ensures
            final(self).wf(),
            final(self)@ == edge_step(old(self)@, a_pin, b_pin),
    {
        let (a, b) = if self.swap_channels { (b_pin, a_pin) } else { (a_pin, b_pin) };
        let curr: u8 = (if a { 2u8 } else { 0u8 }) + (if b { 1u8 } else { 0u8 });
        let prev = self.prev_state;
        self.prev_state = curr;
        let delta = decode_step(prev, curr);
        self.transitions = self.transitions.wrapping_add(1);
        if delta == 1 {
            self.raw_count = self.raw_count.wrapping_add(1);
            self.valid_pos_steps = self.valid_pos_steps.wrapping_add(1);
        } else if delta == -1 {
            self.raw_count = self.raw_count.wrapping_add(-1i32);
            self.valid_neg_steps = self.valid_neg_steps.wrapping_add(1);
        } else if prev != curr {
            self.invalid_transitions = self.invalid_transitions.wrapping_add(1);
        }
        self.a_high = a;
        self.b_high = b;
    }

    pub fn raw_encoder_count(&self) -> (n: i32)
        ensures
            n == self@.raw_count,
    {
        self.raw_count
    }

    pub fn set_raw_encoder_count(&mut self, count: i32)
        ensures
            final(self)@ == (CountersView { raw_count: count, ..old(self)@ }),
            final(self).wf() == old(self).wf(),
    {
        self.raw_count = count;
    }

    pub fn add_raw_encoder_count(&mut self, delta: i32)
        ensures
            final(self)@ == (CountersView { raw_count: old(self)@.raw_count.wrapping_add(delta), ..old(self)@ }),
            final(self).wf() == old(self).wf(),
    {
        self.raw_count = self.raw_count.wrapping_add(delta);
    }

    pub fn set_encoder_levels(&mut self, a_high: bool, b_high: bool)
        ensures
            final(self)@ == (CountersView { a_high, b_high, ..old(self)@ }),
            final(self).wf() == old(self).wf(),
    {
        self.a_high = a_high;
        self.b_high = b_high;
    }

    pub fn encoder_a_high(&self) -> (r: bool)
        ensures
            r == self@.a_high,
    {
        self.a_high
    }

    pub fn encoder_b_high(&self) -> (r: bool)
        ensures
            r == self@.b_high,
    {
        self.b_high
    }

    /// Clears the diagnostic counters (not the position count).
    pub fn reset_encoder_transitions(&mut self)
        ensures
            final(self)@ == (CountersView {
                transitions: 0,
                valid_pos_steps: 0,
                valid_neg_steps: 0,
                invalid_transitions: 0,
                ..old(self)@
            }),
            final(self).wf() == old(self).wf(),
    {
        self.transitions = 0;
        self.valid_pos_steps = 0;
        self.valid_neg_steps = 0;
        self.invalid_transitions = 0;
    }

    pub fn add_encoder_transition(&mut self)
        ensures
            final(self)@ == (CountersView { transitions: old(self)@.transitions.wrapping_add(1), ..old(self)@ }),
            final(self).wf() == old(self).wf(),
    {
        self.transitions = self.transitions.wrapping_add(1);
    }

    pub fn encoder_transitions(&self) -> (n: i32)
        ensures
            n == self@.transitions,
    {
        self.transitions
    }

    pub fn encoder_valid_pos_steps(&self) -> (n: i32)
        ensures
            n == self@.valid_pos_steps,
    {
        self.valid_pos_steps
    }

    pub fn encoder_valid_neg_steps(&self) -> (n: i32)
        ensures
            n == self@.valid_neg_steps,
    {
        self.valid_neg_steps
    }

    pub fn encoder_invalid_transitions(&self) -> (n: i32)
        ensures
            n == self@.invalid_transitions,
    {
        self.invalid_transitions
    }
}

/// Reversing a move reverses its count: the decoding is antisymmetric, and
/// staying put or jumping over two states counts nothing.
pub proof fn law_quad_delta_antisymmetric(prev: u8, curr: u8)
    requires
        prev < 4,
        curr < 4,
    ensures
        quad_delta(prev, curr) == -quad_delta(curr, prev),
        quad_delta(prev, prev) == 0,
        (prev ^ curr) == 3 ==> quad_delta(prev, curr) == 0,
{
    assert((prev ^ curr) == 3 ==> ((prev == 0 && curr == 3) || (prev == 3 && curr == 0) || (prev == 1 && curr == 2)
        || (prev == 2 && curr == 1))) by (bit_vector)
        requires prev < 4, curr < 4;
}

/// One full forward cycle of the channels (A rises, B rises, A falls, B falls)
/// from rest counts four steps forward.
pub proof fn law_forward_cycle(c: CountersView)
    requires
        c.prev_state == quad_state(false, false),
        !c.swap_channels,
        -0x8000_0000 <= c.raw_count + 4 < 0x8000_0000,
    ensures
        ({
            let c1 = edge_step(c, true, false);
            let c2 = edge_step(c1, true, true);
            let c3 = edge_step(c2, false, true);
            let c4 = edge_step(c3, false, false);
            &&& c4.raw_count == c.raw_count + 4
            &&& c4.prev_state == c.prev_state
            &&& c4.invalid_transitions == c.invalid_transitions
        }),
{
}

/// One full backward cycle of the channels (B rises, A rises, B falls, A falls)
/// from rest counts four steps back.
pub proof fn law_backward_cycle(c: CountersView)
    requires
        c.prev_state == quad_state(false, false),
        !c.swap_channels,
        -0x8000_0000 <= c.raw_count - 4 < 0x8000_0000,
    ensures
        ({
            let c1 = edge_step(c, false, true);
            let c2 = edge_step(c1, true, true);
            let c3 = edge_step(c2, true, false);
            let c4 = edge_step(c3, false, false);
            &&& c4.raw_count == c.raw_count - 4
            &&& c4.prev_state == c.prev_state
            &&& c4.invalid_transitions == c.invalid_transitions
        }),
{
}

} // verus!
