//! Carousel selector: the carousel turns in quarter turns, bringing one of
//! its four instruments (0 = crash, 1 = cowbell, 2 = tambourine,
//! 3 = woodblock) to the top.  Turns are counted here in whole quarter
//! turns; the caller animates the continuous angle toward the target.
use vstd::prelude::*;

verus! {

/// Number of instrument slots on the carousel.
pub const CAROUSEL_SLOTS: u8 = 4;

/// Rotation state of the carousel.
#[derive(Clone, Copy, Debug, PartialEq, Eq, Structural)]
pub struct CarouselState {
    /// Quarter turns from the start position to the target angle, counted
    /// modulo 2^64.  Since 2^64 is a multiple of 4, the count selects the
    /// same slot as the exact number of turns.
    pub target_quarters: u64,
    pub is_animating: bool,
    /// Quarter turns queued by the selector channel, not yet started.
    pub pending_advances: u32,
    /// Slot currently at the top (0–3).
    pub current_slot: u8,
}

/// `t + p` quarter turns, counted modulo 2^64.
pub open spec fn add_quarters(t: u64, p: u32) -> u64 {
    ((t + p) % 0x1_0000_0000_0000_0000) as u64
}

impl CarouselState {
    /// The slot index is always one of the four slots.
    pub open spec fn wf(&self) -> bool {
        self.current_slot < CAROUSEL_SLOTS
    }

    /// At rest at the start position, crash on top.
    pub fn new() -> (s: Self)
        ensures
            s.wf(),
            s.target_quarters == 0,
            !s.is_animating,
            s.pending_advances == 0,
            s.current_slot == 0,
    {
        CarouselState { target_quarters: 0, is_animating: false, pending_advances: 0, current_slot: 0 }
    }

    /// State after `start_pending`.
    pub open spec fn started(self) -> Self {
        if self.pending_advances > 0 && !self.is_animating {
            CarouselState {
                target_quarters: add_quarters(self.target_quarters, self.pending_advances),
                pending_advances: 0,
                is_animating: true,
                ..self
            }
        } else {
            self
        }
    }

    /// State after `finish_rotation`.
    pub open spec fn finished(self) -> Self {
        CarouselState { is_animating: false, current_slot: (self.target_quarters % 4) as u8, ..self }
    }

    /// Starts the queued quarter turns when the carousel is at rest: the
    /// target moves on by all of them at once and the animation begins.
    /// Returns whether a new rotation started.
    pub fn start_pending(&mut self) -> (started: bool)
        ensures
            started == (old(self).pending_advances > 0 && !old(self).is_animating),
            *final(self) == old(self).started(),
    {
        if self.pending_advances > 0 && !self.is_animating {
            self.target_quarters = self.target_quarters.wrapping_add(self.pending_advances as u64);
            self.pending_advances = 0;
            self.is_animating = true;
            true
        } else {
            false
        }
    }

    /// The angle reached the target: the animation stops and the slot at the
    /// top is the one the target's quarter turns bring there.
    pub fn finish_rotation(&mut self)
        ensures
            *final(self) == old(self).finished(),
            final(self).wf(),
    {
        self.is_animating = false;
        self.current_slot = (self.target_quarters % 4) as u8;
    }
}

/// Selector law: when the carousel is at rest with the slot of its target on
/// top, starting `n > 0` queued quarter turns and finishing the rotation
/// brings slot `(slot + n) % 4` to the top and leaves nothing queued.
pub proof fn lemma_quarter_turns_select_slot(s: CarouselState)
    requires
        !s.is_animating,
        s.pending_advances > 0,
        s.current_slot == s.target_quarters % 4,
    ensures
        s.started().finished().current_slot == (s.current_slot + s.pending_advances) % 4,
        s.started().finished().pending_advances == 0,
        !s.started().finished().is_animating,
        s.started().finished().wf(),
{
    let x = s.target_quarters + s.pending_advances;
    vstd::arithmetic::div_mod::lemma_mod_mod(x, 4, 0x4000_0000_0000_0000);
    vstd::arithmetic::div_mod::lemma_add_mod_noop(
        s.target_quarters as int,
        s.pending_advances as int,
        4,
    );
}

/// Law of starting a rotation: at rest with turns queued, the target moves
/// on by exactly the queued quarter turns (counted modulo 2^64), nothing
/// stays queued and the animation starts; otherwise nothing changes.  The
/// slot on top changes only when the rotation finishes.
pub proof fn lemma_start_pending_advances(s: CarouselState)
    ensures
        (s.pending_advances > 0 && !s.is_animating) ==> {
            &&& (s.started().target_quarters - s.target_quarters - s.pending_advances)
                % 0x1_0000_0000_0000_0000 == 0
            &&& s.started().pending_advances == 0
            &&& s.started().is_animating
            &&& s.started().current_slot == s.current_slot
        },
        !(s.pending_advances > 0 && !s.is_animating) ==> s.started() == s,
        s.finished().target_quarters == s.target_quarters,
        s.finished().pending_advances == s.pending_advances,
        !s.finished().is_animating,
        s.finished().current_slot < 4,
        s.finished().current_slot as int == s.target_quarters % 4,
{
    if s.pending_advances > 0 && !s.is_animating {
        let m: int = 0x1_0000_0000_0000_0000;
        let x: int = s.target_quarters + s.pending_advances;
        vstd::arithmetic::div_mod::lemma_fundamental_div_mod(x, m);
        vstd::arithmetic::div_mod::lemma_mod_multiples_basic(-(x / m), m);
        assert(s.started().target_quarters - s.target_quarters - s.pending_advances == -(x / m) * m)
            by (nonlinear_arith)
            requires
                s.started().target_quarters == x % m,
                x == m * (x / m) + x % m,
                x == s.target_quarters + s.pending_advances,
        ;
    }
}

impl core::default::Default for CarouselState {
    fn default() -> (s: Self)
        ensures
            s.wf(),
            s.target_quarters == 0,
            !s.is_animating,
            s.pending_advances == 0,
            s.current_slot == 0,
    {
        CarouselState::new()
    }
}

} // verus!
