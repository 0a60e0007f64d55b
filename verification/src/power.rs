//! Trigger counting for the power budget of one programming-wheel revolution.
use vstd::prelude::*;
use crate::wheel::{ChannelTarget, spec_channel_target, channel_target, lemma_channel_target_blocks};

verus! {

/// How many notes of one wheel revolution fall on each kind of instrument.
#[derive(Clone, Copy, Debug, PartialEq, Eq, Structural)]
pub struct TriggerCounts {
    pub ghost_snare: usize,
    pub snare: usize,
    pub vibraphone: usize,
    pub hihat_strike: usize,
    pub hihat_pedal: usize,
    pub kick: usize,
    pub ride: usize,
}

/// Number of channels in `chs` whose target satisfies `f`.
pub open spec fn count_targets(chs: Seq<usize>, f: spec_fn(ChannelTarget) -> bool) -> nat
    decreases chs.len(),
{
    if chs.len() == 0 {
        0
    } else {
        count_targets(chs.drop_last(), f) + if f(spec_channel_target(chs.last() as int)) {
            1nat
        } else {
            0nat
        }
    }
}

pub open spec fn is_ghost_snare(t: ChannelTarget) -> bool {
    t is GhostSnare
}

pub open spec fn is_snare(t: ChannelTarget) -> bool {
    t is Snare
}

pub open spec fn is_vib_bar(t: ChannelTarget) -> bool {
    t is VibBar
}

pub open spec fn is_hihat(t: ChannelTarget) -> bool {
    t is HiHat
}

pub open spec fn is_hihat_pedal(t: ChannelTarget) -> bool {
    t is HiHatPedal
}

pub open spec fn is_kick(t: ChannelTarget) -> bool {
    t is Kick
}

pub open spec fn is_ride(t: ChannelTarget) -> bool {
    t is Ride
}

impl TriggerCounts {
    /// Number of marbles dropped: every trigger except the hi-hat pedal.
    pub open spec fn spec_total_marble_drops(&self) -> int {
        self.ghost_snare + self.snare + self.vibraphone + self.hihat_strike + self.kick
            + self.ride
    }

    /// The counts of every instrument kind among the channels `chs`.
    pub open spec fn counts_of(&self, chs: Seq<usize>) -> bool {
        &&& self.ghost_snare == count_targets(chs, |t: ChannelTarget| is_ghost_snare(t))
        &&& self.snare == count_targets(chs, |t: ChannelTarget| is_snare(t))
        &&& self.vibraphone == count_targets(chs, |t: ChannelTarget| is_vib_bar(t))
        &&& self.hihat_strike == count_targets(chs, |t: ChannelTarget| is_hihat(t))
        &&& self.hihat_pedal == count_targets(chs, |t: ChannelTarget| is_hihat_pedal(t))
        &&& self.kick == count_targets(chs, |t: ChannelTarget| is_kick(t))
        &&& self.ride == count_targets(chs, |t: ChannelTarget| is_ride(t))
    }

    /// Total number of marbles dropped per revolution (the pedal drops none).
    pub fn total_marble_drops(&self) -> (n: usize)
        requires
            self.spec_total_marble_drops() <= usize::MAX,
        ensures
            n == self.spec_total_marble_drops(),
    {
        self.ghost_snare + self.snare + self.vibraphone + self.hihat_strike + self.kick
            + self.ride
    }
}

/// Counts, per instrument kind, the notes whose channels are `channels`.
/// Every note falls on exactly one kind, so the marble drops and the pedal
/// presses together account for every note.
pub fn count_triggers(channels: &[usize]) -> (c: TriggerCounts)
    ensures
        c.counts_of(channels@),
        c.spec_total_marble_drops() + c.hihat_pedal == channels@.len(),
{
    let mut c = TriggerCounts {
        ghost_snare: 0,
        snare: 0,
        vibraphone: 0,
        hihat_strike: 0,
        hihat_pedal: 0,
        kick: 0,
        ride: 0,
    };
    let n = channels.len();
    let mut i: usize = 0;
    while i < n
        invariant
            n == channels@.len(),
            i <= n,
            c.counts_of(channels@.take(i as int)),
            c.spec_total_marble_drops() + c.hihat_pedal == i,
        decreases n - i,
    {
        assert(channels@.take(i + 1).drop_last() =~= channels@.take(i as int));
        assert(channels@.take(i + 1).last() == channels@[i as int]);
        match channel_target(channels[i]) {
            ChannelTarget::GhostSnare => c.ghost_snare = c.ghost_snare + 1,
            ChannelTarget::Snare { .. } => c.snare = c.snare + 1,
            ChannelTarget::VibBar { .. } => c.vibraphone = c.vibraphone + 1,
            ChannelTarget::HiHat { .. } => c.hihat_strike = c.hihat_strike + 1,
            ChannelTarget::HiHatPedal => c.hihat_pedal = c.hihat_pedal + 1,
            ChannelTarget::Kick { .. } => c.kick = c.kick + 1,
            ChannelTarget::Ride { .. } => c.ride = c.ride + 1,
        }
        i = i + 1;
    }
    assert(channels@.take(n as int) =~= channels@);
    c
}

/// Number of entries of `chs` in the range `lo..hi`.
pub open spec fn count_in_range(chs: Seq<usize>, lo: int, hi: int) -> nat
    decreases chs.len(),
{
    if chs.len() == 0 {
        0
    } else {
        count_in_range(chs.drop_last(), lo, hi) + if lo <= chs.last() < hi {
            1nat
        } else {
            0nat
        }
    }
}

proof fn lemma_count_targets_range(
    chs: Seq<usize>,
    f: spec_fn(ChannelTarget) -> bool,
    lo: int,
    hi: int,
)
    requires
        forall|ch: usize| #[trigger] f(spec_channel_target(ch as int)) <==> lo <= ch < hi,
    ensures
        count_targets(chs, f) == count_in_range(chs, lo, hi),
    decreases chs.len(),
{
    if chs.len() > 0 {
        lemma_count_targets_range(chs.drop_last(), f, lo, hi);
        assert(f(spec_channel_target(chs.last() as int)) <==> lo <= chs.last() < hi);
    }
}

/// Law of the trigger counts: counted by channel number, the ghost-snare
/// triggers are the channels 0 to 5, the vibraphone ones 13 to 49, the
/// hi-hat strikes 50 to 55, the pedal presses channel 56, the kick 57 to 62
/// and the ride 63 to 68; the snare count takes channels 6 to 12 and every
/// channel off the wheel, which falls back to a snare drop.
pub proof fn lemma_trigger_counts_by_channel(c: TriggerCounts, chs: Seq<usize>)
    requires
        c.counts_of(chs),
    ensures
        c.ghost_snare == count_in_range(chs, 0, 6),
        c.snare == count_in_range(chs, 6, 13) + count_in_range(chs, 69, usize::MAX + 1),
        c.vibraphone == count_in_range(chs, 13, 50),
        c.hihat_strike == count_in_range(chs, 50, 56),
        c.hihat_pedal == count_in_range(chs, 56, 57),
        c.kick == count_in_range(chs, 57, 63),
        c.ride == count_in_range(chs, 63, 69),
{
    assert forall|ch: usize| true implies {
        &&& (is_ghost_snare(spec_channel_target(ch as int)) <==> 0 <= ch < 6)
        &&& (is_vib_bar(spec_channel_target(ch as int)) <==> 13 <= ch < 50)
        &&& (is_hihat(spec_channel_target(ch as int)) <==> 50 <= ch < 56)
        &&& (is_hihat_pedal(spec_channel_target(ch as int)) <==> 56 <= ch < 57)
        &&& (is_kick(spec_channel_target(ch as int)) <==> 57 <= ch < 63)
        &&& (is_ride(spec_channel_target(ch as int)) <==> 63 <= ch < 69)
        &&& (is_snare(spec_channel_target(ch as int)) <==> (6 <= ch < 13 || 69 <= ch))
    } by {
        lemma_channel_target_blocks(ch as int);
    }
    lemma_count_targets_range(chs, |t: ChannelTarget| is_ghost_snare(t), 0, 6);
    lemma_count_targets_range(chs, |t: ChannelTarget| is_vib_bar(t), 13, 50);
    lemma_count_targets_range(chs, |t: ChannelTarget| is_hihat(t), 50, 56);
    lemma_count_targets_range(chs, |t: ChannelTarget| is_hihat_pedal(t), 56, 57);
    lemma_count_targets_range(chs, |t: ChannelTarget| is_kick(t), 57, 63);
    lemma_count_targets_range(chs, |t: ChannelTarget| is_ride(t), 63, 69);
    lemma_snare_count(chs);
}

proof fn lemma_snare_count(chs: Seq<usize>)
    ensures
        count_targets(chs, |t: ChannelTarget| is_snare(t)) == count_in_range(chs, 6, 13)
            + count_in_range(chs, 69, usize::MAX + 1),
    decreases chs.len(),
{
    if chs.len() > 0 {
        lemma_snare_count(chs.drop_last());
        lemma_channel_target_blocks(chs.last() as int);
    }
}

} // verus!
