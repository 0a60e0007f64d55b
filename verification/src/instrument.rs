//! Instrument hit channels and the choice of sound for a hit.
use vstd::prelude::*;
use crate::wheel::{
    ChannelTarget, spec_channel_target, WHEEL_CH_DROP, WHEEL_CH_HIHAT_FIRST, WHEEL_CH_KICK_FIRST, WHEEL_CH_RIDE_FIRST,
    WHEEL_CH_VIB_FIRST, VIB_BAR_COUNT,
};

verus! {

/// Channel number of the snare drum instrument (matches `WHEEL_CH_DROP`).
pub const CH_SNARE: usize = WHEEL_CH_DROP;
/// First vibraphone bar channel (matches `WHEEL_CH_VIB_FIRST`).
pub const CH_VIB_FIRST: usize = WHEEL_CH_VIB_FIRST;
/// Hi-hat cymbal channel (the physical bottom cymbal entity).
pub const CH_HIHAT: usize = WHEEL_CH_HIHAT_FIRST;
/// Kick drum channel (the single physics cylinder).
pub const CH_KICK: usize = WHEEL_CH_KICK_FIRST;
/// Ride cymbal channel (the single physics cymbal).
pub const CH_RIDE: usize = WHEEL_CH_RIDE_FIRST;

/// Hit channels of the four carousel instruments; these are not spawn channels.
pub const CAROUSEL_HIT_CRASH: usize = 72;
pub const CAROUSEL_HIT_COWBELL: usize = 73;
pub const CAROUSEL_HIT_TAMB: usize = 74;
pub const CAROUSEL_HIT_WOOD: usize = 75;

pub const CH_CAROUSEL_CRASH: usize = CAROUSEL_HIT_CRASH;
pub const CH_CAROUSEL_COWBELL: usize = CAROUSEL_HIT_COWBELL;
pub const CH_CAROUSEL_TAMB: usize = CAROUSEL_HIT_TAMB;
pub const CH_CAROUSEL_WOOD: usize = CAROUSEL_HIT_WOOD;

/// Orders the two colliders of a collision as (marble, instrument): the
/// first collider is taken as the marble when it is a marble and the second
/// an instrument, otherwise the reverse is tried; a collision that is not
/// between a marble and an instrument gives `None`.
pub fn orient_collision<E: Copy>(
    e1: E,
    e2: E,
    e1_is_marble: bool,
    e1_is_instrument: bool,
    e2_is_marble: bool,
    e2_is_instrument: bool,
) -> (pair: Option<(E, E)>)
    ensures
        pair == if e1_is_marble && e2_is_instrument {
            Some((e1, e2))
        } else if e2_is_marble && e1_is_instrument {
            Some((e2, e1))
        } else {
            None
        },
{
    if e1_is_marble && e2_is_instrument {
        Some((e1, e2))
    } else if e2_is_marble && e1_is_instrument {
        Some((e2, e1))
    } else {
        None
    }
}

/// The sample that an instrument hit plays.
#[derive(Clone, Copy, Debug, PartialEq, Eq, Structural)]
pub enum HitSound {
    Snare,
    HiHatOpen,
    HiHatClosed,
    Kick,
    Ride,
    Crash,
    Cowbell,
    Tambourine,
    Woodblock,
    /// The tone of vibraphone bar `bar_idx`.
    Vib { bar_idx: u32 },
}

/// The sound played for a hit on channel `ch` while the hi-hat is open or
/// closed; `None` when the channel has no sound.
pub open spec fn spec_sound_for_hit(ch: int, hihat_open: bool) -> Option<HitSound> {
    if ch == CH_SNARE {
        Some(HitSound::Snare)
    } else if ch == CH_HIHAT {
        Some(if hihat_open { HitSound::HiHatOpen } else { HitSound::HiHatClosed })
    } else if ch == CH_KICK {
        Some(HitSound::Kick)
    } else if ch == CH_RIDE {
        Some(HitSound::Ride)
    } else if ch == CH_CAROUSEL_CRASH {
        Some(HitSound::Crash)
    } else if ch == CH_CAROUSEL_COWBELL {
        Some(HitSound::Cowbell)
    } else if ch == CH_CAROUSEL_TAMB {
        Some(HitSound::Tambourine)
    } else if ch == CH_CAROUSEL_WOOD {
        Some(HitSound::Woodblock)
    } else if CH_VIB_FIRST <= ch < CH_VIB_FIRST + VIB_BAR_COUNT {
        Some(HitSound::Vib { bar_idx: (ch - CH_VIB_FIRST) as u32 })
    } else {
        None
    }
}

/// Chooses the sound of a hit on channel `ch`.  The hi-hat sounds open or
/// closed according to the pedal state; channels past the last vibraphone bar
/// that are not one of the named instruments play nothing.
pub fn sound_for_hit(ch: usize, hihat_open: bool) -> (s: Option<HitSound>)
    ensures
        s == spec_sound_for_hit(ch as int, hihat_open),
{
    if ch == CH_SNARE {
        Some(HitSound::Snare)
    } else if ch == CH_HIHAT {
        Some(if hihat_open { HitSound::HiHatOpen } else { HitSound::HiHatClosed })
    } else if ch == CH_KICK {
        Some(HitSound::Kick)
    } else if ch == CH_RIDE {
        Some(HitSound::Ride)
    } else if ch == CH_CAROUSEL_CRASH {
        Some(HitSound::Crash)
    } else if ch == CH_CAROUSEL_COWBELL {
        Some(HitSound::Cowbell)
    } else if ch == CH_CAROUSEL_TAMB {
        Some(HitSound::Tambourine)
    } else if ch == CH_CAROUSEL_WOOD {
        Some(HitSound::Woodblock)
    } else if CH_VIB_FIRST <= ch && ch < CH_VIB_FIRST + VIB_BAR_COUNT as usize {
        Some(HitSound::Vib { bar_idx: (ch - CH_VIB_FIRST) as u32 })
    } else {
        None
    }
}

/// A marble dropped on vibraphone bar `b` sounds bar `b`: for every
/// channel aimed at a vibraphone bar, a hit on that channel plays that bar's
/// tone, whatever the hi-hat state.
pub proof fn lemma_vib_channels_sound_their_bar(ch: int, hihat_open: bool)
    requires
        spec_channel_target(ch) is VibBar,
    ensures
        spec_sound_for_hit(ch, hihat_open) == Some(
            HitSound::Vib { bar_idx: spec_channel_target(ch)->bar_idx },
        ),
{
}

/// Law of the hit sounds: the pedal state matters only for hits on the
/// hi-hat, which sounds open or closed accordingly; the snare (channel 6),
/// kick (57), ride (63) and the carousel's crash, cowbell, tambourine and
/// woodblock (72 to 75) each play their own sample; a hit on channel
/// `13 + b` plays vibraphone bar `b` for each of the 37 bars; every other
/// channel plays nothing.
pub proof fn lemma_sound_for_hit_table(ch: int, hihat_open: bool)
    ensures
        ch != 50 ==> spec_sound_for_hit(ch, hihat_open) == spec_sound_for_hit(ch, !hihat_open),
        spec_sound_for_hit(50, true) == Some(HitSound::HiHatOpen),
        spec_sound_for_hit(50, false) == Some(HitSound::HiHatClosed),
        spec_sound_for_hit(6, hihat_open) == Some(HitSound::Snare),
        spec_sound_for_hit(57, hihat_open) == Some(HitSound::Kick),
        spec_sound_for_hit(63, hihat_open) == Some(HitSound::Ride),
        spec_sound_for_hit(72, hihat_open) == Some(HitSound::Crash),
        spec_sound_for_hit(73, hihat_open) == Some(HitSound::Cowbell),
        spec_sound_for_hit(74, hihat_open) == Some(HitSound::Tambourine),
        spec_sound_for_hit(75, hihat_open) == Some(HitSound::Woodblock),
        13 <= ch < 50 ==> spec_sound_for_hit(ch, hihat_open) == Some(
            HitSound::Vib { bar_idx: (ch - 13) as u32 },
        ),
        (spec_sound_for_hit(ch, hihat_open) is None) <==> !(ch == 6 || 13 <= ch < 51 || ch == 57
            || ch == 63 || 72 <= ch < 76),
{
}

/// Law tying hits to spawns: a hit on the first zone channel of the snare,
/// hi-hat, kick or ride sounds the instrument that channel's marbles are
/// aimed at.
pub proof fn lemma_hit_sound_matches_target(ch: int, hihat_open: bool)
    requires
        ch == CH_SNARE || ch == CH_HIHAT || ch == CH_KICK || ch == CH_RIDE,
    ensures
        (spec_channel_target(ch) is Snare) ==> spec_sound_for_hit(ch, hihat_open) == Some(
            HitSound::Snare,
        ),
        (spec_channel_target(ch) is HiHat) ==> (spec_sound_for_hit(ch, hihat_open) == Some(
            HitSound::HiHatOpen,
        ) || spec_sound_for_hit(ch, hihat_open) == Some(HitSound::HiHatClosed)),
        (spec_channel_target(ch) is Kick) ==> spec_sound_for_hit(ch, hihat_open) == Some(
            HitSound::Kick,
        ),
        (spec_channel_target(ch) is Ride) ==> spec_sound_for_hit(ch, hihat_open) == Some(
            HitSound::Ride,
        ),
{
}

} // verus!
