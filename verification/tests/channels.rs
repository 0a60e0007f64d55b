use mm3sim::instrument::{sound_for_hit, HitSound, CH_CAROUSEL_WOOD};
use mm3sim::power::count_triggers;
use mm3sim::wheel::{
    channel_color_rgb, channel_jitter_xz, channel_name, channel_target, ChannelTarget,
    PROGRAMMING_WHEEL_N_CHANNELS, WHEEL_CH_DROP, WHEEL_CH_HIHAT_PEDAL, WHEEL_CH_VIB_FIRST,
};

#[test]
fn ghost_snare_channels_are_numbered_from_one() {
    assert_eq!(channel_name(0), "Ghost Snare 1");
    assert_eq!(channel_name(5), "Ghost Snare 6");
    for ch in 0..6 {
        assert!(channel_target(ch) == ChannelTarget::GhostSnare);
        assert_eq!(channel_jitter_xz(ch), 0);
    }
}

#[test]
fn snare_zone_names_and_offsets() {
    let names = ["Snare", "Snare+2", "Snare-2", "Snare+4", "Snare-4", "Snare+6", "Snare-6"];
    let offsets = [0, 2, -2, 4, -4, 6, -6];
    for z in 0..7 {
        let ch = WHEEL_CH_DROP + z;
        assert_eq!(channel_name(ch), names[z]);
        assert!(channel_target(ch) == ChannelTarget::Snare { x_offset_cm: offsets[z] });
        assert_eq!(channel_jitter_xz(ch), 1);
        assert_eq!(channel_color_rgb(ch), (242, 89, 38));
    }
}

#[test]
fn vibraphone_bars_span_f3_to_f6() {
    assert_eq!(channel_name(WHEEL_CH_VIB_FIRST), "F3");
    assert_eq!(channel_name(WHEEL_CH_VIB_FIRST + 1), "F#3");
    assert_eq!(channel_name(WHEEL_CH_VIB_FIRST + 6), "B3");
    assert_eq!(channel_name(WHEEL_CH_VIB_FIRST + 7), "C4");
    assert_eq!(channel_name(WHEEL_CH_VIB_FIRST + 18), "B4");
    assert_eq!(channel_name(WHEEL_CH_VIB_FIRST + 25), "F#5");
    assert_eq!(channel_name(WHEEL_CH_VIB_FIRST + 35), "E6");
    assert_eq!(channel_name(WHEEL_CH_VIB_FIRST + 36), "F6");
    assert!(channel_target(49) == ChannelTarget::VibBar { bar_idx: 36 });
    assert_eq!(channel_color_rgb(30), (80, 200, 120));
    assert_eq!(channel_jitter_xz(30), 0);
}

#[test]
fn hihat_kick_ride_blocks() {
    assert_eq!(channel_name(50), "Hi-Hat");
    assert_eq!(channel_name(55), "Hi-Hat+6");
    assert!(channel_target(54) == ChannelTarget::HiHat { x_offset_cm: -4 });
    assert_eq!(channel_name(WHEEL_CH_HIHAT_PEDAL), "HH Pedal");
    assert!(channel_target(56) == ChannelTarget::HiHatPedal);
    assert_eq!(channel_jitter_xz(56), 0);
    assert_eq!(channel_color_rgb(56), (150, 120, 30));
    assert_eq!(channel_name(57), "Kick");
    assert_eq!(channel_name(59), "Kick-2");
    assert!(channel_target(60) == ChannelTarget::Kick { x_offset_cm: 4 });
    assert_eq!(channel_color_rgb(62), (180, 110, 55));
    assert_eq!(channel_name(63), "Ride");
    assert_eq!(channel_name(68), "Ride+6");
    assert!(channel_target(68) == ChannelTarget::Ride { x_offset_cm: 6 });
    assert_eq!(channel_color_rgb(63), (210, 175, 60));
    assert_eq!(channel_jitter_xz(68), 1);
}

#[test]
fn unknown_channels_fall_back() {
    let ch = PROGRAMMING_WHEEL_N_CHANNELS;
    assert_eq!(channel_name(ch), "?");
    assert_eq!(channel_color_rgb(ch), (128, 128, 128));
    assert!(channel_target(ch) == ChannelTarget::Snare { x_offset_cm: 0 });
    assert_eq!(channel_jitter_xz(ch), 0);
    assert_eq!(channel_name(usize::MAX), "?");
}

#[test]
fn trigger_counts_cover_every_note() {
    let chans = [0, 6, 2, 13, 49, 50, 56, 56, 57, 63, 68, 100];
    let c = count_triggers(&chans);
    assert_eq!(c.ghost_snare, 2);
    assert_eq!(c.snare, 2);
    assert_eq!(c.vibraphone, 2);
    assert_eq!(c.hihat_strike, 1);
    assert_eq!(c.hihat_pedal, 2);
    assert_eq!(c.kick, 1);
    assert_eq!(c.ride, 2);
    assert_eq!(c.total_marble_drops() + c.hihat_pedal, chans.len());
    assert_eq!(c.total_marble_drops(), 10);
}

#[test]
fn empty_wheel_has_no_triggers() {
    let c = count_triggers(&[]);
    assert_eq!(c.total_marble_drops(), 0);
    assert_eq!(c.hihat_pedal, 0);
}

#[test]
fn hit_sounds() {
    assert_eq!(sound_for_hit(6, true), Some(HitSound::Snare));
    assert_eq!(sound_for_hit(50, true), Some(HitSound::HiHatOpen));
    assert_eq!(sound_for_hit(50, false), Some(HitSound::HiHatClosed));
    assert_eq!(sound_for_hit(57, true), Some(HitSound::Kick));
    assert_eq!(sound_for_hit(63, false), Some(HitSound::Ride));
    assert_eq!(sound_for_hit(72, true), Some(HitSound::Crash));
    assert_eq!(sound_for_hit(73, true), Some(HitSound::Cowbell));
    assert_eq!(sound_for_hit(74, true), Some(HitSound::Tambourine));
    assert_eq!(sound_for_hit(CH_CAROUSEL_WOOD, true), Some(HitSound::Woodblock));
    assert_eq!(sound_for_hit(13, true), Some(HitSound::Vib { bar_idx: 0 }));
    assert_eq!(sound_for_hit(49, false), Some(HitSound::Vib { bar_idx: 36 }));
    assert_eq!(sound_for_hit(51, true), None);
    assert_eq!(sound_for_hit(0, true), None);
    assert_eq!(sound_for_hit(7, true), None);
}

#[test]
fn vib_channel_sound_matches_target() {
    for ch in 13..50 {
        match channel_target(ch) {
            ChannelTarget::VibBar { bar_idx } => {
                assert_eq!(sound_for_hit(ch, true), Some(HitSound::Vib { bar_idx }))
            }
            _ => panic!("channel {ch} should be a vibraphone bar"),
        }
    }
}
