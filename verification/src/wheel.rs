//! Programming-wheel channel table.
//!
//! Every instrument channel of the programming wheel is described here: its
//! display name, its display colour, the instrument it targets and the spawn
//! jitter of its marbles.  Channel numbers are laid out in contiguous blocks:
//!
//! - `0..6`   ghost-snare chute channels (one per chute instance),
//! - `6..13`  direct snare drops at increasing X offsets (centre, ±2/4/6 cm),
//! - `13..50` vibraphone bars 0–36 (F3 → F6),
//! - `50..56` hi-hat strike zones (centre, ±2/4 cm, +6 cm),
//! - `56`     hi-hat pedal (gate, no marble),
//! - `57..63` kick drum zones,
//! - `63..69` ride cymbal zones.
//!
//! Lateral offsets are kept in whole centimetres and spawn jitter in whole
//! millimetres, which is the resolution at which the table is defined.
use vstd::prelude::*;
use vstd::string::*;

verus! {

/// First chute channel index.
pub const WHEEL_CH_CHUTE_FIRST: usize = 0;
/// Channel index of the vertical snare drop (direct fall).
pub const WHEEL_CH_DROP: usize = 6;
/// First vibraphone channel index.
pub const WHEEL_CH_VIB_FIRST: usize = 13;
/// First hi-hat strike channel (six hit zones follow).
pub const WHEEL_CH_HIHAT_FIRST: usize = 50;
/// Hi-hat pedal channel: controls the open/closed gate by beat position.
pub const WHEEL_CH_HIHAT_PEDAL: usize = 56;
/// First kick drum channel (six hit zones follow).
pub const WHEEL_CH_KICK_FIRST: usize = 57;
/// First ride cymbal channel (six hit zones follow).
pub const WHEEL_CH_RIDE_FIRST: usize = 63;
/// Number of channels on the programming wheel.
pub const PROGRAMMING_WHEEL_N_CHANNELS: usize = 69;
/// Number of vibraphone bars.
pub const VIB_BAR_COUNT: u32 = 37;

/// Which physical instrument a channel targets, and everything needed to spawn
/// its marble.  Offsets are lateral X offsets in centimetres.
#[derive(Clone, Copy, Debug, PartialEq, Eq, Structural)]
pub enum ChannelTarget {
    /// Marble enters via the chute, then lands on the snare.
    GhostSnare,
    /// Marble drops directly onto the snare, `x_offset_cm` from its centre.
    Snare { x_offset_cm: i32 },
    /// Marble drops onto vibraphone bar `bar_idx` (0 = F3, 36 = F6).
    VibBar { bar_idx: u32 },
    /// Marble drops onto the hi-hat cymbal.
    HiHat { x_offset_cm: i32 },
    /// Marble hits the hi-hat pedal, toggling the open/closed state.
    HiHatPedal,
    /// Marble drops onto the kick drum.
    Kick { x_offset_cm: i32 },
    /// Marble drops onto the ride cymbal.
    Ride { x_offset_cm: i32 },
}

/// Offset in centimetres of hit zone `z` of a block: 0, +2, −2, +4, −4, +6, −6.
pub open spec fn zone_offset_cm(z: int) -> int {
    if z == 0 {
        0
    } else if z % 2 == 1 {
        z + 1
    } else {
        -z
    }
}

/// The instrument targeted by channel `ch`; unknown channels fall back to a
/// centred snare drop.
pub open spec fn spec_channel_target(ch: int) -> ChannelTarget {
    if 0 <= ch < 6 {
        ChannelTarget::GhostSnare
    } else if 6 <= ch < 13 {
        ChannelTarget::Snare { x_offset_cm: zone_offset_cm(ch - 6) as i32 }
    } else if 13 <= ch < 50 {
        ChannelTarget::VibBar { bar_idx: (ch - 13) as u32 }
    } else if 50 <= ch < 56 {
        ChannelTarget::HiHat { x_offset_cm: zone_offset_cm(ch - 50) as i32 }
    } else if ch == 56 {
        ChannelTarget::HiHatPedal
    } else if 57 <= ch < 63 {
        ChannelTarget::Kick { x_offset_cm: zone_offset_cm(ch - 57) as i32 }
    } else if 63 <= ch < 69 {
        ChannelTarget::Ride { x_offset_cm: zone_offset_cm(ch - 63) as i32 }
    } else {
        ChannelTarget::Snare { x_offset_cm: 0 }
    }
}

fn zone_offset(z: usize) -> (off: i32)
    requires
        z <= 6,
    ensures
        off == zone_offset_cm(z as int),
{
    if z == 0 {
        0
    } else if z % 2 == 1 {
        (z + 1) as i32
    } else {
        -(z as i32)
    }
}

/// Returns the target instrument and spawn parameters for a channel.
pub fn channel_target(ch: usize) -> (t: ChannelTarget)
    ensures
        t == spec_channel_target(ch as int),
{
    if ch < 6 {
        ChannelTarget::GhostSnare
    } else if ch < 13 {
        ChannelTarget::Snare { x_offset_cm: zone_offset(ch - 6) }
    } else if ch < 50 {
        ChannelTarget::VibBar { bar_idx: (ch - 13) as u32 }
    } else if ch < 56 {
        ChannelTarget::HiHat { x_offset_cm: zone_offset(ch - 50) }
    } else if ch == 56 {
        ChannelTarget::HiHatPedal
    } else if ch < 63 {
        ChannelTarget::Kick { x_offset_cm: zone_offset(ch - 57) }
    } else if ch < 69 {
        ChannelTarget::Ride { x_offset_cm: zone_offset(ch - 63) }
    } else {
        ChannelTarget::Snare { x_offset_cm: 0 }
    }
}

/// Look of a marble, chosen by the instrument its channel targets; it fixes
/// the marble's colour and how far it may fall before it is removed.
#[derive(Clone, Copy, Debug, PartialEq, Eq, Structural)]
pub enum MarbleKind {
    Chute,
    Vib,
    Snare,
    HiHat,
    Kick,
    Ride,
}

impl MarbleKind {
    /// Vibraphone marbles fall to the low floor; all others are removed at
    /// the higher floor behind the instruments.
    pub open spec fn spec_uses_low_floor(self) -> bool {
        self is Vib
    }

    /// Whether marbles of this kind fall to the low floor.
    pub fn uses_low_floor(&self) -> (b: bool)
        ensures
            b == self.spec_uses_low_floor(),
    {
        match self {
            MarbleKind::Vib => true,
            _ => false,
        }
    }
}

/// The kind of marble spawned from channel `ch`.
pub open spec fn spec_marble_kind(ch: int) -> MarbleKind {
    match spec_channel_target(ch) {
        ChannelTarget::GhostSnare => MarbleKind::Chute,
        ChannelTarget::VibBar { .. } => MarbleKind::Vib,
        ChannelTarget::Snare { .. } => MarbleKind::Snare,
        ChannelTarget::HiHat { .. } => MarbleKind::HiHat,
        ChannelTarget::HiHatPedal => MarbleKind::HiHat,
        ChannelTarget::Kick { .. } => MarbleKind::Kick,
        ChannelTarget::Ride { .. } => MarbleKind::Ride,
    }
}

/// Chooses the look of a marble spawned from channel `ch`.
pub fn marble_kind(ch: usize) -> (k: MarbleKind)
    ensures
        k == spec_marble_kind(ch as int),
{
    match channel_target(ch) {
        ChannelTarget::GhostSnare => MarbleKind::Chute,
        ChannelTarget::VibBar { .. } => MarbleKind::Vib,
        ChannelTarget::Snare { .. } => MarbleKind::Snare,
        ChannelTarget::HiHat { .. } | ChannelTarget::HiHatPedal => MarbleKind::HiHat,
        ChannelTarget::Kick { .. } => MarbleKind::Kick,
        ChannelTarget::Ride { .. } => MarbleKind::Ride,
    }
}

/// XZ spawn jitter radius of channel `ch`, in millimetres: 1 mm for snare,
/// hi-hat strike, kick and ride channels, none for every other channel.
pub open spec fn spec_channel_jitter_mm(ch: int) -> u32 {
    if (6 <= ch < 13) || (50 <= ch < 56) || (57 <= ch < 69) {
        1
    } else {
        0
    }
}

/// Returns the XZ jitter radius (millimetres) for a channel's marble spawn.
/// Returns 0 for unknown channels.
pub fn channel_jitter_xz(ch: usize) -> (mm: u32)
    ensures
        mm == spec_channel_jitter_mm(ch as int),
{
    if (6 <= ch && ch < 13) || (50 <= ch && ch < 56) || (57 <= ch && ch < 69) {
        1
    } else {
        0
    }
}

/// Display colour (r, g, b) of channel `ch`; unknown channels are grey.
pub open spec fn spec_channel_color(ch: int) -> (u8, u8, u8) {
    if ch == 0 {
        (51, 115, 230)
    } else if ch == 1 {
        (70, 130, 210)
    } else if ch == 2 {
        (90, 150, 230)
    } else if ch == 3 {
        (40, 100, 215)
    } else if ch == 4 {
        (60, 85, 200)
    } else if ch == 5 {
        (80, 160, 225)
    } else if 6 <= ch < 13 {
        (242, 89, 38)
    } else if 13 <= ch < 50 {
        (80, 200, 120)
    } else if 50 <= ch < 56 {
        (200, 165, 40)
    } else if ch == 56 {
        (150, 120, 30)
    } else if 57 <= ch < 63 {
        (180, 110, 55)
    } else if 63 <= ch < 69 {
        (210, 175, 60)
    } else {
        (128, 128, 128)
    }
}

/// Returns the (r, g, b) display colour for a channel.
pub fn channel_color_rgb(ch: usize) -> (c: (u8, u8, u8))
    ensures
        c == spec_channel_color(ch as int),
{
    if ch == 0 {
        (51, 115, 230)
    } else if ch == 1 {
        (70, 130, 210)
    } else if ch == 2 {
        (90, 150, 230)
    } else if ch == 3 {
        (40, 100, 215)
    } else if ch == 4 {
        (60, 85, 200)
    } else if ch == 5 {
        (80, 160, 225)
    } else if ch < 13 {
        (242, 89, 38)
    } else if ch < 50 {
        (80, 200, 120)
    } else if ch < 56 {
        (200, 165, 40)
    } else if ch == 56 {
        (150, 120, 30)
    } else if ch < 63 {
        (180, 110, 55)
    } else if ch < 69 {
        (210, 175, 60)
    } else {
        (128, 128, 128)
    }
}

/// Name of pitch class `pc` counted in semitones from F.
pub open spec fn pitch_class_name(pc: int) -> Seq<char> {
    if pc == 0 {
        "F"@
    } else if pc == 1 {
        "F#"@
    } else if pc == 2 {
        "G"@
    } else if pc == 3 {
        "G#"@
    } else if pc == 4 {
        "A"@
    } else if pc == 5 {
        "A#"@
    } else if pc == 6 {
        "B"@
    } else if pc == 7 {
        "C"@
    } else if pc == 8 {
        "C#"@
    } else if pc == 9 {
        "D"@
    } else if pc == 10 {
        "D#"@
    } else {
        "E"@
    }
}

/// Decimal digit `d` (0–9) as a one-character string.
pub open spec fn digit_name(d: int) -> Seq<char> {
    if d == 0 {
        "0"@
    } else if d == 1 {
        "1"@
    } else if d == 2 {
        "2"@
    } else if d == 3 {
        "3"@
    } else if d == 4 {
        "4"@
    } else if d == 5 {
        "5"@
    } else if d == 6 {
        "6"@
    } else if d == 7 {
        "7"@
    } else if d == 8 {
        "8"@
    } else {
        "9"@
    }
}

/// Note name of vibraphone bar `bar` (bar 0 = F3, chromatic upwards): the
/// pitch class followed by the scientific octave number, which steps up at C.
pub open spec fn vib_note_name(bar: int) -> Seq<char> {
    pitch_class_name(bar % 12) + digit_name(3 + (bar + 5) / 12)
}

/// Suffix naming hit zone `z` of a block ("", "+2", "-2", "+4", "-4", "+6", "-6").
pub open spec fn zone_suffix(z: int) -> Seq<char> {
    if z == 1 {
        "+2"@
    } else if z == 2 {
        "-2"@
    } else if z == 3 {
        "+4"@
    } else if z == 4 {
        "-4"@
    } else if z == 5 {
        "+6"@
    } else {
        "-6"@
    }
}

/// `base` followed by the suffix of zone `z`; zone 0 is the bare base name.
pub open spec fn zone_name(base: Seq<char>, z: int) -> Seq<char> {
    if z == 0 {
        base
    } else {
        base + zone_suffix(z)
    }
}

/// Display name of channel `ch`; unknown channels are named "?".
pub open spec fn spec_channel_name(ch: int) -> Seq<char> {
    if 0 <= ch < 6 {
        "Ghost Snare "@ + digit_name(ch + 1)
    } else if 6 <= ch < 13 {
        zone_name("Snare"@, ch - 6)
    } else if 13 <= ch < 50 {
        vib_note_name(ch - 13)
    } else if 50 <= ch < 56 {
        zone_name("Hi-Hat"@, ch - 50)
    } else if ch == 56 {
        "HH Pedal"@
    } else if 57 <= ch < 63 {
        zone_name("Kick"@, ch - 57)
    } else if 63 <= ch < 69 {
        zone_name("Ride"@, ch - 63)
    } else {
        "?"@
    }
}

fn pitch_class_str(pc: usize) -> (s: &'static str)
    requires
        pc < 12,
    ensures
        s@ == pitch_class_name(pc as int),
{
    if pc == 0 {
        "F"
    } else if pc == 1 {
        "F#"
    } else if pc == 2 {
        "G"
    } else if pc == 3 {
        "G#"
    } else if pc == 4 {
        "A"
    } else if pc == 5 {
        "A#"
    } else if pc == 6 {
        "B"
    } else if pc == 7 {
        "C"
    } else if pc == 8 {
        "C#"
    } else if pc == 9 {
        "D"
    } else if pc == 10 {
        "D#"
    } else {
        "E"
    }
}

pub(crate) fn digit_str(d: usize) -> (s: &'static str)
    requires
        d < 10,
    ensures
        s@ == digit_name(d as int),
{
    if d == 0 {
        "0"
    } else if d == 1 {
        "1"
    } else if d == 2 {
        "2"
    } else if d == 3 {
        "3"
    } else if d == 4 {
        "4"
    } else if d == 5 {
        "5"
    } else if d == 6 {
        "6"
    } else if d == 7 {
        "7"
    } else if d == 8 {
        "8"
    } else {
        "9"
    }
}

fn zone_suffix_str(z: usize) -> (s: &'static str)
    requires
        1 <= z <= 6,
    ensures
        s@ == zone_suffix(z as int),
{
    if z == 1 {
        "+2"
    } else if z == 2 {
        "-2"
    } else if z == 3 {
        "+4"
    } else if z == 4 {
        "-4"
    } else if z == 5 {
        "+6"
    } else {
        "-6"
    }
}

fn zone_string(base: &str, z: usize) -> (s: String)
    requires
        z <= 6,
    ensures
        s@ == zone_name(base@, z as int),
{
    let mut s = String::from_str(base);
    if z != 0 {
        s.append(zone_suffix_str(z));
    }
    s
}

/// Returns the display name for a channel.
pub fn channel_name(ch: usize) -> (name: String)
    ensures
        name@ == spec_channel_name(ch as int),
{
    if ch < 6 {
        let mut s = String::from_str("Ghost Snare ");
        s.append(digit_str(ch + 1));
        s
    } else if ch < 13 {
        zone_string("Snare", ch - 6)
    } else if ch < 50 {
        let bar = ch - 13;
        let mut s = String::from_str(pitch_class_str(bar % 12));
        s.append(digit_str(3 + (bar + 5) / 12));
        s
    } else if ch < 56 {
        zone_string("Hi-Hat", ch - 50)
    } else if ch == 56 {
        String::from_str("HH Pedal")
    } else if ch < 63 {
        zone_string("Kick", ch - 57)
    } else if ch < 69 {
        zone_string("Ride", ch - 63)
    } else {
        String::from_str("?")
    }
}

/// The name of a vibraphone channel is the note of the bar it targets.
pub proof fn lemma_vib_channel_named_by_its_bar(ch: int)
    requires
        spec_channel_target(ch) is VibBar,
    ensures
        spec_channel_name(ch) == vib_note_name(spec_channel_target(ch)->bar_idx as int),
        0 <= spec_channel_target(ch)->bar_idx < VIB_BAR_COUNT,
{
}

/// Law of the channel table: the 69 channels fall into blocks, in order,
/// six ghost-snare chutes, seven snare zones, the 37 vibraphone bars from
/// F3 up, six hi-hat strike zones, the single hi-hat pedal, six kick zones
/// and six ride zones.  Within a block of zones the offsets run 0, +2, −2,
/// +4, −4, +6, −6 cm; any other channel falls back to a centred snare drop.
pub proof fn lemma_channel_target_blocks(ch: int)
    ensures
        (spec_channel_target(ch) is GhostSnare) <==> 0 <= ch < 6,
        (spec_channel_target(ch) is VibBar) <==> 13 <= ch < 50,
        (spec_channel_target(ch) is HiHat) <==> 50 <= ch < 56,
        (spec_channel_target(ch) is HiHatPedal) <==> ch == 56,
        (spec_channel_target(ch) is Kick) <==> 57 <= ch < 63,
        (spec_channel_target(ch) is Ride) <==> 63 <= ch < 69,
        (spec_channel_target(ch) is Snare) <==> (6 <= ch < 13 || ch < 0 || ch >= 69),
        6 <= ch < 13 ==> spec_channel_target(ch) == (ChannelTarget::Snare {
            x_offset_cm: seq![0i32, 2, -2i32, 4, -4i32, 6, -6i32][ch - 6],
        }),
        13 <= ch < 50 ==> spec_channel_target(ch) == (ChannelTarget::VibBar {
            bar_idx: (ch - 13) as u32,
        }),
        50 <= ch < 56 ==> spec_channel_target(ch) == (ChannelTarget::HiHat {
            x_offset_cm: seq![0i32, 2, -2i32, 4, -4i32, 6][ch - 50],
        }),
        57 <= ch < 63 ==> spec_channel_target(ch) == (ChannelTarget::Kick {
            x_offset_cm: seq![0i32, 2, -2i32, 4, -4i32, 6][ch - 57],
        }),
        63 <= ch < 69 ==> spec_channel_target(ch) == (ChannelTarget::Ride {
            x_offset_cm: seq![0i32, 2, -2i32, 4, -4i32, 6][ch - 63],
        }),
        (ch < 0 || ch >= 69) ==> spec_channel_target(ch) == (ChannelTarget::Snare { x_offset_cm: 0 }),
{
    let z6 = seq![0i32, 2, -2i32, 4, -4i32, 6];
    let z7 = seq![0i32, 2, -2i32, 4, -4i32, 6, -6i32];
    assert(z7[0] == 0 && z7[1] == 2 && z7[2] == -2 && z7[3] == 4 && z7[4] == -4 && z7[5] == 6
        && z7[6] == -6);
    assert(z6[0] == 0 && z6[1] == 2 && z6[2] == -2 && z6[3] == 4 && z6[4] == -4 && z6[5] == 6);
}

/// Law of the marble looks: a marble's kind is that of the instrument its
/// channel targets (hi-hat strikes and the pedal both take the hi-hat
/// look), and only vibraphone marbles fall to the low floor.
pub proof fn lemma_marble_kind_follows_target(ch: int)
    ensures
        spec_marble_kind(ch) == MarbleKind::Chute <==> (spec_channel_target(ch) is GhostSnare),
        spec_marble_kind(ch) == MarbleKind::Snare <==> (spec_channel_target(ch) is Snare),
        spec_marble_kind(ch) == MarbleKind::Vib <==> (spec_channel_target(ch) is VibBar),
        spec_marble_kind(ch) == MarbleKind::HiHat <==> ((spec_channel_target(ch) is HiHat)
            || (spec_channel_target(ch) is HiHatPedal)),
        spec_marble_kind(ch) == MarbleKind::Kick <==> (spec_channel_target(ch) is Kick),
        spec_marble_kind(ch) == MarbleKind::Ride <==> (spec_channel_target(ch) is Ride),
        spec_marble_kind(ch).spec_uses_low_floor() <==> 13 <= ch < 50,
{
    lemma_channel_target_blocks(ch);
}

/// Law of the spawn jitter: marbles dropped straight onto a snare, hi-hat,
/// kick or ride zone are jittered by 1 mm; chute, vibraphone and pedal
/// channels, and channels off the wheel, are not jittered.
pub proof fn lemma_channel_jitter_by_target(ch: int)
    ensures
        spec_channel_jitter_mm(ch) <= 1,
        spec_channel_jitter_mm(ch) == 1 <==> (0 <= ch < 69 && ((spec_channel_target(ch) is Snare)
            || (spec_channel_target(ch) is HiHat) || (spec_channel_target(ch) is Kick)
            || (spec_channel_target(ch) is Ride))),
{
    lemma_channel_target_blocks(ch);
}

/// Law of the note names: the vibraphone channels are named chromatically
/// upward from F3, the pitch class of bar `b` being entry `b % 12` of
/// F, F#, G, G#, A, A#, B, C, C#, D, D#, E, and the octave number, which
/// steps up at each C, running from 3 to 6.
pub proof fn lemma_vib_channel_names(b: int)
    requires
        0 <= b < 37,
    ensures
        spec_channel_name(13 + b) == seq![
            "F"@, "F#"@, "G"@, "G#"@, "A"@, "A#"@, "B"@, "C"@, "C#"@, "D"@, "D#"@, "E"@,
        ][b % 12] + seq!["3"@, "4"@, "5"@, "6"@][(b + 5) / 12],
{
    let pcs = seq![
        "F"@, "F#"@, "G"@, "G#"@, "A"@, "A#"@, "B"@, "C"@, "C#"@, "D"@, "D#"@, "E"@,
    ];
    let octs = seq!["3"@, "4"@, "5"@, "6"@];
    assert(pcs[0] == "F"@ && pcs[1] == "F#"@ && pcs[2] == "G"@ && pcs[3] == "G#"@);
    assert(pcs[4] == "A"@ && pcs[5] == "A#"@ && pcs[6] == "B"@ && pcs[7] == "C"@);
    assert(pcs[8] == "C#"@ && pcs[9] == "D"@ && pcs[10] == "D#"@ && pcs[11] == "E"@);
    assert(octs[0] == "3"@ && octs[1] == "4"@ && octs[2] == "5"@ && octs[3] == "6"@);
}

/// Law of the zone names: each hit zone is named by its instrument and the
/// signed offset of the zone in centimetres, the centre zone by the bare
/// instrument name; the pedal is "HH Pedal" and off-wheel channels "?".
pub proof fn lemma_zone_channel_names(ch: int)
    ensures
        6 <= ch < 13 ==> spec_channel_name(ch) == "Snare"@ + seq![
            ""@, "+2"@, "-2"@, "+4"@, "-4"@, "+6"@, "-6"@,
        ][ch - 6],
        50 <= ch < 56 ==> spec_channel_name(ch) == "Hi-Hat"@ + seq![
            ""@, "+2"@, "-2"@, "+4"@, "-4"@, "+6"@,
        ][ch - 50],
        57 <= ch < 63 ==> spec_channel_name(ch) == "Kick"@ + seq![
            ""@, "+2"@, "-2"@, "+4"@, "-4"@, "+6"@,
        ][ch - 57],
        63 <= ch < 69 ==> spec_channel_name(ch) == "Ride"@ + seq![
            ""@, "+2"@, "-2"@, "+4"@, "-4"@, "+6"@,
        ][ch - 63],
        ch == 56 ==> spec_channel_name(ch) == "HH Pedal"@,
        (ch < 0 || ch >= 69) ==> spec_channel_name(ch) == "?"@,
{
    let s7 = seq![""@, "+2"@, "-2"@, "+4"@, "-4"@, "+6"@, "-6"@];
    let s6 = seq![""@, "+2"@, "-2"@, "+4"@, "-4"@, "+6"@];
    assert(s7[0] == ""@ && s7[1] == "+2"@ && s7[2] == "-2"@ && s7[3] == "+4"@ && s7[4] == "-4"@
        && s7[5] == "+6"@ && s7[6] == "-6"@);
    assert(s6[0] == ""@ && s6[1] == "+2"@ && s6[2] == "-2"@ && s6[3] == "+4"@ && s6[4] == "-4"@
        && s6[5] == "+6"@);
    reveal_strlit("");
    assert(("Snare"@ + ""@) =~= "Snare"@);
    assert(("Hi-Hat"@ + ""@) =~= "Hi-Hat"@);
    assert(("Kick"@ + ""@) =~= "Kick"@);
    assert(("Ride"@ + ""@) =~= "Ride"@);
}

/// Law of the chute channel names: the six ghost-snare channels are named
/// "Ghost Snare 1" to "Ghost Snare 6", numbered from 1.
pub proof fn lemma_ghost_snare_names(ch: int)
    requires
        0 <= ch < 6,
    ensures
        spec_channel_name(ch) == "Ghost Snare "@ + seq!["1"@, "2"@, "3"@, "4"@, "5"@, "6"@][ch],
{
    let d = seq!["1"@, "2"@, "3"@, "4"@, "5"@, "6"@];
    assert(d[0] == "1"@ && d[1] == "2"@ && d[2] == "3"@ && d[3] == "4"@ && d[4] == "5"@
        && d[5] == "6"@);
}

/// Law of the channel colours: each chute has its own shade of blue; all
/// snare zones share orange, all vibraphone bars green, all hi-hat strike
/// zones gold, the pedal a darker gold, all kick zones brown and all ride
/// zones a light gold; channels off the wheel are grey.
pub proof fn lemma_channel_colours(ch: int)
    ensures
        0 <= ch < 6 ==> spec_channel_color(ch) == seq![
            (51u8, 115u8, 230u8),
            (70u8, 130u8, 210u8),
            (90u8, 150u8, 230u8),
            (40u8, 100u8, 215u8),
            (60u8, 85u8, 200u8),
            (80u8, 160u8, 225u8),
        ][ch],
        6 <= ch < 13 ==> spec_channel_color(ch) == (242u8, 89u8, 38u8),
        13 <= ch < 50 ==> spec_channel_color(ch) == (80u8, 200u8, 120u8),
        50 <= ch < 56 ==> spec_channel_color(ch) == (200u8, 165u8, 40u8),
        ch == 56 ==> spec_channel_color(ch) == (150u8, 120u8, 30u8),
        57 <= ch < 63 ==> spec_channel_color(ch) == (180u8, 110u8, 55u8),
        63 <= ch < 69 ==> spec_channel_color(ch) == (210u8, 175u8, 60u8),
        (ch < 0 || ch >= 69) ==> spec_channel_color(ch) == (128u8, 128u8, 128u8),
{
    let t = seq![
        (51u8, 115u8, 230u8),
        (70u8, 130u8, 210u8),
        (90u8, 150u8, 230u8),
        (40u8, 100u8, 215u8),
        (60u8, 85u8, 200u8),
        (80u8, 160u8, 225u8),
    ];
    assert(t[0] == (51u8, 115u8, 230u8) && t[1] == (70u8, 130u8, 210u8) && t[2] == (
        90u8,
        150u8,
        230u8,
    ));
    assert(t[3] == (40u8, 100u8, 215u8) && t[4] == (60u8, 85u8, 200u8) && t[5] == (
        80u8,
        160u8,
        225u8,
    ));
}

} // verus!
