use mm3sim::audio::{lcg_next, noise_words, pcm_to_wav};
use mm3sim::layers::GameLayer;
use mm3sim::state::{DragAxis, HiHatState, StatsIntake};

#[test]
fn lcg_matches_wrapping_arithmetic() {
    assert_eq!(lcg_next(0), 1_013_904_223);
    assert_eq!(lcg_next(0xDEAD_BEEF), 0x6AAB_DF82);
    let s = 0x1234_5678u32;
    assert_eq!(lcg_next(s), s.wrapping_mul(1_664_525).wrapping_add(1_013_904_223));
}

#[test]
fn noise_words_are_upper_halves() {
    assert_eq!(noise_words(0xDEAD_BEEF, 3), vec![27307, 62953, 2441]);
    assert!(noise_words(7, 0).is_empty());
}

#[test]
fn wav_layout() {
    let wav = pcm_to_wav(&[0, 1, -1, 32767, -32768], 44100);
    assert_eq!(wav.len(), 44 + 10);
    assert_eq!(&wav[0..4], b"RIFF");
    assert_eq!(u32::from_le_bytes([wav[4], wav[5], wav[6], wav[7]]), 36 + 10);
    assert_eq!(&wav[8..16], b"WAVEfmt ");
    assert_eq!(u32::from_le_bytes([wav[16], wav[17], wav[18], wav[19]]), 16);
    assert_eq!(u16::from_le_bytes([wav[20], wav[21]]), 1);
    assert_eq!(u16::from_le_bytes([wav[22], wav[23]]), 1);
    assert_eq!(u32::from_le_bytes([wav[24], wav[25], wav[26], wav[27]]), 44100);
    assert_eq!(u32::from_le_bytes([wav[28], wav[29], wav[30], wav[31]]), 88200);
    assert_eq!(u16::from_le_bytes([wav[32], wav[33]]), 2);
    assert_eq!(u16::from_le_bytes([wav[34], wav[35]]), 16);
    assert_eq!(&wav[36..40], b"data");
    assert_eq!(u32::from_le_bytes([wav[40], wav[41], wav[42], wav[43]]), 10);
    assert_eq!(&wav[44..], &[0, 0, 1, 0, 0xff, 0xff, 0xff, 0x7f, 0x00, 0x80]);
}

#[test]
fn empty_wav_is_just_a_header() {
    let wav = pcm_to_wav(&[], 8000);
    assert_eq!(wav.len(), 44);
    assert_eq!(u32::from_le_bytes([wav[4], wav[5], wav[6], wav[7]]), 36);
}

#[test]
fn defaults() {
    assert_eq!(GameLayer::default(), GameLayer::Default);
    assert!(StatsIntake::default().0);
    assert!(HiHatState::default().open);
    assert_eq!(DragAxis::default(), DragAxis::Free);
}
