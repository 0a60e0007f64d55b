use mm3sim::barrel::{
    channel_color_rgb, channel_name, marble_machine_default_pattern, plan_barrel_spawns,
    step_subdivision, steps_crossed, BarrelParams, BarrelSpawn, StepSubdivision,
    BARREL_N_CHANNELS, BARREL_N_STEPS,
};

fn count(p: &[Vec<bool>]) -> usize {
    p.iter().map(|r| r.iter().filter(|&&b| b).count()).sum()
}

#[test]
fn default_pattern_shape_and_rhythm() {
    let p = marble_machine_default_pattern();
    assert_eq!(p.len(), BARREL_N_STEPS);
    assert!(p.iter().all(|r| r.len() == BARREL_N_CHANNELS));
    // chute on every quarter-note beat
    for step in 0..BARREL_N_STEPS {
        assert_eq!(p[step][0], step % 12 == 0);
    }
    // drop on beats 2 and 4 of each bar
    let drops: Vec<usize> = (0..BARREL_N_STEPS).filter(|&s| p[s][1]).collect();
    assert_eq!(drops, vec![12, 36, 60, 84, 108, 132, 156, 180]);
    // the phrase: D4 F4 A4 C5 D5 F5 A5 F5 D5 C5 A4 G4 F4 E4 D4 A3, twice
    let phrase = [11, 14, 18, 21, 23, 26, 30, 26, 23, 21, 18, 16, 14, 13, 11, 6];
    for rep in 0..2 {
        for (k, &ch) in phrase.iter().enumerate() {
            assert!(p[rep * 96 + k * 6][ch]);
        }
    }
    assert_eq!(count(&p), 16 + 8 + 32);
}

#[test]
fn barrel_channel_names_and_colours() {
    assert_eq!(channel_name(0), "Chute");
    assert_eq!(channel_name(1), "Drop");
    assert_eq!(channel_name(2), "Vib 00");
    assert_eq!(channel_name(11), "Vib 09");
    assert_eq!(channel_name(12), "Vib 10");
    assert_eq!(channel_name(38), "Vib 36");
    assert_eq!(channel_name(39), "?");
    assert_eq!(channel_color_rgb(0), (51, 115, 230));
    assert_eq!(channel_color_rgb(1), (242, 89, 38));
    assert_eq!(channel_color_rgb(20), (80, 200, 120));
}

#[test]
fn crossing_collects_pegs_in_order() {
    let mut b = BarrelParams::default();
    b.advance_to_step(0, 12);
    assert_eq!(b.current_step, 12);
    // steps 1..=12: vib peg at step 6 (F4 = ch 14), drop + chute at 12
    assert_eq!(b.pending_spawns, vec![(6, 14), (12, 0), (12, 1), (12, 18)]);
}

#[test]
fn crossing_wraps_around_the_loop() {
    let mut b = BarrelParams::default();
    assert_eq!(steps_crossed(190, 1), 3);
    b.advance_to_step(190, 1);
    assert_eq!(b.pending_spawns, vec![(0, 0), (0, 11)]);
}

#[test]
fn standing_still_keeps_pending() {
    let mut b = BarrelParams::default();
    b.pending_spawns.push((5, 5));
    b.advance_to_step(3, 3);
    assert_eq!(b.pending_spawns, vec![(5, 5)]);
    assert_eq!(b.current_step, 3);
}

#[test]
fn spawn_plan_pairs_chute_and_drop() {
    let plan = plan_barrel_spawns(&[(12, 0), (12, 1), (12, 18), (24, 0), (36, 1), (48, 3)]);
    assert_eq!(
        plan,
        vec![
            BarrelSpawn::Paired { step: 12 },
            BarrelSpawn::Vib { step: 12, bar_idx: 16 },
            BarrelSpawn::Chute { step: 24 },
            BarrelSpawn::Drop { step: 36 },
            BarrelSpawn::Vib { step: 48, bar_idx: 1 },
        ]
    );
    assert!(plan_barrel_spawns(&[]).is_empty());
}

#[test]
fn spawn_count_is_triggers_minus_paired_steps() {
    let triggers = [(0, 0), (0, 1), (6, 1), (6, 0), (12, 0), (18, 1), (18, 2), (24, 0), (24, 1)];
    let plan = plan_barrel_spawns(&triggers);
    // Steps 0, 6 and 24 have both a chute and a drop trigger.
    assert_eq!(plan.len(), triggers.len() - 3);
    let paired: Vec<usize> = plan
        .iter()
        .filter_map(|s| match s {
            BarrelSpawn::Paired { step } => Some(*step),
            _ => None,
        })
        .collect();
    assert_eq!(paired, vec![0, 6, 24]);
}

#[test]
fn taking_the_plan_drains_the_triggers() {
    let mut b = BarrelParams::default();
    b.clear_pattern();
    b.toggle_cell(1, 0);
    b.toggle_cell(1, 1);
    b.toggle_cell(2, 1);
    b.toggle_cell(2, 4);
    b.advance_to_step(0, 2);
    assert_eq!(b.pending_spawns, vec![(1, 0), (1, 1), (2, 1), (2, 4)]);
    let plan = b.take_spawn_plan();
    assert_eq!(
        plan,
        vec![
            BarrelSpawn::Paired { step: 1 },
            BarrelSpawn::Drop { step: 2 },
            BarrelSpawn::Vib { step: 2, bar_idx: 2 },
        ]
    );
    assert!(b.pending_spawns.is_empty());
    assert_eq!(b.current_step, 2);
}

#[test]
fn editing_cells() {
    let mut b = BarrelParams::default();
    b.clear_pattern();
    assert_eq!(count(&b.pattern), 0);
    b.toggle_cell(5, 7);
    assert!(b.pattern[5][7]);
    b.toggle_cell(5, 7);
    assert!(!b.pattern[5][7]);
    b.begin_paint(1, 1, false);
    assert_eq!(b.drag_paint_val, Some(true));
    b.continue_paint(2, 1);
    b.continue_paint(3, 1);
    b.end_paint();
    b.continue_paint(4, 1);
    assert!(b.pattern[1][1] && b.pattern[2][1] && b.pattern[3][1] && !b.pattern[4][1]);
    b.begin_paint(2, 1, true);
    assert_eq!(b.drag_paint_val, Some(false));
    assert!(!b.pattern[2][1]);
}

#[test]
fn quick_fills() {
    let mut b = BarrelParams::default();
    b.fill_every(1, 6);
    for s in 0..BARREL_N_STEPS {
        assert_eq!(b.pattern[s][1], s % 6 == 0);
    }
    b.fill_every(0, 4);
    assert_eq!((0..BARREL_N_STEPS).filter(|&s| b.pattern[s][0]).count(), 48);
    b.fill_vib_arpeggio();
    let vib: Vec<(usize, usize)> = (0..BARREL_N_STEPS)
        .flat_map(|s| (2..BARREL_N_CHANNELS).map(move |c| (s, c)))
        .filter(|&(s, c)| b.pattern[s][c])
        .collect();
    assert_eq!(
        vib,
        vec![(0, 2), (24, 6), (48, 9), (72, 14), (96, 2), (120, 6), (144, 9), (168, 14)]
    );
    b.clear_vib_rows();
    b.clear_row(1);
    assert_eq!(count(&b.pattern), 48);
}

#[test]
fn reset_position_rewinds_reader() {
    let mut b = BarrelParams::default();
    b.advance_to_step(0, 40);
    b.reset_position();
    assert_eq!(b.current_step, 0);
}

#[test]
fn grid_subdivisions() {
    assert_eq!(step_subdivision(0), StepSubdivision::Beat);
    assert_eq!(step_subdivision(24), StepSubdivision::Beat);
    assert_eq!(step_subdivision(6), StepSubdivision::Eighth);
    assert_eq!(step_subdivision(4), StepSubdivision::Triplet);
    assert_eq!(step_subdivision(8), StepSubdivision::Triplet);
    assert_eq!(step_subdivision(5), StepSubdivision::Other);
}
