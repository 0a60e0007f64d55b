//! Barrel sequencer: a peg pattern of `BARREL_N_STEPS` steps by
//! `BARREL_N_CHANNELS` channels, played by rotating the barrel past a reader.
//!
//! Channel 0 is the chute marble, channel 1 the vertical snare drop and
//! channels 2..=38 the vibraphone bars 0..=36.  The loop is 16 beats of
//! `BARREL_STEPS_PER_BEAT` steps each (4 bars of 4/4).
use vstd::prelude::*;
use crate::wheel::{digit_name, digit_str};

verus! {

broadcast use {
    vstd::seq_lib::lemma_seq_concat_contains_all_elements,
    vstd::seq_lib::lemma_seq_contains_after_push,
    vstd::seq_lib::lemma_seq_empty_contains_nothing,
};

pub const BARREL_CH_CHUTE: usize = 0;
pub const BARREL_CH_DROP: usize = 1;
pub const BARREL_CH_VIB_FIRST: usize = 2;
pub const BARREL_N_CHANNELS: usize = 39;
pub const BARREL_STEPS_PER_BEAT: usize = 12;
pub const BARREL_N_STEPS: usize = 192;

/// Sequencer state.  The barrel's angle and speed are continuous quantities
/// kept by the caller, which reports the step under the reader each frame.
pub struct BarrelParams {
    pub enabled: bool,
    /// Step index currently aligned with the reader bar.
    pub current_step: usize,
    /// Active pattern: `pattern[step][channel]`.
    pub pattern: Vec<Vec<bool>>,
    /// Drag-paint state of the pattern editor.
    pub drag_paint_val: Option<bool>,
    pub editor_open: bool,
    pub show_pegs: bool,
    /// Pending (step, channel) triggers, written when the reader crosses
    /// steps and drained by the marble spawner.
    pub pending_spawns: Vec<(usize, usize)>,
}

/// The cells of a pattern, row by row.
pub open spec fn cells(pattern: Seq<Vec<bool>>) -> Seq<Seq<bool>> {
    pattern.map_values(|row: Vec<bool>| row@)
}

/// A full pattern: one row per step, one cell per channel in each row.
pub open spec fn pattern_wf(c: Seq<Seq<bool>>) -> bool {
    &&& c.len() == BARREL_N_STEPS
    &&& forall|s: int| 0 <= s < c.len() ==> (#[trigger] c[s]).len() == BARREL_N_CHANNELS
}

/// Vibraphone channel of eighth note `k` of the 8-beat melody phrase: an
/// ascending Dm7 arpeggio (D4 F4 A4 C5 D5 F5 A5 F5) then a descending scale
/// (D5 C5 A4 G4 F4 E4 D4 A3).
pub open spec fn phrase_channel(k: int) -> int {
    if k == 0 { 11 } else if k == 1 { 14 } else if k == 2 { 18 } else if k == 3 { 21 }
    else if k == 4 { 23 } else if k == 5 { 26 } else if k == 6 { 30 } else if k == 7 { 26 }
    else if k == 8 { 23 } else if k == 9 { 21 } else if k == 10 { 18 } else if k == 11 { 16 }
    else if k == 12 { 14 } else if k == 13 { 13 } else if k == 14 { 11 } else { 6 }
}

/// The default loop, approximating the Marble Machine main loop: the chute
/// marble on every beat, the snare drop on beats 2 and 4 of every bar, and
/// the 8-beat vibraphone phrase in eighth notes, played twice.
pub open spec fn default_cell(step: int, ch: int) -> bool {
    ||| ch == BARREL_CH_CHUTE && step % 12 == 0
    ||| ch == BARREL_CH_DROP && (step % 48 == 12 || step % 48 == 36)
    ||| step % 6 == 0 && ch == phrase_channel((step % 96) / 6)
}

fn phrase_channel_exec(k: usize) -> (ch: usize)
    requires
        k < 16,
    ensures
        ch == phrase_channel(k as int),
{
    if k == 0 { 11 } else if k == 1 { 14 } else if k == 2 { 18 } else if k == 3 { 21 }
    else if k == 4 { 23 } else if k == 5 { 26 } else if k == 6 { 30 } else if k == 7 { 26 }
    else if k == 8 { 23 } else if k == 9 { 21 } else if k == 10 { 18 } else if k == 11 { 16 }
    else if k == 12 { 14 } else if k == 13 { 13 } else if k == 14 { 11 } else { 6 }
}

fn default_cell_exec(step: usize, ch: usize) -> (b: bool)
    requires
        step < BARREL_N_STEPS,
        ch < BARREL_N_CHANNELS,
    ensures
        b == default_cell(step as int, ch as int),
{
    (ch == BARREL_CH_CHUTE && step % 12 == 0) || (ch == BARREL_CH_DROP && (step % 48 == 12
        || step % 48 == 36)) || (step % 6 == 0 && ch == phrase_channel_exec((step % 96) / 6))
}

/// The default pattern approximating the Marble Machine (Wintergatan) main
/// loop (192 steps = 16 beats = 4 bars of 4/4).
pub fn marble_machine_default_pattern() -> (p: Vec<Vec<bool>>)
    ensures
        pattern_wf(cells(p@)),
        forall|s: int, c: int|
            0 <= s < BARREL_N_STEPS && 0 <= c < BARREL_N_CHANNELS ==> #[trigger] cells(p@)[s][c]
                == default_cell(s, c),
{
    let mut p: Vec<Vec<bool>> = Vec::new();
    let mut s: usize = 0;
    while s < BARREL_N_STEPS
        invariant
            s <= BARREL_N_STEPS,
            p@.len() == s,
            forall|i: int| 0 <= i < s ==> (#[trigger] p@[i])@.len() == BARREL_N_CHANNELS,
            forall|i: int, c: int|
                0 <= i < s && 0 <= c < BARREL_N_CHANNELS ==> #[trigger] p@[i]@[c] == default_cell(
                    i,
                    c,
                ),
        decreases BARREL_N_STEPS - s,
    {
        let mut row: Vec<bool> = Vec::new();
        let mut c: usize = 0;
        while c < BARREL_N_CHANNELS
            invariant
                s < BARREL_N_STEPS,
                c <= BARREL_N_CHANNELS,
                row@.len() == c,
                forall|j: int| 0 <= j < c ==> #[trigger] row@[j] == default_cell(s as int, j),
            decreases BARREL_N_CHANNELS - c,
        {
            row.push(default_cell_exec(s, c));
            c = c + 1;
        }
        p.push(row);
        s = s + 1;
    }
    p
}

/// Label of vibraphone channel `k` (bar `k`): "Vib " and two digits.
pub open spec fn vib_label(k: int) -> Seq<char> {
    "Vib "@ + digit_name(k / 10) + digit_name(k % 10)
}

/// Display name of barrel channel `ch`.
pub open spec fn spec_channel_name(ch: int) -> Seq<char> {
    if ch == BARREL_CH_CHUTE {
        "Chute"@
    } else if ch == BARREL_CH_DROP {
        "Drop"@
    } else if 2 <= ch < BARREL_N_CHANNELS {
        vib_label(ch - 2)
    } else {
        "?"@
    }
}

/// Returns the display name of a barrel channel.
pub fn channel_name(ch: usize) -> (name: String)
    ensures
        name@ == spec_channel_name(ch as int),
{
    if ch == BARREL_CH_CHUTE {
        String::from_str("Chute")
    } else if ch == BARREL_CH_DROP {
        String::from_str("Drop")
    } else if ch < BARREL_N_CHANNELS {
        let k = ch - BARREL_CH_VIB_FIRST;
        let mut s = String::from_str("Vib ");
        s.append(digit_str(k / 10));
        s.append(digit_str(k % 10));
        s
    } else {
        String::from_str("?")
    }
}

/// Colour used in the pattern grid for each channel group: blue for the
/// chute marble, orange for the drop marble, green for the vibraphone.
pub open spec fn spec_channel_color(ch: int) -> (u8, u8, u8) {
    if ch == BARREL_CH_CHUTE {
        (51, 115, 230)
    } else if ch == BARREL_CH_DROP {
        (242, 89, 38)
    } else {
        (80, 200, 120)
    }
}

/// Colour used in the pattern grid for each channel group.
pub fn channel_color_rgb(ch: usize) -> (c: (u8, u8, u8))
    ensures
        c == spec_channel_color(ch as int),
{
    if ch == BARREL_CH_CHUTE {
        (51, 115, 230)
    } else if ch == BARREL_CH_DROP {
        (242, 89, 38)
    } else {
        (80, 200, 120)
    }
}


/// Number of step boundaries the reader crossed going from step `prev` to a
/// different step `curr` (the barrel only turns forward, wrapping at the end).
pub open spec fn spec_steps_crossed(prev: int, curr: int) -> int {
    if curr > prev {
        curr - prev
    } else {
        BARREL_N_STEPS - prev + curr
    }
}

/// The pegs of `row` (step `step`) among its first `k` channels, as
/// (step, channel) triggers in channel order.
pub open spec fn row_triggers(row: Seq<bool>, step: int, k: int) -> Seq<(usize, usize)>
    decreases k,
{
    if k <= 0 {
        Seq::empty()
    } else {
        row_triggers(row, step, k - 1) + if row[k - 1] {
            seq![(step as usize, (k - 1) as usize)]
        } else {
            Seq::empty()
        }
    }
}

/// The triggers met when the reader crosses the `n` steps that follow step
/// `prev`: those steps in playing order, each with its pegs in channel order.
pub open spec fn crossing_triggers(c: Seq<Seq<bool>>, prev: int, n: int) -> Seq<(usize, usize)>
    decreases n,
{
    if n <= 0 {
        Seq::empty()
    } else {
        let step = (prev + n) % (BARREL_N_STEPS as int);
        crossing_triggers(c, prev, n - 1) + row_triggers(c[step], step, BARREL_N_CHANNELS as int)
    }
}


/// A trigger is among those of a row's first `k` channels exactly when it
/// names the row's step and one of those channels that holds a peg.
pub proof fn lemma_row_triggers_contains(row: Seq<bool>, step: int, k: int, t: (usize, usize))
    requires
        0 <= step < BARREL_N_STEPS,
        0 <= k <= row.len(),
        k <= BARREL_N_CHANNELS,
    ensures
        row_triggers(row, step, k).contains(t) <==> (t.0 == step && t.1 < k && row[t.1 as int]),
    decreases k,
{
    if k == 0 {
        assert(!Seq::<(usize, usize)>::empty().contains(t));
    } else {
        lemma_row_triggers_contains(row, step, k - 1, t);
        let x = (step as usize, (k - 1) as usize);
        let head = row_triggers(row, step, k - 1);
        if row[k - 1] {
            assert(row_triggers(row, step, k) == head + seq![x]);
            assert(seq![x].contains(t) <==> t == x) by {
                if t == x {
                    assert(seq![x][0] == t);
                }
            }
        } else {
            assert(row_triggers(row, step, k) =~= head);
        }
    }
}

/// How many steps past `prev` the step `s` lies, going forward around the
/// barrel (0 for `prev` itself).
pub open spec fn steps_ahead(prev: int, s: int) -> int {
    (s - prev + BARREL_N_STEPS) % (BARREL_N_STEPS as int)
}

/// Law of the sequencer: after crossing `n` steps from `prev`, a (step,
/// channel) trigger is pending exactly when that step is one of the `n`
/// steps crossed and the pattern has a peg there.
pub proof fn lemma_crossing_triggers_contains(
    c: Seq<Seq<bool>>,
    prev: int,
    n: int,
    t: (usize, usize),
)
    requires
        pattern_wf(c),
        0 <= prev < BARREL_N_STEPS,
        0 <= n < BARREL_N_STEPS,
    ensures
        crossing_triggers(c, prev, n).contains(t) <==> {
            &&& t.0 < BARREL_N_STEPS
            &&& t.1 < BARREL_N_CHANNELS
            &&& c[t.0 as int][t.1 as int]
            &&& 1 <= steps_ahead(prev, t.0 as int) <= n
        },
    decreases n,
{
    if n > 0 {
        lemma_crossing_triggers_contains(c, prev, n - 1, t);
        let step = (prev + n) % (BARREL_N_STEPS as int);
        lemma_row_triggers_contains(c[step], step, BARREL_N_CHANNELS as int, t);
        assert(steps_ahead(prev, step) == n);
        if t.0 < BARREL_N_STEPS && steps_ahead(prev, t.0 as int) == n {
            assert(t.0 == step);
        }
    }
}

proof fn lemma_row_triggers_no_duplicates(row: Seq<bool>, step: int, k: int)
    requires
        0 <= step < BARREL_N_STEPS,
        0 <= k <= row.len(),
        k <= BARREL_N_CHANNELS,
    ensures
        row_triggers(row, step, k).no_duplicates(),
    decreases k,
{
    if k > 0 {
        lemma_row_triggers_no_duplicates(row, step, k - 1);
        let x = (step as usize, (k - 1) as usize);
        if row[k - 1] {
            lemma_row_triggers_contains(row, step, k - 1, x);
            lemma_push_no_duplicates(row_triggers(row, step, k - 1), x);
        } else {
            assert(row_triggers(row, step, k) =~= row_triggers(row, step, k - 1));
        }
    }
}

/// No trigger is met twice while crossing fewer steps than the barrel has:
/// each crossed step is met once, and each of its pegs once.
pub proof fn lemma_crossing_triggers_no_duplicates(c: Seq<Seq<bool>>, prev: int, n: int)
    requires
        pattern_wf(c),
        0 <= prev < BARREL_N_STEPS,
        0 <= n < BARREL_N_STEPS,
    ensures
        crossing_triggers(c, prev, n).no_duplicates(),
    decreases n,
{
    if n > 0 {
        lemma_crossing_triggers_no_duplicates(c, prev, n - 1);
        let step = (prev + n) % (BARREL_N_STEPS as int);
        let a = crossing_triggers(c, prev, n - 1);
        let b = row_triggers(c[step], step, BARREL_N_CHANNELS as int);
        lemma_row_triggers_no_duplicates(c[step], step, BARREL_N_CHANNELS as int);
        assert(steps_ahead(prev, step) == n);
        assert forall|i: int, j: int| 0 <= i < a.len() && 0 <= j < b.len() implies a[i] != b[j] by {
            lemma_crossing_triggers_contains(c, prev, n - 1, a[i]);
            lemma_row_triggers_contains(c[step], step, BARREL_N_CHANNELS as int, b[j]);
            assert(a.contains(a[i]));
            assert(b.contains(b[j]));
        }
        vstd::seq_lib::lemma_no_dup_in_concat(a, b);
    }
}

/// Number of step boundaries crossed from step `prev` to step `curr`.
pub fn steps_crossed(prev: usize, curr: usize) -> (n: usize)
    requires
        prev < BARREL_N_STEPS,
        curr < BARREL_N_STEPS,
        prev != curr,
    ensures
        n == spec_steps_crossed(prev as int, curr as int),
        0 < n < BARREL_N_STEPS,
{
    if curr > prev {
        curr - prev
    } else {
        BARREL_N_STEPS - prev + curr
    }
}

/// Crossing from `prev` to `curr` ends on `curr`: the last step crossed is
/// the step now under the reader.
pub proof fn lemma_crossing_ends_at_current(prev: int, curr: int)
    requires
        0 <= prev < BARREL_N_STEPS,
        0 <= curr < BARREL_N_STEPS,
        prev != curr,
    ensures
        0 < spec_steps_crossed(prev, curr) < BARREL_N_STEPS,
        (prev + spec_steps_crossed(prev, curr)) % (BARREL_N_STEPS as int) == curr,
{
}


/// One spawn decided from the barrel's triggers; each spawn starts one run.
#[derive(Clone, Copy, Debug, PartialEq, Eq, Structural)]
pub enum BarrelSpawn {
    /// A chute marble and a drop marble released together on `step`, sharing
    /// one run so their arrival times can be compared.
    Paired { step: usize },
    /// A chute marble alone.
    Chute { step: usize },
    /// A drop marble alone.
    Drop { step: usize },
    /// A marble onto vibraphone bar `bar_idx`.
    Vib { step: usize, bar_idx: u32 },
}

/// The steps of the triggers on channel `ch`, in trigger order.
pub open spec fn steps_on_channel(t: Seq<(usize, usize)>, ch: usize) -> Seq<usize>
    decreases t.len(),
{
    if t.len() == 0 {
        Seq::empty()
    } else {
        steps_on_channel(t.drop_last(), ch) + if t.last().1 == ch {
            seq![t.last().0]
        } else {
            Seq::empty()
        }
    }
}

/// The steps of `cs` that also occur in `ds`, in the order of `cs`.
pub open spec fn steps_also_in(cs: Seq<usize>, ds: Seq<usize>) -> Seq<usize>
    decreases cs.len(),
{
    if cs.len() == 0 {
        Seq::empty()
    } else {
        steps_also_in(cs.drop_last(), ds) + if ds.contains(cs.last()) {
            seq![cs.last()]
        } else {
            Seq::empty()
        }
    }
}

/// The chute steps that also have a drop trigger: these are paired.
pub open spec fn paired_steps(t: Seq<(usize, usize)>) -> Seq<usize> {
    steps_also_in(steps_on_channel(t, BARREL_CH_CHUTE), steps_on_channel(t, BARREL_CH_DROP))
}

/// The spawn of a single trigger that is not part of a pair: a chute or drop
/// marble whose step is not paired, or a vibraphone marble.
pub open spec fn single_spawn(tr: (usize, usize), paired: Seq<usize>) -> Seq<BarrelSpawn> {
    if tr.1 == BARREL_CH_CHUTE && !paired.contains(tr.0) {
        seq![BarrelSpawn::Chute { step: tr.0 }]
    } else if tr.1 == BARREL_CH_DROP && !paired.contains(tr.0) {
        seq![BarrelSpawn::Drop { step: tr.0 }]
    } else if tr.1 >= BARREL_CH_VIB_FIRST {
        seq![BarrelSpawn::Vib { step: tr.0, bar_idx: (tr.1 - BARREL_CH_VIB_FIRST) as u32 }]
    } else {
        Seq::empty()
    }
}

pub open spec fn single_spawns(t: Seq<(usize, usize)>, paired: Seq<usize>) -> Seq<BarrelSpawn>
    decreases t.len(),
{
    if t.len() == 0 {
        Seq::empty()
    } else {
        single_spawns(t.drop_last(), paired) + single_spawn(t.last(), paired)
    }
}

/// The spawns for a list of triggers: first one paired spawn per paired
/// step, then, in trigger order, the remaining chute, drop and vibraphone
/// triggers.
pub open spec fn spec_spawn_plan(t: Seq<(usize, usize)>) -> Seq<BarrelSpawn> {
    paired_steps(t).map_values(|s: usize| BarrelSpawn::Paired { step: s }) + single_spawns(
        t,
        paired_steps(t),
    )
}


proof fn lemma_drop_last_push<A>(t: Seq<A>)
    requires
        t.len() > 0,
    ensures
        t == t.drop_last().push(t.last()),
{
    assert(t =~= t.drop_last().push(t.last()));
}

proof fn lemma_singleton_contains<A>(x: A, y: A)
    ensures
        seq![x].contains(y) <==> x == y,
{
    if x == y {
        assert(seq![x][0] == y);
    }
}

proof fn lemma_steps_on_channel_contains(t: Seq<(usize, usize)>, ch: usize, s: usize)
    ensures
        steps_on_channel(t, ch).contains(s) <==> t.contains((s, ch)),
    decreases t.len(),
{
    if t.len() > 0 {
        lemma_steps_on_channel_contains(t.drop_last(), ch, s);
        lemma_drop_last_push(t);
        lemma_singleton_contains(t.last().0, s);
    }
}

proof fn lemma_steps_also_in_contains(cs: Seq<usize>, ds: Seq<usize>, s: usize)
    ensures
        steps_also_in(cs, ds).contains(s) <==> cs.contains(s) && ds.contains(s),
    decreases cs.len(),
{
    if cs.len() > 0 {
        lemma_steps_also_in_contains(cs.drop_last(), ds, s);
        lemma_drop_last_push(cs);
        lemma_singleton_contains(cs.last(), s);
    }
}

/// A step is paired exactly when it has both a chute and a drop trigger.
pub proof fn lemma_paired_steps_contains(t: Seq<(usize, usize)>, s: usize)
    ensures
        paired_steps(t).contains(s) <==> t.contains((s, BARREL_CH_CHUTE)) && t.contains(
            (s, BARREL_CH_DROP),
        ),
{
    lemma_steps_on_channel_contains(t, BARREL_CH_CHUTE, s);
    lemma_steps_on_channel_contains(t, BARREL_CH_DROP, s);
    lemma_steps_also_in_contains(
        steps_on_channel(t, BARREL_CH_CHUTE),
        steps_on_channel(t, BARREL_CH_DROP),
        s,
    );
}

proof fn lemma_single_spawns_contains(t: Seq<(usize, usize)>, paired: Seq<usize>, s: usize)
    ensures
        single_spawns(t, paired).contains(BarrelSpawn::Chute { step: s }) <==> t.contains(
            (s, BARREL_CH_CHUTE),
        ) && !paired.contains(s),
        single_spawns(t, paired).contains(BarrelSpawn::Drop { step: s }) <==> t.contains(
            (s, BARREL_CH_DROP),
        ) && !paired.contains(s),
        !single_spawns(t, paired).contains(BarrelSpawn::Paired { step: s }),
    decreases t.len(),
{
    if t.len() > 0 {
        lemma_single_spawns_contains(t.drop_last(), paired, s);
        lemma_drop_last_push(t);
        let tr = t.last();
        lemma_singleton_contains(BarrelSpawn::Chute { step: tr.0 }, BarrelSpawn::Chute { step: s });
        lemma_singleton_contains(BarrelSpawn::Drop { step: tr.0 }, BarrelSpawn::Drop { step: s });
        lemma_singleton_contains(BarrelSpawn::Chute { step: tr.0 }, BarrelSpawn::Drop { step: s });
        lemma_singleton_contains(BarrelSpawn::Drop { step: tr.0 }, BarrelSpawn::Chute { step: s });
        lemma_singleton_contains(
            BarrelSpawn::Vib { step: tr.0, bar_idx: (tr.1 - BARREL_CH_VIB_FIRST) as u32 },
            BarrelSpawn::Chute { step: s },
        );
        lemma_singleton_contains(
            BarrelSpawn::Vib { step: tr.0, bar_idx: (tr.1 - BARREL_CH_VIB_FIRST) as u32 },
            BarrelSpawn::Drop { step: s },
        );
        lemma_singleton_contains(BarrelSpawn::Chute { step: tr.0 }, BarrelSpawn::Paired { step: s });
        lemma_singleton_contains(BarrelSpawn::Drop { step: tr.0 }, BarrelSpawn::Paired { step: s });
        lemma_singleton_contains(
            BarrelSpawn::Vib { step: tr.0, bar_idx: (tr.1 - BARREL_CH_VIB_FIRST) as u32 },
            BarrelSpawn::Paired { step: s },
        );
    }
}

/// Law of the spawner: a step with both a chute and a drop trigger releases
/// the two marbles together as one paired spawn; a chute (or drop) trigger
/// whose step has no drop (or chute) trigger releases its marble alone; and
/// neither marble of a paired step is released a second time on its own.
pub proof fn lemma_spawn_plan_pairs(t: Seq<(usize, usize)>, s: usize)
    ensures
        spec_spawn_plan(t).contains(BarrelSpawn::Paired { step: s }) <==> t.contains(
            (s, BARREL_CH_CHUTE),
        ) && t.contains((s, BARREL_CH_DROP)),
        spec_spawn_plan(t).contains(BarrelSpawn::Chute { step: s }) <==> t.contains(
            (s, BARREL_CH_CHUTE),
        ) && !t.contains((s, BARREL_CH_DROP)),
        spec_spawn_plan(t).contains(BarrelSpawn::Drop { step: s }) <==> t.contains(
            (s, BARREL_CH_DROP),
        ) && !t.contains((s, BARREL_CH_CHUTE)),
{
    let paired = paired_steps(t);
    let f = |x: usize| BarrelSpawn::Paired { step: x };
    let head = paired.map_values(f);
    lemma_paired_steps_contains(t, s);
    lemma_single_spawns_contains(t, paired, s);
    if paired.contains(s) {
        let k = choose|k: int| 0 <= k < paired.len() && paired[k] == s;
        assert(head[k] == BarrelSpawn::Paired { step: s });
    }
    if head.contains(BarrelSpawn::Paired { step: s }) {
        let k = choose|k: int| 0 <= k < head.len() && head[k] == BarrelSpawn::Paired { step: s };
        assert(paired[k] == s);
    }
    assert(!head.contains(BarrelSpawn::Chute { step: s }));
    assert(!head.contains(BarrelSpawn::Drop { step: s }));
}

proof fn lemma_single_spawns_vib(t: Seq<(usize, usize)>, paired: Seq<usize>, s: usize, c: usize)
    requires
        forall|i: int| 0 <= i < t.len() ==> #[trigger] t[i].1 < BARREL_N_CHANNELS,
        BARREL_CH_VIB_FIRST <= c < BARREL_N_CHANNELS,
    ensures
        single_spawns(t, paired).contains(
            BarrelSpawn::Vib { step: s, bar_idx: (c - BARREL_CH_VIB_FIRST) as u32 },
        ) <==> t.contains((s, c)),
    decreases t.len(),
{
    if t.len() > 0 {
        let init = t.drop_last();
        assert forall|i: int| 0 <= i < init.len() implies #[trigger] init[i].1 < BARREL_N_CHANNELS by {
            assert(init[i] == t[i]);
        }
        lemma_single_spawns_vib(init, paired, s, c);
        lemma_drop_last_push(t);
        let tr = t.last();
        assert(tr == t[t.len() - 1]);
        let v = BarrelSpawn::Vib { step: s, bar_idx: (c - BARREL_CH_VIB_FIRST) as u32 };
        lemma_singleton_contains(BarrelSpawn::Chute { step: tr.0 }, v);
        lemma_singleton_contains(BarrelSpawn::Drop { step: tr.0 }, v);
        lemma_singleton_contains(
            BarrelSpawn::Vib { step: tr.0, bar_idx: (tr.1 - BARREL_CH_VIB_FIRST) as u32 },
            v,
        );
        lemma_singleton_contains(tr, (s, c));
    }
}

/// Law of the spawner for the vibraphone: when every trigger names a barrel
/// channel, each vibraphone trigger `(s, c)` releases one marble onto bar
/// `c - 2` on step `s`, and no other vibraphone marble is released.
pub proof fn lemma_spawn_plan_vib(t: Seq<(usize, usize)>, s: usize, c: usize)
    requires
        forall|i: int| 0 <= i < t.len() ==> #[trigger] t[i].1 < BARREL_N_CHANNELS,
        BARREL_CH_VIB_FIRST <= c < BARREL_N_CHANNELS,
    ensures
        spec_spawn_plan(t).contains(
            BarrelSpawn::Vib { step: s, bar_idx: (c - BARREL_CH_VIB_FIRST) as u32 },
        ) <==> t.contains((s, c)),
{
    let paired = paired_steps(t);
    let head = paired.map_values(|x: usize| BarrelSpawn::Paired { step: x });
    let v = BarrelSpawn::Vib { step: s, bar_idx: (c - BARREL_CH_VIB_FIRST) as u32 };
    lemma_single_spawns_vib(t, paired, s, c);
    assert(!head.contains(v));
}

/// How many elements of `xs` occur in `ys`.
pub open spec fn count_in(xs: Seq<usize>, ys: Seq<usize>) -> nat
    decreases xs.len(),
{
    if xs.len() == 0 {
        0
    } else {
        count_in(xs.drop_last(), ys) + if ys.contains(xs.last()) {
            1nat
        } else {
            0nat
        }
    }
}

/// How many triggers of `t` are chute or drop triggers on a step of `paired`.
pub open spec fn paired_trigger_count(t: Seq<(usize, usize)>, paired: Seq<usize>) -> nat
    decreases t.len(),
{
    if t.len() == 0 {
        0
    } else {
        paired_trigger_count(t.drop_last(), paired) + if (t.last().1 == BARREL_CH_CHUTE
            || t.last().1 == BARREL_CH_DROP) && paired.contains(t.last().0) {
            1nat
        } else {
            0nat
        }
    }
}

proof fn lemma_drop_last_no_duplicates<A>(t: Seq<A>)
    requires
        t.len() > 0,
        t.no_duplicates(),
    ensures
        t.drop_last().no_duplicates(),
        !t.drop_last().contains(t.last()),
{
    let d = t.drop_last();
    assert forall|i: int, j: int| 0 <= i < d.len() && 0 <= j < d.len() && i != j implies d[i]
        != d[j] by {
        assert(d[i] == t[i] && d[j] == t[j]);
    }
    if d.contains(t.last()) {
        let k = choose|k: int| 0 <= k < d.len() && d[k] == t.last();
        assert(t[k] == t[t.len() - 1]);
    }
}

proof fn lemma_push_no_duplicates<A>(a: Seq<A>, x: A)
    requires
        a.no_duplicates(),
        !a.contains(x),
    ensures
        (a + seq![x]).no_duplicates(),
{
    let b = a + seq![x];
    assert forall|i: int, j: int| 0 <= i < b.len() && 0 <= j < b.len() && i != j implies b[i]
        != b[j] by {
        if i < a.len() && j == a.len() {
            assert(a[i] == b[i]);
        }
        if j < a.len() && i == a.len() {
            assert(a[j] == b[j]);
        }
    }
}

proof fn lemma_steps_on_channel_no_duplicates(t: Seq<(usize, usize)>, ch: usize)
    requires
        t.no_duplicates(),
    ensures
        steps_on_channel(t, ch).no_duplicates(),
    decreases t.len(),
{
    if t.len() > 0 {
        lemma_drop_last_no_duplicates(t);
        lemma_steps_on_channel_no_duplicates(t.drop_last(), ch);
        if t.last().1 == ch {
            lemma_steps_on_channel_contains(t.drop_last(), ch, t.last().0);
            lemma_push_no_duplicates(steps_on_channel(t.drop_last(), ch), t.last().0);
        } else {
            assert(steps_on_channel(t, ch) =~= steps_on_channel(t.drop_last(), ch));
        }
    }
}

proof fn lemma_steps_also_in_no_duplicates(cs: Seq<usize>, ds: Seq<usize>)
    requires
        cs.no_duplicates(),
    ensures
        steps_also_in(cs, ds).no_duplicates(),
        steps_also_in(cs, ds).len() == count_in(cs, ds),
    decreases cs.len(),
{
    if cs.len() > 0 {
        lemma_drop_last_no_duplicates(cs);
        lemma_steps_also_in_no_duplicates(cs.drop_last(), ds);
        if ds.contains(cs.last()) {
            lemma_steps_also_in_contains(cs.drop_last(), ds, cs.last());
            lemma_push_no_duplicates(steps_also_in(cs.drop_last(), ds), cs.last());
        } else {
            assert(steps_also_in(cs, ds) =~= steps_also_in(cs.drop_last(), ds));
        }
    }
}

/// `count_in` depends only on which elements of `xs` the second sequence holds.
proof fn lemma_count_in_congruent(xs: Seq<usize>, ys: Seq<usize>, zs: Seq<usize>)
    requires
        forall|x: usize| xs.contains(x) ==> (ys.contains(x) <==> zs.contains(x)),
    ensures
        count_in(xs, ys) == count_in(xs, zs),
    decreases xs.len(),
{
    if xs.len() > 0 {
        lemma_drop_last_push(xs);
        lemma_count_in_congruent(xs.drop_last(), ys, zs);
    }
}

proof fn lemma_count_in_push(xs: Seq<usize>, ys: Seq<usize>, y: usize)
    requires
        xs.no_duplicates(),
        !ys.contains(y),
    ensures
        count_in(xs, ys.push(y)) == count_in(xs, ys) + if xs.contains(y) {
            1nat
        } else {
            0nat
        },
    decreases xs.len(),
{
    if xs.len() > 0 {
        lemma_drop_last_no_duplicates(xs);
        lemma_drop_last_push(xs);
        lemma_count_in_push(xs.drop_last(), ys, y);
    }
}

/// Counting common elements is symmetric on sequences without duplicates.
proof fn lemma_count_in_symmetric(xs: Seq<usize>, ys: Seq<usize>)
    requires
        xs.no_duplicates(),
        ys.no_duplicates(),
    ensures
        count_in(xs, ys) == count_in(ys, xs),
    decreases ys.len(),
{
    if ys.len() > 0 {
        let y = ys.last();
        let rest = ys.drop_last();
        lemma_drop_last_no_duplicates(ys);
        lemma_drop_last_push(ys);
        lemma_count_in_symmetric(xs, rest);
        lemma_count_in_push(xs, rest, y);
    } else {
        lemma_count_in_none(xs, ys);
    }
}

proof fn lemma_count_in_none(xs: Seq<usize>, ys: Seq<usize>)
    requires
        ys.len() == 0,
    ensures
        count_in(xs, ys) == 0,
    decreases xs.len(),
{
    if xs.len() > 0 {
        lemma_count_in_none(xs.drop_last(), ys);
    }
}

proof fn lemma_single_spawns_len(t: Seq<(usize, usize)>, paired: Seq<usize>)
    ensures
        single_spawns(t, paired).len() + paired_trigger_count(t, paired) == t.len(),
    decreases t.len(),
{
    if t.len() > 0 {
        lemma_single_spawns_len(t.drop_last(), paired);
    }
}

proof fn lemma_paired_trigger_count_split(t: Seq<(usize, usize)>, paired: Seq<usize>)
    ensures
        paired_trigger_count(t, paired) == count_in(steps_on_channel(t, BARREL_CH_CHUTE), paired)
            + count_in(steps_on_channel(t, BARREL_CH_DROP), paired),
    decreases t.len(),
{
    if t.len() > 0 {
        let t0 = t.drop_last();
        lemma_paired_trigger_count_split(t0, paired);
        let c = steps_on_channel(t, BARREL_CH_CHUTE);
        let d = steps_on_channel(t, BARREL_CH_DROP);
        if t.last().1 == BARREL_CH_CHUTE {
            assert(c.drop_last() =~= steps_on_channel(t0, BARREL_CH_CHUTE));
            assert(d =~= steps_on_channel(t0, BARREL_CH_DROP));
        } else if t.last().1 == BARREL_CH_DROP {
            assert(d.drop_last() =~= steps_on_channel(t0, BARREL_CH_DROP));
            assert(c =~= steps_on_channel(t0, BARREL_CH_CHUTE));
        } else {
            assert(c =~= steps_on_channel(t0, BARREL_CH_CHUTE));
            assert(d =~= steps_on_channel(t0, BARREL_CH_DROP));
        }
    }
}

/// Law of the spawner's count: when no trigger is listed twice, each paired
/// step appears once among the paired steps, the paired steps are exactly
/// those with both a chute and a drop trigger, and the plan starts one run
/// per trigger except that the two triggers of a paired step share one run,
/// so there are as many spawns as triggers minus paired steps.
pub proof fn lemma_spawn_plan_len(t: Seq<(usize, usize)>)
    requires
        t.no_duplicates(),
    ensures
        paired_steps(t).no_duplicates(),
        paired_steps(t).to_set() == Set::new(
            |s: usize| t.contains((s, BARREL_CH_CHUTE)) && t.contains((s, BARREL_CH_DROP)),
        ),
        paired_steps(t).to_set().len() == paired_steps(t).len(),
        spec_spawn_plan(t).len() == t.len() - paired_steps(t).len(),
{
    let c = steps_on_channel(t, BARREL_CH_CHUTE);
    let d = steps_on_channel(t, BARREL_CH_DROP);
    let p = paired_steps(t);
    lemma_steps_on_channel_no_duplicates(t, BARREL_CH_CHUTE);
    lemma_steps_on_channel_no_duplicates(t, BARREL_CH_DROP);
    lemma_steps_also_in_no_duplicates(c, d);
    assert forall|x: usize| #![auto] c.contains(x) ==> (p.contains(x) <==> d.contains(x)) by {
        lemma_steps_also_in_contains(c, d, x);
    }
    assert forall|x: usize| #![auto] d.contains(x) ==> (p.contains(x) <==> c.contains(x)) by {
        lemma_steps_also_in_contains(c, d, x);
    }
    lemma_count_in_congruent(c, p, d);
    lemma_count_in_congruent(d, p, c);
    lemma_count_in_symmetric(c, d);
    lemma_paired_trigger_count_split(t, p);
    lemma_single_spawns_len(t, p);
    assert(spec_spawn_plan(t).len() == p.len() + single_spawns(t, p).len());
    assert forall|s: usize| #![auto] p.to_set().contains(s) <==> (t.contains((s, BARREL_CH_CHUTE))
        && t.contains((s, BARREL_CH_DROP))) by {
        lemma_paired_steps_contains(t, s);
    }
    assert(p.to_set() =~= Set::new(
        |s: usize| t.contains((s, BARREL_CH_CHUTE)) && t.contains((s, BARREL_CH_DROP)),
    ));
    p.unique_seq_to_set();
}

fn steps_on_channel_exec(t: &[(usize, usize)], ch: usize) -> (v: Vec<usize>)
    ensures
        v@ == steps_on_channel(t@, ch),
{
    let mut v: Vec<usize> = Vec::new();
    let n = t.len();
    let mut i: usize = 0;
    while i < n
        invariant
            n == t@.len(),
            i <= n,
            v@ == steps_on_channel(t@.take(i as int), ch),
        decreases n - i,
    {
        assert(t@.take(i + 1).drop_last() =~= t@.take(i as int));
        if t[i].1 == ch {
            v.push(t[i].0);
        }
        i = i + 1;
    }
    assert(t@.take(n as int) =~= t@);
    v
}

fn contains_step(v: &Vec<usize>, x: usize) -> (b: bool)
    ensures
        b == v@.contains(x),
{
    let n = v.len();
    let mut i: usize = 0;
    while i < n
        invariant
            n == v@.len(),
            i <= n,
            forall|j: int| 0 <= j < i ==> v@[j] != x,
        decreases n - i,
    {
        if v[i] == x {
            assert(v@[i as int] == x);
            return true;
        }
        i = i + 1;
    }
    false
}

/// Decides the marbles to release for the barrel's pending triggers.  A step
/// with both a chute and a drop trigger releases the pair together; other
/// chute, drop and vibraphone triggers release one marble each.
pub fn plan_barrel_spawns(triggers: &[(usize, usize)]) -> (plan: Vec<BarrelSpawn>)
    ensures
        plan@ == spec_spawn_plan(triggers@),
{
    let chute_steps = steps_on_channel_exec(triggers, BARREL_CH_CHUTE);
    let drop_steps = steps_on_channel_exec(triggers, BARREL_CH_DROP);
    let mut paired: Vec<usize> = Vec::new();
    let nc = chute_steps.len();
    let mut i: usize = 0;
    while i < nc
        invariant
            nc == chute_steps@.len(),
            i <= nc,
            paired@ == steps_also_in(chute_steps@.take(i as int), drop_steps@),
        decreases nc - i,
    {
        assert(chute_steps@.take(i + 1).drop_last() =~= chute_steps@.take(i as int));
        if contains_step(&drop_steps, chute_steps[i]) {
            paired.push(chute_steps[i]);
        }
        i = i + 1;
    }
    assert(chute_steps@.take(nc as int) =~= chute_steps@);
    let ghost pairs = paired@;
    let mut plan: Vec<BarrelSpawn> = Vec::new();
    let np = paired.len();
    let mut k: usize = 0;
    while k < np
        invariant
            np == paired@.len(),
            k <= np,
            plan@ == paired@.take(k as int).map_values(|s: usize| BarrelSpawn::Paired { step: s }),
        decreases np - k,
    {
        plan.push(BarrelSpawn::Paired { step: paired[k] });
        assert(paired@.take(k + 1).map_values(|s: usize| BarrelSpawn::Paired { step: s })
            =~= paired@.take(k as int).map_values(|s: usize| BarrelSpawn::Paired { step: s }).push(
            BarrelSpawn::Paired { step: paired@[k as int] },
        ));
        k = k + 1;
    }
    assert(paired@.take(np as int) =~= paired@);
    let ghost head = plan@;
    let n = triggers.len();
    let mut j: usize = 0;
    while j < n
        invariant
            n == triggers@.len(),
            j <= n,
            paired@ == paired_steps(triggers@),
            plan@ == head + single_spawns(triggers@.take(j as int), paired@),
        decreases n - j,
    {
        assert(triggers@.take(j + 1).drop_last() =~= triggers@.take(j as int));
        let (step, ch) = triggers[j];
        if ch == BARREL_CH_CHUTE && !contains_step(&paired, step) {
            plan.push(BarrelSpawn::Chute { step });
        } else if ch == BARREL_CH_DROP && !contains_step(&paired, step) {
            plan.push(BarrelSpawn::Drop { step });
        } else if ch >= BARREL_CH_VIB_FIRST {
            plan.push(BarrelSpawn::Vib { step, bar_idx: (ch - BARREL_CH_VIB_FIRST) as u32 });
        }
        j = j + 1;
    }
    assert(triggers@.take(n as int) =~= triggers@);
    plan
}

/// Vibraphone channel of note `j` of the quick-fill arpeggio: bars 0, 4, 7
/// and 12, the root, major third, fifth and octave of bar 0 (F3, A3, C4, F4).
pub open spec fn arp_channel(j: int) -> int {
    if j == 0 {
        2
    } else if j == 1 {
        6
    } else if j == 2 {
        9
    } else {
        14
    }
}

fn arp_channel_exec(j: usize) -> (ch: usize)
    requires
        j < 4,
    ensures
        ch == arp_channel(j as int),
{
    if j == 0 {
        2
    } else if j == 1 {
        6
    } else if j == 2 {
        9
    } else {
        14
    }
}

/// Rhythmic position of a step, used to shade the pattern grid.
#[derive(Clone, Copy, Debug, PartialEq, Eq, Structural)]
pub enum StepSubdivision {
    /// First step of a beat.
    Beat,
    /// An eighth-note position that is not a beat.
    Eighth,
    /// A triplet position that is neither a beat nor an eighth note.
    Triplet,
    Other,
}

pub open spec fn spec_step_subdivision(step: int) -> StepSubdivision {
    if step % (BARREL_STEPS_PER_BEAT as int) == 0 {
        StepSubdivision::Beat
    } else if step % 6 == 0 {
        StepSubdivision::Eighth
    } else if step % 4 == 0 {
        StepSubdivision::Triplet
    } else {
        StepSubdivision::Other
    }
}

/// Classifies a step as beat start, eighth note, triplet or other.
pub fn step_subdivision(step: usize) -> (d: StepSubdivision)
    ensures
        d == spec_step_subdivision(step as int),
{
    if step % BARREL_STEPS_PER_BEAT == 0 {
        StepSubdivision::Beat
    } else if step % 6 == 0 {
        StepSubdivision::Eighth
    } else if step % 4 == 0 {
        StepSubdivision::Triplet
    } else {
        StepSubdivision::Other
    }
}

/// Law of the default loop: the chute marble falls on every beat (every 12
/// steps), the snare drop on beats 2 and 4 of every bar, and the vibraphone
/// plays one note on every eighth step, the 16 eighth notes of the phrase
/// D4 F4 A4 C5 D5 F5 A5 F5 D5 C5 A4 G4 F4 E4 D4 A3 (bars 9, 12, 16, 19, 21,
/// 24, 28, 24, 21, 19, 16, 14, 12, 11, 9, 4), twice over the loop.
pub proof fn lemma_default_loop(step: int, ch: int)
    requires
        0 <= step < BARREL_N_STEPS,
        0 <= ch < BARREL_N_CHANNELS,
    ensures
        ch == 0 ==> (default_cell(step, ch) <==> step % 12 == 0),
        ch == 1 ==> (default_cell(step, ch) <==> (step % 48 == 12 || step % 48 == 36)),
        ch >= 2 ==> (default_cell(step, ch) <==> (step % 6 == 0 && ch - 2 == seq![
            9int, 12, 16, 19, 21, 24, 28, 24, 21, 19, 16, 14, 12, 11, 9, 4,
        ][(step % 96) / 6])),
        default_cell(step, ch) == default_cell((step + 96) % 192, ch),
{
    let bars = seq![9int, 12, 16, 19, 21, 24, 28, 24, 21, 19, 16, 14, 12, 11, 9, 4];
    assert(bars[0] == 9 && bars[1] == 12 && bars[2] == 16 && bars[3] == 19 && bars[4] == 21
        && bars[5] == 24 && bars[6] == 28 && bars[7] == 24);
    assert(bars[8] == 21 && bars[9] == 19 && bars[10] == 16 && bars[11] == 14 && bars[12] == 12
        && bars[13] == 11 && bars[14] == 9 && bars[15] == 4);
    assert((step + 96) % 192 % 96 == step % 96);
    assert(((step + 96) % 192) % 12 == step % 12);
    assert(((step + 96) % 192) % 6 == step % 6);
    assert(((step + 96) % 192) % 48 == step % 48);
}

/// Law of the grid shading: a step starts a beat when it is a multiple of
/// 12; of the other steps, those half-way through a beat are eighth notes,
/// those a third or two thirds through are triplets, and the rest are
/// neither.
pub proof fn lemma_step_subdivision_positions(step: int)
    requires
        0 <= step,
    ensures
        spec_step_subdivision(step) == StepSubdivision::Beat <==> step % 12 == 0,
        spec_step_subdivision(step) == StepSubdivision::Eighth <==> step % 12 == 6,
        spec_step_subdivision(step) == StepSubdivision::Triplet <==> (step % 12 == 4 || step % 12
            == 8),
        spec_step_subdivision(step) == StepSubdivision::Other <==> !(step % 12 == 0 || step % 12
            == 4 || step % 12 == 6 || step % 12 == 8),
{
}

/// Law of the arpeggio fill: its four notes are bars 0, 4, 7 and 12, a
/// root, its major third, fifth and octave.
pub proof fn lemma_arpeggio_bars(j: int)
    requires
        0 <= j < 4,
    ensures
        arp_channel(j) == BARREL_CH_VIB_FIRST + seq![0int, 4, 7, 12][j],
{
    let b = seq![0int, 4, 7, 12];
    assert(b[0] == 0 && b[1] == 4 && b[2] == 7 && b[3] == 12);
}

/// Law of the barrel's channel labels and colours: channel 0 is "Chute" in
/// blue, channel 1 "Drop" in orange, and channel `2 + k` is "Vib" and the
/// two decimal digits of `k`, in green; other channels are "?".
pub proof fn lemma_barrel_channel_labels(ch: int)
    ensures
        ch == 0 ==> spec_channel_name(ch) == "Chute"@ && spec_channel_color(ch) == (
            51u8,
            115u8,
            230u8,
        ),
        ch == 1 ==> spec_channel_name(ch) == "Drop"@ && spec_channel_color(ch) == (
            242u8,
            89u8,
            38u8,
        ),
        2 <= ch < BARREL_N_CHANNELS ==> spec_channel_name(ch) == "Vib "@ + seq![
            "0"@, "1"@, "2"@, "3"@,
        ][(ch - 2) / 10] + seq!["0"@, "1"@, "2"@, "3"@, "4"@, "5"@, "6"@, "7"@, "8"@, "9"@][(ch
            - 2) % 10] && spec_channel_color(ch) == (80u8, 200u8, 120u8),
        (ch < 0 || ch >= BARREL_N_CHANNELS) ==> spec_channel_name(ch) == "?"@,
{
    let t = seq!["0"@, "1"@, "2"@, "3"@];
    let d = seq!["0"@, "1"@, "2"@, "3"@, "4"@, "5"@, "6"@, "7"@, "8"@, "9"@];
    assert(t[0] == "0"@ && t[1] == "1"@ && t[2] == "2"@ && t[3] == "3"@);
    assert(d[0] == "0"@ && d[1] == "1"@ && d[2] == "2"@ && d[3] == "3"@ && d[4] == "4"@);
    assert(d[5] == "5"@ && d[6] == "6"@ && d[7] == "7"@ && d[8] == "8"@ && d[9] == "9"@);
}

/// The pattern with the peg at (`step`, `ch`) flipped.
pub open spec fn toggled(c: Seq<Seq<bool>>, step: int, ch: int) -> Seq<Seq<bool>> {
    c.update(step, c[step].update(ch, !c[step][ch]))
}

/// Clicking the same cell twice gives back the pattern it started from.
pub proof fn lemma_toggle_twice(c: Seq<Seq<bool>>, step: int, ch: int)
    requires
        pattern_wf(c),
        0 <= step < BARREL_N_STEPS,
        0 <= ch < BARREL_N_CHANNELS,
    ensures
        toggled(toggled(c, step, ch), step, ch) == c,
{
    assert(toggled(toggled(c, step, ch), step, ch)[step] =~= c[step]);
    assert(toggled(toggled(c, step, ch), step, ch) =~= c);
}

impl BarrelParams {
    /// Every field but the pattern is the same in `self` and `other`.
    pub open spec fn same_besides_pattern(&self, other: &Self) -> bool {
        &&& self.enabled == other.enabled
        &&& self.current_step == other.current_step
        &&& self.drag_paint_val == other.drag_paint_val
        &&& self.editor_open == other.editor_open
        &&& self.show_pegs == other.show_pegs
        &&& self.pending_spawns == other.pending_spawns
    }

    fn set_cell(&mut self, step: usize, ch: usize, v: bool)
        requires
            step < old(self).pattern@.len(),
            ch < cells(old(self).pattern@)[step as int].len(),
        ensures
            cells(final(self).pattern@) == cells(old(self).pattern@).update(
                step as int,
                cells(old(self).pattern@)[step as int].update(ch as int, v),
            ),
            final(self).same_besides_pattern(old(self)),
            final(self).pattern@.len() == old(self).pattern@.len(),
    {
        assert(cells(self.pattern@)[step as int] == self.pattern@[step as int]@);
        self.pattern[step].set(ch, v);
        assert(cells(self.pattern@) =~= cells(old(self).pattern@).update(
            step as int,
            cells(old(self).pattern@)[step as int].update(ch as int, v),
        ));
    }


    /// Click on a cell: flips its peg.
    pub fn toggle_cell(&mut self, step: usize, ch: usize)
        requires
            pattern_wf(cells(old(self).pattern@)),
            step < BARREL_N_STEPS,
            ch < BARREL_N_CHANNELS,
        ensures
            pattern_wf(cells(final(self).pattern@)),
            old(self).wf() ==> final(self).wf(),
            cells(final(self).pattern@) == toggled(cells(old(self).pattern@), step as int, ch as int),
            final(self).same_besides_pattern(old(self)),
    {
        assert(cells(self.pattern@)[step as int] == self.pattern@[step as int]@);
        let cur = self.pattern[step][ch];
        self.set_cell(step, ch, !cur);
    }

    /// Start of a drag on a cell: a left drag paints the opposite of the
    /// cell's peg, a right drag (`erase`) clears pegs.  The first cell is
    /// painted at once and the paint value is remembered for the drag.
    pub fn begin_paint(&mut self, step: usize, ch: usize, erase: bool)
        requires
            pattern_wf(cells(old(self).pattern@)),
            step < BARREL_N_STEPS,
            ch < BARREL_N_CHANNELS,
        ensures
            pattern_wf(cells(final(self).pattern@)),
            old(self).wf() ==> final(self).wf(),
            final(self).drag_paint_val == Some(
                if erase {
                    false
                } else {
                    !cells(old(self).pattern@)[step as int][ch as int]
                },
            ),
            cells(final(self).pattern@) == cells(old(self).pattern@).update(
                step as int,
                cells(old(self).pattern@)[step as int].update(
                    ch as int,
                    final(self).drag_paint_val->0,
                ),
            ),
            final(self).enabled == old(self).enabled,
            final(self).current_step == old(self).current_step,
            final(self).editor_open == old(self).editor_open,
            final(self).show_pegs == old(self).show_pegs,
            final(self).pending_spawns == old(self).pending_spawns,
    {
        assert(cells(self.pattern@)[step as int] == self.pattern@[step as int]@);
        let v = if erase {
            false
        } else {
            !self.pattern[step][ch]
        };
        self.drag_paint_val = Some(v);
        self.set_cell(step, ch, v);
    }

    /// The drag moved over a cell: paints it with the drag's value, if a
    /// drag is in progress.
    pub fn continue_paint(&mut self, step: usize, ch: usize)
        requires
            pattern_wf(cells(old(self).pattern@)),
            step < BARREL_N_STEPS,
            ch < BARREL_N_CHANNELS,
        ensures
            pattern_wf(cells(final(self).pattern@)),
            old(self).wf() ==> final(self).wf(),
            match old(self).drag_paint_val {
                Some(v) => cells(final(self).pattern@) == cells(old(self).pattern@).update(
                    step as int,
                    cells(old(self).pattern@)[step as int].update(ch as int, v),
                ),
                None => cells(final(self).pattern@) == cells(old(self).pattern@),
            },
            final(self).same_besides_pattern(old(self)),
    {
        match self.drag_paint_val {
            Some(v) => self.set_cell(step, ch, v),
            None => {},
        }
    }

    /// The drag ended.
    pub fn end_paint(&mut self)
        ensures
            final(self).drag_paint_val is None,
            final(self).pattern == old(self).pattern,
            final(self).enabled == old(self).enabled,
            final(self).current_step == old(self).current_step,
            final(self).editor_open == old(self).editor_open,
            final(self).show_pegs == old(self).show_pegs,
            final(self).pending_spawns == old(self).pending_spawns,
            old(self).wf() ==> final(self).wf(),
    {
        self.drag_paint_val = None;
    }

    /// Sets column `ch` to "a peg every `period` steps, starting at step 0".
    /// With `period == 0` the column is cleared.
    fn set_column(&mut self, ch: usize, period: usize)
        requires
            pattern_wf(cells(old(self).pattern@)),
            ch < BARREL_N_CHANNELS,
        ensures
            pattern_wf(cells(final(self).pattern@)),
            old(self).wf() ==> final(self).wf(),
            forall|s: int, c: int|
                0 <= s < BARREL_N_STEPS && 0 <= c < BARREL_N_CHANNELS ==> #[trigger] cells(
                    final(self).pattern@,
                )[s][c] == if c == ch {
                    period != 0 && s % (period as int) == 0
                } else {
                    cells(old(self).pattern@)[s][c]
                },
            final(self).same_besides_pattern(old(self)),
    {
        let mut s: usize = 0;
        while s < BARREL_N_STEPS
            invariant
                pattern_wf(cells(self.pattern@)),
                ch < BARREL_N_CHANNELS,
                s <= BARREL_N_STEPS,
                self.same_besides_pattern(old(self)),
                forall|i: int, c: int|
                    0 <= i < BARREL_N_STEPS && 0 <= c < BARREL_N_CHANNELS ==> #[trigger] cells(
                        self.pattern@,
                    )[i][c] == if c == ch && i < s {
                        period != 0 && i % (period as int) == 0
                    } else {
                        cells(old(self).pattern@)[i][c]
                    },
            decreases BARREL_N_STEPS - s,
        {
            let v = period != 0 && s % period == 0;
            self.set_cell(s, ch, v);
            s = s + 1;
        }
    }

    /// "Clear row": removes every peg of channel `ch`.
    pub fn clear_row(&mut self, ch: usize)
        requires
            pattern_wf(cells(old(self).pattern@)),
            ch < BARREL_N_CHANNELS,
        ensures
            pattern_wf(cells(final(self).pattern@)),
            old(self).wf() ==> final(self).wf(),
            forall|s: int, c: int|
                0 <= s < BARREL_N_STEPS && 0 <= c < BARREL_N_CHANNELS ==> #[trigger] cells(
                    final(self).pattern@,
                )[s][c] == (c != ch && cells(old(self).pattern@)[s][c]),
            final(self).same_besides_pattern(old(self)),
    {
        self.set_column(ch, 0);
    }

    /// Quick fill: channel `ch` gets a peg every `period` steps from step 0
    /// and none elsewhere ("Chute quarter" is period 12 on the chute,
    /// "Drop 8ths" period 6 on the drop, "Chute triplets" period 4).
    pub fn fill_every(&mut self, ch: usize, period: usize)
        requires
            pattern_wf(cells(old(self).pattern@)),
            ch < BARREL_N_CHANNELS,
            period > 0,
        ensures
            pattern_wf(cells(final(self).pattern@)),
            old(self).wf() ==> final(self).wf(),
            forall|s: int, c: int|
                0 <= s < BARREL_N_STEPS && 0 <= c < BARREL_N_CHANNELS ==> #[trigger] cells(
                    final(self).pattern@,
                )[s][c] == if c == ch {
                    s % (period as int) == 0
                } else {
                    cells(old(self).pattern@)[s][c]
                },
            final(self).same_besides_pattern(old(self)),
    {
        self.set_column(ch, period);
    }

    /// "Clear all vib rows": removes every vibraphone peg.
    pub fn clear_vib_rows(&mut self)
        requires
            pattern_wf(cells(old(self).pattern@)),
        ensures
            pattern_wf(cells(final(self).pattern@)),
            old(self).wf() ==> final(self).wf(),
            forall|s: int, c: int|
                0 <= s < BARREL_N_STEPS && 0 <= c < BARREL_N_CHANNELS ==> #[trigger] cells(
                    final(self).pattern@,
                )[s][c] == (c < BARREL_CH_VIB_FIRST && cells(old(self).pattern@)[s][c]),
            final(self).same_besides_pattern(old(self)),
    {
        let mut ch: usize = BARREL_CH_VIB_FIRST;
        while ch < BARREL_N_CHANNELS
            invariant
                pattern_wf(cells(self.pattern@)),
                BARREL_CH_VIB_FIRST <= ch <= BARREL_N_CHANNELS,
                self.same_besides_pattern(old(self)),
                forall|s: int, c: int|
                    0 <= s < BARREL_N_STEPS && 0 <= c < BARREL_N_CHANNELS ==> #[trigger] cells(
                        self.pattern@,
                    )[s][c] == (!(BARREL_CH_VIB_FIRST <= c < ch) && cells(old(self).pattern@)[s][c]),
            decreases BARREL_N_CHANNELS - ch,
        {
            self.clear_row(ch);
            ch = ch + 1;
        }
    }


    /// Quick fill of the vibraphone rows: clears them, then puts the major
    /// arpeggio of bars 0, 4, 7 and 12 (F3, A3, C4, F4) on every second beat,
    /// cycling through the four notes.
    pub fn fill_vib_arpeggio(&mut self)
        requires
            pattern_wf(cells(old(self).pattern@)),
        ensures
            pattern_wf(cells(final(self).pattern@)),
            old(self).wf() ==> final(self).wf(),
            forall|s: int, c: int|
                0 <= s < BARREL_N_STEPS && 0 <= c < BARREL_N_CHANNELS ==> #[trigger] cells(
                    final(self).pattern@,
                )[s][c] == if c >= BARREL_CH_VIB_FIRST {
                    s % 24 == 0 && c == arp_channel((s / 24) % 4)
                } else {
                    cells(old(self).pattern@)[s][c]
                },
            final(self).same_besides_pattern(old(self)),
    {
        self.clear_vib_rows();
        let mut i: usize = 0;
        while i < 8
            invariant
                pattern_wf(cells(self.pattern@)),
                i <= 8,
                self.same_besides_pattern(old(self)),
                forall|s: int, c: int|
                    0 <= s < BARREL_N_STEPS && 0 <= c < BARREL_N_CHANNELS ==> #[trigger] cells(
                        self.pattern@,
                    )[s][c] == if c >= BARREL_CH_VIB_FIRST {
                        s % 24 == 0 && s / 24 < i && c == arp_channel((s / 24) % 4)
                    } else {
                        cells(old(self).pattern@)[s][c]
                    },
            decreases 8 - i,
        {
            let step = i * 24;
            let ch = arp_channel_exec(i % 4);
            self.set_cell(step, ch, true);
            i = i + 1;
        }
    }


    /// The reader moved from step `prev_step` to step `curr_step`.  When the
    /// step changed, the pending triggers become the pegs of every step
    /// crossed; otherwise they are left as they were.
    pub fn advance_to_step(&mut self, prev_step: usize, curr_step: usize)
        requires
            pattern_wf(cells(old(self).pattern@)),
            prev_step < BARREL_N_STEPS,
            curr_step < BARREL_N_STEPS,
        ensures
            final(self).wf(),
            final(self).current_step == curr_step,
            final(self).pattern == old(self).pattern,
            prev_step == curr_step ==> final(self).pending_spawns == old(self).pending_spawns,
            prev_step != curr_step ==> final(self).pending_spawns@ == crossing_triggers(
                cells(old(self).pattern@),
                prev_step as int,
                spec_steps_crossed(prev_step as int, curr_step as int),
            ),
            prev_step != curr_step ==> final(self).pending_spawns@.no_duplicates(),
            final(self).enabled == old(self).enabled,
            final(self).drag_paint_val == old(self).drag_paint_val,
            final(self).editor_open == old(self).editor_open,
            final(self).show_pegs == old(self).show_pegs,
    {
        self.current_step = curr_step;
        if curr_step == prev_step {
            return;
        }
        let n = steps_crossed(prev_step, curr_step);
        self.pending_spawns.clear();
        let mut i: usize = 0;
        while i < n
            invariant
                pattern_wf(cells(self.pattern@)),
                self.pattern == old(self).pattern,
                self.current_step == curr_step,
                self.enabled == old(self).enabled,
                self.drag_paint_val == old(self).drag_paint_val,
                self.editor_open == old(self).editor_open,
                self.show_pegs == old(self).show_pegs,
                prev_step < BARREL_N_STEPS,
                n < BARREL_N_STEPS,
                i <= n,
                self.pending_spawns@ == crossing_triggers(
                    cells(self.pattern@),
                    prev_step as int,
                    i as int,
                ),
            decreases n - i,
        {
            let step = (prev_step + 1 + i) % BARREL_N_STEPS;
            assert(cells(self.pattern@)[step as int] == self.pattern@[step as int]@);
            let mut ch: usize = 0;
            while ch < BARREL_N_CHANNELS
                invariant
                    pattern_wf(cells(self.pattern@)),
                    self.pattern == old(self).pattern,
                    self.current_step == curr_step,
                    self.enabled == old(self).enabled,
                    self.drag_paint_val == old(self).drag_paint_val,
                    self.editor_open == old(self).editor_open,
                    self.show_pegs == old(self).show_pegs,
                    prev_step < BARREL_N_STEPS,
                    n < BARREL_N_STEPS,
                    i < n,
                    step == (prev_step + i + 1) % (BARREL_N_STEPS as int),
                    cells(self.pattern@)[step as int] == self.pattern@[step as int]@,
                    ch <= BARREL_N_CHANNELS,
                    self.pending_spawns@ == crossing_triggers(
                        cells(self.pattern@),
                        prev_step as int,
                        i as int,
                    ) + row_triggers(cells(self.pattern@)[step as int], step as int, ch as int),
                decreases BARREL_N_CHANNELS - ch,
            {
                if self.pattern[step][ch] {
                    self.pending_spawns.push((step, ch));
                }
                ch = ch + 1;
            }
            i = i + 1;
        }
        proof {
            lemma_crossing_triggers_no_duplicates(cells(self.pattern@), prev_step as int, n as int);
        }
    }

    /// Hands the pending triggers to the spawner: they are drained, and the
    /// spawns that they decide are returned.
    pub fn take_spawn_plan(&mut self) -> (plan: Vec<BarrelSpawn>)
        ensures
            plan@ == spec_spawn_plan(old(self).pending_spawns@),
            final(self).pending_spawns@.len() == 0,
            final(self).pattern == old(self).pattern,
            final(self).enabled == old(self).enabled,
            final(self).current_step == old(self).current_step,
            final(self).drag_paint_val == old(self).drag_paint_val,
            final(self).editor_open == old(self).editor_open,
            final(self).show_pegs == old(self).show_pegs,
    {
        let plan = plan_barrel_spawns(self.pending_spawns.as_slice());
        self.pending_spawns.clear();
        plan
    }

    /// Clears every peg, keeping the pattern's shape.
    pub fn clear_pattern(&mut self)
        ensures
            final(self).pattern@.len() == old(self).pattern@.len(),
            forall|s: int|
                0 <= s < old(self).pattern@.len() ==> (#[trigger] cells(final(self).pattern@)[s]).len()
                    == cells(old(self).pattern@)[s].len(),
            forall|s: int, c: int|
                0 <= s < old(self).pattern@.len() && 0 <= c < cells(old(self).pattern@)[s].len()
                    ==> !#[trigger] cells(final(self).pattern@)[s][c],
            final(self).same_besides_pattern(old(self)),
            old(self).wf() ==> final(self).wf(),
    {
        let n = self.pattern.len();
        let mut s: usize = 0;
        while s < n
            invariant
                n == self.pattern@.len(),
                n == old(self).pattern@.len(),
                s <= n,
                self.same_besides_pattern(old(self)),
                forall|i: int|
                    0 <= i < n ==> (#[trigger] cells(self.pattern@)[i]).len() == cells(
                        old(self).pattern@,
                    )[i].len(),
                forall|i: int, c: int|
                    0 <= i < s && 0 <= c < cells(old(self).pattern@)[i].len()
                        ==> !#[trigger] cells(self.pattern@)[i][c],
            decreases n - s,
        {
            let m = self.pattern[s].len();
            assert(cells(self.pattern@)[s as int] == self.pattern@[s as int]@);
            let mut c: usize = 0;
            while c < m
                invariant
                    n == self.pattern@.len(),
                    n == old(self).pattern@.len(),
                    s < n,
                    c <= m,
                    m == cells(old(self).pattern@)[s as int].len(),
                    self.same_besides_pattern(old(self)),
                    forall|i: int|
                        0 <= i < n ==> (#[trigger] cells(self.pattern@)[i]).len() == cells(
                            old(self).pattern@,
                        )[i].len(),
                    forall|i: int, j: int|
                        0 <= i < s && 0 <= j < cells(old(self).pattern@)[i].len()
                            ==> !#[trigger] cells(self.pattern@)[i][j],
                    forall|j: int| 0 <= j < c ==> !#[trigger] cells(self.pattern@)[s as int][j],
                decreases m - c,
            {
                self.set_cell(s, c, false);
                c = c + 1;
            }
            s = s + 1;
        }
    }

    /// A full pattern and a reader on one of its steps.
    pub open spec fn wf(&self) -> bool {
        &&& pattern_wf(cells(self.pattern@))
        &&& self.current_step < BARREL_N_STEPS
    }

    /// Moves the reader back to step 0 (the caller rewinds the angle).
    pub fn reset_position(&mut self)
        ensures
            final(self).current_step == 0,
            final(self).pattern == old(self).pattern,
            final(self).pending_spawns == old(self).pending_spawns,
            final(self).enabled == old(self).enabled,
            final(self).drag_paint_val == old(self).drag_paint_val,
            final(self).editor_open == old(self).editor_open,
            final(self).show_pegs == old(self).show_pegs,
            old(self).wf() ==> final(self).wf(),
    {
        self.current_step = 0;
    }
}

impl core::default::Default for BarrelParams {
    fn default() -> (b: Self)
        ensures
            b.wf(),
            !b.enabled,
            b.current_step == 0,
            forall|s: int, c: int|
                0 <= s < BARREL_N_STEPS && 0 <= c < BARREL_N_CHANNELS ==> #[trigger] cells(
                    b.pattern@,
                )[s][c] == default_cell(s, c),
            b.drag_paint_val is None,
            !b.editor_open,
            b.show_pegs,
            b.pending_spawns@.len() == 0,
    {
        BarrelParams {
            enabled: false,
            current_step: 0,
            pattern: marble_machine_default_pattern(),
            drag_paint_val: None,
            editor_open: false,
            show_pegs: true,
            pending_spawns: Vec::new(),
        }
    }
}

} // verus!
