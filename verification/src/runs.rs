//! Run history.
//!
//! `RunHistory` is the single source of truth for all marble runs.  Each
//! spawned marble gets a `Run` with a fresh index; the first instrument hit of
//! the marble fills in `Run::hit`.  The record of a hit (`H`), the velocity
//! samples (`S`) and the path points (`P`) are carried through unchanged.
use vstd::prelude::*;
use std::collections::BTreeMap;

verus! {

/// One marble run.
pub struct Run<H, S, P> {
    pub index: usize,
    /// The channel that spawned this marble, set at spawn time so the run can
    /// be labelled before any hit is recorded.
    pub spawn_channel: usize,
    pub hit: Option<H>,
    pub samples: Vec<S>,
    pub graph_open: bool,
    pub path: Vec<P>,
    pub show_ghost: bool,
}

/// All runs, oldest first, with the index the next run will get.
pub struct RunHistory<H, S, P> {
    pub runs: Vec<Run<H, S, P>>,
    pub next_index: usize,
    /// One-frame override: forces all run headers open (true) or closed (false).
    pub force_all_open: Option<bool>,
    pub help_open: bool,
    pub snare_tip_graph_open: bool,
}

/// Position of the last run in `runs` whose index is `idx`.
pub open spec fn last_run_with_index<H, S, P>(runs: Seq<Run<H, S, P>>, idx: usize) -> Option<int>
    decreases runs.len(),
{
    if runs.len() == 0 {
        None
    } else if runs.last().index == idx {
        Some(runs.len() - 1)
    } else {
        last_run_with_index(runs.drop_last(), idx)
    }
}

/// A run just spawned from `channel` with index `idx`: no hit, no data yet,
/// graph and ghost hidden.
pub open spec fn is_fresh_run<H, S, P>(r: Run<H, S, P>, idx: usize, channel: usize) -> bool {
    &&& r.index == idx
    &&& r.spawn_channel == channel
    &&& r.hit is None
    &&& r.samples@.len() == 0
    &&& r.path@.len() == 0
    &&& !r.graph_open
    &&& !r.show_ghost
}

/// The position found by `last_run_with_index` holds a run with that index,
/// and no later run has it.
pub proof fn lemma_last_run_with_index<H, S, P>(runs: Seq<Run<H, S, P>>, idx: usize)
    ensures
        last_run_with_index(runs, idx) matches Some(p) ==> {
            &&& 0 <= p < runs.len()
            &&& runs[p].index == idx
            &&& forall|q: int| p < q < runs.len() ==> #[trigger] runs[q].index != idx
        },
        last_run_with_index(runs, idx) is None ==> forall|q: int|
            0 <= q < runs.len() ==> #[trigger] runs[q].index != idx,
    decreases runs.len(),
{
    if runs.len() > 0 {
        let init = runs.drop_last();
        lemma_last_run_with_index(init, idx);
        assert forall|q: int| 0 <= q < init.len() implies #[trigger] runs[q] == init[q] by {}
    }
}


/// Positions in `runs` of the completed runs (those with a hit) spawned from
/// channel `ch`, oldest first.
pub open spec fn completed_positions<H, S, P>(runs: Seq<Run<H, S, P>>, ch: usize) -> Seq<usize>
    decreases runs.len(),
{
    if runs.len() == 0 {
        Seq::empty()
    } else {
        completed_positions(runs.drop_last(), ch) + if runs.last().hit is Some
            && runs.last().spawn_channel == ch {
            seq![(runs.len() - 1) as usize]
        } else {
            Seq::empty()
        }
    }
}

/// Some completed run in `runs` was spawned from channel `ch`.
pub open spec fn has_completed_on<H, S, P>(runs: Seq<Run<H, S, P>>, ch: usize) -> bool {
    exists|p: int| 0 <= p < runs.len() && #[trigger] runs[p].hit is Some && runs[p].spawn_channel == ch
}

proof fn lemma_completed_positions_nonempty<H, S, P>(runs: Seq<Run<H, S, P>>, ch: usize)
    ensures
        completed_positions(runs, ch).len() > 0 <==> has_completed_on(runs, ch),
    decreases runs.len(),
{
    if runs.len() > 0 {
        let init = runs.drop_last();
        lemma_completed_positions_nonempty(init, ch);
        if has_completed_on(init, ch) {
            let p = choose|p: int| 0 <= p < init.len() && #[trigger] init[p].hit is Some && init[p].spawn_channel == ch;
            assert(runs[p] == init[p]);
        }
        if has_completed_on(runs, ch) && !(runs.last().hit is Some && runs.last().spawn_channel == ch) {
            let p = choose|p: int| 0 <= p < runs.len() && #[trigger] runs[p].hit is Some && runs[p].spawn_channel == ch;
            assert(p < runs.len() - 1);
            assert(init[p] == runs[p]);
        }
    }
}

/// `completed_positions` of the first `i` runs.
pub open spec fn completed_in_prefix<H, S, P>(runs: Seq<Run<H, S, P>>, i: usize, ch: usize) -> Seq<usize> {
    completed_positions(runs.take(i as int), ch)
}

proof fn lemma_completed_in_prefix_step<H, S, P>(runs: Seq<Run<H, S, P>>, i: usize)
    requires
        i < runs.len(),
        i < usize::MAX,
    ensures
        forall|ch: usize|
            #[trigger] completed_in_prefix(runs, (i + 1) as usize, ch) == completed_in_prefix(runs, i, ch)
                + if runs[i as int].hit is Some && runs[i as int].spawn_channel == ch {
                seq![i]
            } else {
                Seq::empty()
            },
{
    let t = runs.take(i + 1);
    assert(t.drop_last() =~= runs.take(i as int));
    assert(t.last() == runs[i as int]);
    assert(t.len() - 1 == i);
}

proof fn lemma_completed_in_prefix_all<H, S, P>(runs: Seq<Run<H, S, P>>, n: usize)
    requires
        n == runs.len(),
    ensures
        forall|ch: usize| #[trigger] completed_in_prefix(runs, n, ch) == completed_positions(runs, ch),
{
    assert(runs.take(n as int) =~= runs);
}

impl<H, S, P> RunHistory<H, S, P> {
    /// In a well-formed history no two runs share an index, so the run found
    /// for an index is the only run with it.
    pub proof fn lemma_index_unique(&self, i: int, j: int)
        requires
            self.wf(),
            0 <= i < self.runs@.len(),
            0 <= j < self.runs@.len(),
            self.runs@[i].index == self.runs@[j].index,
        ensures
            i == j,
    {
        if i < j {
            assert(self.runs@[i].index < self.runs@[j].index);
        } else if j < i {
            assert(self.runs@[j].index < self.runs@[i].index);
        }
    }

    /// Run indices increase strictly from the oldest run to the newest, and
    /// every one is below `next_index`.
    pub open spec fn wf(&self) -> bool {
        &&& forall|i: int, j: int|
            0 <= i < j < self.runs@.len() ==> #[trigger] self.runs@[i].index
                < #[trigger] self.runs@[j].index
        &&& forall|i: int| 0 <= i < self.runs@.len() ==> #[trigger] self.runs@[i].index < self.next_index
    }

    /// An empty history.
    pub fn new() -> (h: Self)
        ensures
            h.wf(),
            h.runs@.len() == 0,
            h.next_index == 0,
            h.force_all_open is None,
            !h.help_open,
            !h.snare_tip_graph_open,
    {
        RunHistory {
            runs: Vec::new(),
            next_index: 0,
            force_all_open: None,
            help_open: false,
            snare_tip_graph_open: false,
        }
    }

    /// Starts a new run for a marble spawned from `spawn_channel` and returns
    /// its index.
    pub fn push_new_run(&mut self, spawn_channel: usize) -> (idx: usize)
        requires
            old(self).next_index < usize::MAX,
        ensures
            old(self).wf() ==> final(self).wf(),
            idx == old(self).next_index,
            final(self).next_index == old(self).next_index + 1,
            final(self).runs@.len() == old(self).runs@.len() + 1,
            final(self).runs@.drop_last() == old(self).runs@,
            is_fresh_run(final(self).runs@.last(), idx, spawn_channel),
            last_run_with_index(final(self).runs@, idx) == Some(old(self).runs@.len() as int),
            final(self).force_all_open == old(self).force_all_open,
            final(self).help_open == old(self).help_open,
            final(self).snare_tip_graph_open == old(self).snare_tip_graph_open,
    {
        let idx = self.next_index;
        self.next_index = self.next_index + 1;
        self.runs.push(
            Run {
                index: idx,
                spawn_channel,
                hit: None,
                samples: Vec::new(),
                graph_open: false,
                path: Vec::new(),
                show_ghost: false,
            },
        );
        assert(self.runs@.drop_last() =~= old(self).runs@);
        idx
    }

    /// Position in `runs` of the last run with index `idx`.
    pub fn find_run(&self, idx: usize) -> (pos: Option<usize>)
        ensures
            pos matches Some(p) ==> last_run_with_index(self.runs@, idx) == Some(p as int) && p
                < self.runs@.len(),
            pos is None ==> last_run_with_index(self.runs@, idx) is None,
    {
        let mut i = self.runs.len();
        assert(self.runs@.take(i as int) =~= self.runs@);
        while i > 0
            invariant
                i <= self.runs@.len(),
                last_run_with_index(self.runs@, idx) == last_run_with_index(
                    self.runs@.take(i as int),
                    idx,
                ),
            decreases i,
        {
            assert(self.runs@.take(i as int).drop_last() =~= self.runs@.take(i - 1));
            if self.runs[i - 1].index == idx {
                return Some(i - 1);
            }
            i = i - 1;
        }
        None
    }

    /// The last run with index `idx`, for in-place update.
    pub fn get_run_mut(&mut self, idx: usize) -> (r: Option<&mut Run<H, S, P>>)
        ensures
            match last_run_with_index(old(self).runs@, idx) {
                Some(p) => {
                    &&& r is Some
                    &&& *r.unwrap() == old(self).runs@[p]
                    &&& final(self).runs@ == old(self).runs@.update(p, *final(r.unwrap()))
                },
                None => r is None && final(self).runs@ == old(self).runs@,
            },
            final(self).next_index == old(self).next_index,
            final(self).force_all_open == old(self).force_all_open,
            final(self).help_open == old(self).help_open,
            final(self).snare_tip_graph_open == old(self).snare_tip_graph_open,
    {
        proof {
            lemma_last_run_with_index(self.runs@, idx);
        }
        match self.find_run(idx) {
            Some(p) => Some(&mut self.runs[p]),
            None => None,
        }
    }

    /// Records `hit` as the hit of the run with index `idx`, unless that run
    /// already has one: the first hit of a marble is the one that counts.
    /// Returns whether the hit was recorded.
    pub fn record_hit(&mut self, idx: usize, hit: H) -> (recorded: bool)
        ensures
            match last_run_with_index(old(self).runs@, idx) {
                Some(p) => if old(self).runs@[p].hit is None {
                    &&& recorded
                    &&& final(self).runs@.len() == old(self).runs@.len()
                    &&& forall|q: int|
                        0 <= q < old(self).runs@.len() && q != p ==> #[trigger] final(self).runs@[q]
                            == old(self).runs@[q]
                    &&& final(self).runs@[p].hit == Some(hit)
                    &&& final(self).runs@[p].index == old(self).runs@[p].index
                    &&& final(self).runs@[p].spawn_channel == old(self).runs@[p].spawn_channel
                    &&& final(self).runs@[p].samples == old(self).runs@[p].samples
                    &&& final(self).runs@[p].path == old(self).runs@[p].path
                    &&& final(self).runs@[p].graph_open == old(self).runs@[p].graph_open
                    &&& final(self).runs@[p].show_ghost == old(self).runs@[p].show_ghost
                } else {
                    !recorded && final(self).runs@ == old(self).runs@
                },
                None => !recorded && final(self).runs@ == old(self).runs@,
            },
            old(self).wf() ==> final(self).wf(),
            final(self).next_index == old(self).next_index,
            final(self).force_all_open == old(self).force_all_open,
            final(self).help_open == old(self).help_open,
            final(self).snare_tip_graph_open == old(self).snare_tip_graph_open,
    {
        proof {
            lemma_last_run_with_index(self.runs@, idx);
        }
        match self.get_run_mut(idx) {
            Some(run) => {
                if run.hit.is_none() {
                    run.hit = Some(hit);
                    true
                } else {
                    false
                }
            },
            None => false,
        }
    }


    /// Positions of the completed runs spawned from channel `ch`.
    pub fn completed_runs_on(&self, ch: usize) -> (ps: Vec<usize>)
        ensures
            ps@ == completed_positions(self.runs@, ch),
    {
        let mut ps: Vec<usize> = Vec::new();
        let n = self.runs.len();
        let mut i: usize = 0;
        while i < n
            invariant
                n == self.runs@.len(),
                i <= n,
                ps@ == completed_positions(self.runs@.take(i as int), ch),
            decreases n - i,
        {
            assert(self.runs@.take(i + 1).drop_last() =~= self.runs@.take(i as int));
            if self.runs[i].hit.is_some() && self.runs[i].spawn_channel == ch {
                ps.push(i);
            }
            i = i + 1;
        }
        assert(self.runs@.take(n as int) =~= self.runs@);
        ps
    }

    /// The completed runs grouped by spawn channel: the map holds exactly the
    /// channels with a completed run, each with the positions of its runs,
    /// oldest first.  Iterating the map visits the channels in increasing
    /// order.
    pub fn completed_by_channel(&self) -> (groups: BTreeMap<usize, Vec<usize>>)
        ensures
            forall|ch: usize| #[trigger] groups@.contains_key(ch) <==> has_completed_on(self.runs@, ch),
            forall|ch: usize|
                #[trigger] groups@.contains_key(ch) ==> groups@[ch]@ == completed_positions(
                    self.runs@,
                    ch,
                ),
    {
        broadcast use vstd::std_specs::btree::group_btree_axioms, vstd::laws_cmp::group_laws_cmp;

        let mut groups: BTreeMap<usize, Vec<usize>> = BTreeMap::new();
        let n = self.runs.len();
        let mut i: usize = 0;
        while i < n
            invariant
                n == self.runs@.len(),
                i <= n,
                forall|ch: usize|
                    #[trigger] groups@.contains_key(ch) <==> completed_in_prefix(self.runs@, i, ch).len() > 0,
                forall|ch: usize|
                    #[trigger] groups@.contains_key(ch) ==> groups@[ch]@ == completed_in_prefix(
                        self.runs@,
                        i,
                        ch,
                    ),
            decreases n - i,
        {
            proof {
                lemma_completed_in_prefix_step(self.runs@, i);
            }
            if self.runs[i].hit.is_some() {
                let ch = self.runs[i].spawn_channel;
                let mut v = match groups.remove(&ch) {
                    Some(v) => v,
                    None => Vec::new(),
                };
                v.push(i);
                groups.insert(ch, v);
            }
            i = i + 1;
        }
        proof {
            lemma_completed_in_prefix_all(self.runs@, n);
            assert forall|ch: usize| #[trigger] groups@.contains_key(ch) <==> has_completed_on(
                self.runs@,
                ch,
            ) by {
                lemma_completed_positions_nonempty(self.runs@, ch);
            }
        }
        groups
    }

    /// Forgets every run and starts numbering again from zero.
    pub fn reset(&mut self)
        ensures
            final(self).wf(),
            final(self).runs@.len() == 0,
            final(self).next_index == 0,
            final(self).force_all_open == old(self).force_all_open,
            final(self).help_open == old(self).help_open,
            final(self).snare_tip_graph_open == old(self).snare_tip_graph_open,
    {
        self.runs.clear();
        self.next_index = 0;
    }

    /// Whether any run currently shows its ghost path.
    pub open spec fn any_ghost_shown(&self) -> bool {
        exists|i: int| 0 <= i < self.runs@.len() && #[trigger] self.runs@[i].show_ghost
    }

    /// Law of the ghost toggle's state: ghosts count as shown exactly when at
    /// least one run shows its ghost path; a history without runs shows none.
    pub proof fn lemma_any_ghost_shown(&self)
        ensures
            self.any_ghost_shown() <==> exists|i: int|
                0 <= i < self.runs@.len() && #[trigger] self.runs@[i].show_ghost,
            self.runs@.len() == 0 ==> !self.any_ghost_shown(),
            forall|i: int| 0 <= i < self.runs@.len() && #[trigger] self.runs@[i].show_ghost
                ==> self.any_ghost_shown(),
    {
    }

    /// "Show Ghosts" / "Hide Ghosts": hides every ghost path if any is shown,
    /// otherwise shows them all.  Returns the new visibility.
    pub fn toggle_all_ghosts(&mut self) -> (shown: bool)
        ensures
            shown == !old(self).any_ghost_shown(),
            final(self).runs@.len() == old(self).runs@.len(),
            forall|i: int|
                0 <= i < old(self).runs@.len() ==> {
                    &&& (#[trigger] final(self).runs@[i]).show_ghost == shown
                    &&& final(self).runs@[i].index == old(self).runs@[i].index
                    &&& final(self).runs@[i].spawn_channel == old(self).runs@[i].spawn_channel
                    &&& final(self).runs@[i].hit == old(self).runs@[i].hit
                    &&& final(self).runs@[i].samples == old(self).runs@[i].samples
                    &&& final(self).runs@[i].path == old(self).runs@[i].path
                    &&& final(self).runs@[i].graph_open == old(self).runs@[i].graph_open
                },
            final(self).next_index == old(self).next_index,
            final(self).force_all_open == old(self).force_all_open,
            final(self).help_open == old(self).help_open,
            final(self).snare_tip_graph_open == old(self).snare_tip_graph_open,
            old(self).wf() ==> final(self).wf(),
    {
        let n = self.runs.len();
        let mut any = false;
        let mut i: usize = 0;
        while i < n
            invariant
                n == self.runs@.len(),
                i <= n,
                any <==> exists|j: int| 0 <= j < i && #[trigger] self.runs@[j].show_ghost,
            decreases n - i,
        {
            if self.runs[i].show_ghost {
                any = true;
            }
            i = i + 1;
        }
        let shown = !any;
        let mut k: usize = 0;
        while k < n
            invariant
                n == self.runs@.len(),
                n == old(self).runs@.len(),
                k <= n,
                self.next_index == old(self).next_index,
                self.force_all_open == old(self).force_all_open,
                self.help_open == old(self).help_open,
                self.snare_tip_graph_open == old(self).snare_tip_graph_open,
                forall|i: int|
                    0 <= i < n ==> {
                        &&& (#[trigger] self.runs@[i]).show_ghost == if i < k {
                            shown
                        } else {
                            old(self).runs@[i].show_ghost
                        }
                        &&& self.runs@[i].index == old(self).runs@[i].index
                        &&& self.runs@[i].spawn_channel == old(self).runs@[i].spawn_channel
                        &&& self.runs@[i].hit == old(self).runs@[i].hit
                        &&& self.runs@[i].samples == old(self).runs@[i].samples
                        &&& self.runs@[i].path == old(self).runs@[i].path
                        &&& self.runs@[i].graph_open == old(self).runs@[i].graph_open
                    },
            decreases n - k,
        {
            self.runs[k].show_ghost = shown;
            k = k + 1;
        }
        shown
    }
}

impl<H, S, P> core::default::Default for RunHistory<H, S, P> {
    fn default() -> (h: Self)
        ensures
            h.wf(),
            h.runs@.len() == 0,
            h.next_index == 0,
            h.force_all_open is None,
            !h.help_open,
            !h.snare_tip_graph_open,
    {
        Self::new()
    }
}

} // verus!
