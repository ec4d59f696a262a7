//! The toggle selection protocol: a fixed universe of items is split into a
//! selected and an unselected part, and each reaction on an item's marker
//! moves that item to the other part, until the actor affirms, denies, or
//! lets the wait run out.
//!
//! The engine holds no handles and performs no I/O. A driver attaches the
//! markers listed by `attachment_plan`, hands each delivered event to
//! `handle`, renders after every `Step::Continue`, and reports a wait that ran
//! out through `expire`.

use vstd::prelude::*;
use crate::marker::{affirm_marker, affirm_spec, deny_marker, deny_spec, Marker, ReactionEvent};
use crate::text::joined;

verus! {

/// One entry of the universe. `marker` is `None` when the item's marker could
/// not be resolved: such an item cannot be toggled and keeps its side.
pub struct SelectableItem {
    pub id: i64,
    pub code: String,
    pub title: String,
    pub marker: Option<Marker>,
}

/// The markers that drive a selection, the per-wait timeout, and the actor
/// whose events count (`None`: any actor).
#[derive(Clone, Copy, Debug, PartialEq, Eq, Structural)]
pub struct SelectionConfig {
    pub affirm: Marker,
    pub deny: Marker,
    pub timeout_secs: u64,
    pub required_actor: Option<u64>,
}

/// The wait for one event, in seconds, unless a caller sets another.
pub const DEFAULT_TIMEOUT_SECS: u64 = 180;

impl SelectionConfig {
    /// The standard markers (check mark to affirm, cross to deny) with the
    /// default timeout.
    pub fn standard(required_actor: Option<u64>) -> (r: SelectionConfig)
        ensures
            r == (SelectionConfig {
                affirm: affirm_spec(),
                deny: deny_spec(),
                timeout_secs: DEFAULT_TIMEOUT_SECS,
                required_actor,
            }),
    {
        SelectionConfig { affirm: affirm_marker(), deny: deny_marker(), timeout_secs: DEFAULT_TIMEOUT_SECS, required_actor }
    }
}

/// What the driver does after one event or one expired wait.
#[derive(Clone, Copy, Debug, PartialEq, Eq, Structural)]
pub enum Step {
    /// The event was not one the selection listens to: keep waiting against
    /// the same deadline, without rendering.
    Ignored,
    /// An item was toggled: render the partition and wait again.
    Continue,
    /// The actor affirmed: the partition accumulated so far is the result.
    Confirmed,
    /// The actor denied: the partition is discarded.
    Canceled,
    /// No qualifying event came in time: the partition is discarded.
    TimedOut,
}

/// The result of a whole selection run. Only a confirmed run carries a
/// partition, given as item ids in universe order.
pub enum SelectionOutcome {
    Selected { selected: Vec<i64>, unselected: Vec<i64> },
    Canceled,
    TimedOut,
}

// ----------------------------------------------------------------------------
// The model.

/// `i` is the first item of `items` whose marker is `m`.
pub open spec fn is_slot(items: Seq<SelectableItem>, m: Marker, i: int) -> bool {
    &&& 0 <= i < items.len()
    &&& items[i].marker == Some(m)
    &&& forall|j: int| 0 <= j < i ==> items[j].marker != Some(m)
}

/// Some item of `items` carries the marker `m`.
pub open spec fn resolvable(items: Seq<SelectableItem>, m: Marker) -> bool {
    exists|i: int| is_slot(items, m, i)
}

/// The item that the marker `m` toggles.
pub open spec fn slot(items: Seq<SelectableItem>, m: Marker) -> int {
    choose|i: int| is_slot(items, m, i)
}

/// The event is one the selection listens to: it comes from the required
/// actor, if one is set, and its marker is the affirm or deny marker or the
/// marker of some item. Add and Remove are not told apart.
pub open spec fn qualifies(cfg: SelectionConfig, items: Seq<SelectableItem>, ev: ReactionEvent) -> bool {
    &&& (cfg.required_actor matches Some(a) ==> ev.actor == a)
    &&& (ev.marker == cfg.affirm || ev.marker == cfg.deny || resolvable(items, ev.marker))
}

/// The event arrived within the timeout of the wait that began at `clock`.
pub open spec fn in_time(cfg: SelectionConfig, clock: u64, ev: ReactionEvent) -> bool {
    ev.timestamp <= clock + cfg.timeout_secs
}

/// The step that an event causes in a wait that began at `clock`.
pub open spec fn step_of(
    cfg: SelectionConfig,
    items: Seq<SelectableItem>,
    clock: u64,
    ev: ReactionEvent,
) -> Step {
    if !qualifies(cfg, items, ev) {
        Step::Ignored
    } else if !in_time(cfg, clock, ev) {
        Step::TimedOut
    } else if ev.marker == cfg.affirm {
        Step::Confirmed
    } else if ev.marker == cfg.deny {
        Step::Canceled
    } else {
        Step::Continue
    }
}

/// Membership after an event on marker `m`: the item that `m` resolves to
/// changes side, and nothing else moves.
pub open spec fn toggled(items: Seq<SelectableItem>, flags: Seq<bool>, m: Marker) -> Seq<bool> {
    if resolvable(items, m) {
        flags.update(slot(items, m), !flags[slot(items, m)])
    } else {
        flags
    }
}

/// The run of a selection over a finite sequence of delivered events: the
/// terminal step and the membership at that point. A sequence that ends
/// before a terminal step is a timeout.
pub open spec fn run_spec(
    cfg: SelectionConfig,
    items: Seq<SelectableItem>,
    flags: Seq<bool>,
    clock: u64,
    events: Seq<ReactionEvent>,
) -> (Step, Seq<bool>)
    decreases events.len(),
{
    if events.len() == 0 {
        (Step::TimedOut, flags)
    } else {
        let ev = events[0];
        match step_of(cfg, items, clock, ev) {
            Step::Ignored => run_spec(cfg, items, flags, clock, events.drop_first()),
            Step::Continue => run_spec(
                cfg,
                items,
                toggled(items, flags, ev.marker),
                ev.timestamp,
                events.drop_first(),
            ),
            s => (s, flags),
        }
    }
}

/// The ids of the first `n` items whose membership flag is `side`, in order.
pub open spec fn ids_on(items: Seq<SelectableItem>, flags: Seq<bool>, side: bool, n: int) -> Seq<i64>
    decreases n,
{
    if n <= 0 {
        Seq::<i64>::empty()
    } else if flags[n - 1] == side {
        ids_on(items, flags, side, n - 1).push(items[n - 1].id)
    } else {
        ids_on(items, flags, side, n - 1)
    }
}

/// The selected ids.
pub open spec fn selected_ids(items: Seq<SelectableItem>, flags: Seq<bool>) -> Seq<i64> {
    ids_on(items, flags, true, items.len() as int)
}

/// The unselected ids.
pub open spec fn unselected_ids(items: Seq<SelectableItem>, flags: Seq<bool>) -> Seq<i64> {
    ids_on(items, flags, false, items.len() as int)
}

/// The resolvable markers of the first `n` items, in order.
pub open spec fn markers_of(items: Seq<SelectableItem>, n: int) -> Seq<Marker>
    decreases n,
{
    if n <= 0 {
        Seq::<Marker>::empty()
    } else {
        match items[n - 1].marker {
            Some(m) => markers_of(items, n - 1).push(m),
            None => markers_of(items, n - 1),
        }
    }
}

/// The markers to attach to the message: affirm, deny, then every resolvable
/// item marker in universe order.
pub open spec fn plan_spec(cfg: SelectionConfig, items: Seq<SelectableItem>) -> Seq<Marker> {
    seq![cfg.affirm, cfg.deny] + markers_of(items, items.len() as int)
}

/// The universe's ids.
pub open spec fn universe_ids(items: Seq<SelectableItem>) -> Set<i64> {
    Set::new(|x: i64| exists|i: int| 0 <= i < items.len() && items[i].id == x)
}

/// No two items share an id.
pub open spec fn distinct_ids(items: Seq<SelectableItem>) -> bool {
    forall|i: int, j: int| 0 <= i < items.len() && 0 <= j < items.len() && i != j ==> items[i].id != items[j].id
}

// ----------------------------------------------------------------------------
// The engine.

/// A running selection: the universe, the membership of each item, the time at
/// which the current wait began, and how many markers of the attachment plan
/// are known to be attached.
pub struct Selection {
    pub config: SelectionConfig,
    pub items: Vec<SelectableItem>,
    pub flags: Vec<bool>,
    pub clock: u64,
    pub attached: usize,
}

impl Selection {
    pub open spec fn wf(&self) -> bool {
        &&& self.flags@.len() == self.items@.len()
        &&& self.attached <= plan_spec(self.config, self.items@).len()
    }

    /// Starts a selection at time `now` over the universe `selected` followed
    /// by `unselected`, with the first part selected.
    pub fn new(
        config: SelectionConfig,
        selected: Vec<SelectableItem>,
        unselected: Vec<SelectableItem>,
        now: u64,
    ) -> (r: Selection)
        ensures
            r.wf(),
            r.config == config,
            r.items@ == selected@ + unselected@,
            r.flags@ == Seq::new(selected@.len(), |i: int| true) + Seq::new(unselected@.len(), |i: int| false),
            r.clock == now,
            r.attached == 0,
    {
        let ghost s0 = selected@;
        let ghost u0 = unselected@;
        let mut items: Vec<SelectableItem> = Vec::new();
        let mut flags: Vec<bool> = Vec::new();
        let mut selected = selected;
        let mut unselected = unselected;
        let n_sel = selected.len();
        let n_unsel = unselected.len();
        items.append(&mut selected);
        items.append(&mut unselected);
        let mut i: usize = 0;
        while i < n_sel
            invariant
                i <= n_sel,
                flags@ == Seq::new(i as nat, |k: int| true),
            decreases n_sel - i,
        {
            flags.push(true);
            i = i + 1;
            assert(flags@ =~= Seq::new(i as nat, |k: int| true));
        }
        let mut j: usize = 0;
        while j < n_unsel
            invariant
                j <= n_unsel,
                flags@ == Seq::new(n_sel as nat, |k: int| true) + Seq::new(j as nat, |k: int| false),
            decreases n_unsel - j,
        {
            flags.push(false);
            j = j + 1;
            assert(flags@ =~= Seq::new(n_sel as nat, |k: int| true) + Seq::new(j as nat, |k: int| false));
        }
        assert(items@ =~= s0 + u0);
        let r = Selection { config, items, flags, clock: now, attached: 0 };
        r
    }
}

/// The index of the first item whose marker is `m`.
pub fn find_slot(items: &Vec<SelectableItem>, m: Marker) -> (r: Option<usize>)
    ensures
        match r {
            Some(i) => is_slot(items@, m, i as int),
            None => !resolvable(items@, m),
        },
{
    let mut i: usize = 0;
    while i < items.len()
        invariant
            i <= items@.len(),
            forall|j: int| 0 <= j < i ==> items@[j].marker != Some(m),
        decreases items@.len() - i,
    {
        let hit = match items[i].marker {
            Some(x) => x == m,
            None => false,
        };
        if hit {
            return Some(i);
        }
        i = i + 1;
    }
    proof {
        assert forall|k: int| !is_slot(items@, m, k) by {
            if 0 <= k < items@.len() {
                assert(items@[k].marker != Some(m));
            }
        }
    }
    None
}

/// Two first positions of one marker are the same position.
pub proof fn lemma_slot_unique(items: Seq<SelectableItem>, m: Marker, i: int, j: int)
    requires
        is_slot(items, m, i),
        is_slot(items, m, j),
    ensures
        i == j,
{
    if i < j {
        assert(items[i].marker != Some(m));
    } else if j < i {
        assert(items[j].marker != Some(m));
    }
}

/// The position that `slot` picks is the one `find_slot` found.
pub proof fn lemma_slot_is(items: Seq<SelectableItem>, m: Marker, i: int)
    requires
        is_slot(items, m, i),
    ensures
        resolvable(items, m),
        slot(items, m) == i,
{
    assert(resolvable(items, m));
    let k = slot(items, m);
    lemma_slot_unique(items, m, i, k);
}

impl Selection {
    /// Whether the event is one this selection listens to.
    pub fn qualifies(&self, ev: &ReactionEvent) -> (r: bool)
        ensures
            r == qualifies(self.config, self.items@, *ev),
    {
        let actor_ok = match self.config.required_actor {
            Some(a) => ev.actor == a,
            None => true,
        };
        if !actor_ok {
            return false;
        }
        if ev.marker == self.config.affirm || ev.marker == self.config.deny {
            return true;
        }
        find_slot(&self.items, ev.marker).is_some()
    }

    /// Handles one delivered event: toggles the item its marker resolves to,
    /// or ends the selection on affirm, deny or an event that came too late.
    /// Events that do not qualify change nothing, not even the deadline.
    pub fn handle(&mut self, ev: &ReactionEvent) -> (r: Step)
        requires
            old(self).wf(),
        ensures
            final(self).wf(),
            r == step_of(old(self).config, old(self).items@, old(self).clock, *ev),
            final(self).config == old(self).config,
            final(self).items@ == old(self).items@,
            final(self).attached == old(self).attached,
            r == Step::Continue ==> final(self).flags@ == toggled(old(self).items@, old(self).flags@, ev.marker)
                && final(self).clock == ev.timestamp,
            r != Step::Continue ==> final(self).flags@ == old(self).flags@
                && final(self).clock == old(self).clock,
    {
        if !self.qualifies(ev) {
            return Step::Ignored;
        }
        let late = ev.timestamp > self.clock && ev.timestamp - self.clock > self.config.timeout_secs;
        if late {
            return Step::TimedOut;
        }
        if ev.marker == self.config.affirm {
            return Step::Confirmed;
        }
        if ev.marker == self.config.deny {
            return Step::Canceled;
        }
        match find_slot(&self.items, ev.marker) {
            Some(i) => {
                proof {
                    lemma_slot_is(self.items@, ev.marker, i as int);
                }
                let cur = self.flags[i];
                self.flags.set(i, !cur);
            }
            None => {}
        }
        self.clock = ev.timestamp;
        Step::Continue
    }

    /// The wait ran out, or the event source ended, with no qualifying event.
    pub fn expire(&self) -> (r: Step)
        ensures
            r == Step::TimedOut,
    {
        Step::TimedOut
    }

    /// The markers to attach to the message, in the order to attach them.
    pub fn attachment_plan(&self) -> (r: Vec<Marker>)
        ensures
            r@ == plan_spec(self.config, self.items@),
    {
        let mut r: Vec<Marker> = Vec::new();
        r.push(self.config.affirm);
        r.push(self.config.deny);
        let mut i: usize = 0;
        while i < self.items.len()
            invariant
                i <= self.items@.len(),
                r@ == seq![self.config.affirm, self.config.deny] + markers_of(self.items@, i as int),
            decreases self.items@.len() - i,
        {
            match self.items[i].marker {
                Some(m) => {
                    r.push(m);
                }
                None => {}
            }
            i = i + 1;
            assert(r@ =~= seq![self.config.affirm, self.config.deny] + markers_of(self.items@, i as int));
        }
        r
    }

    /// Records that one more marker of the plan has been attached.
    pub fn note_attached(&mut self)
        requires
            old(self).wf(),
        ensures
            final(self).wf(),
            final(self).attached == if old(self).attached < plan_spec(old(self).config, old(self).items@).len() {
                old(self).attached + 1
            } else {
                old(self).attached as int
            },
            final(self).config == old(self).config,
            final(self).items@ == old(self).items@,
            final(self).flags@ == old(self).flags@,
            final(self).clock == old(self).clock,
    {
        let total = self.plan_len();
        if self.attached < total {
            self.attached = self.attached + 1;
        }
    }

    /// How many markers the plan holds.
    pub fn plan_len(&self) -> (r: usize)
        ensures
            r == plan_spec(self.config, self.items@).len(),
    {
        let plan = self.attachment_plan();
        plan.len()
    }

    /// How many markers of the plan are still to be attached; at teardown
    /// these are awaited or canceled before the session is disposed.
    pub fn pending_attachments(&self) -> (r: usize)
        requires
            self.wf(),
        ensures
            r == plan_spec(self.config, self.items@).len() - self.attached,
    {
        self.plan_len() - self.attached
    }

    /// The ids on one side of the partition, in universe order.
    pub fn ids_on_side(&self, side: bool) -> (r: Vec<i64>)
        requires
            self.wf(),
        ensures
            r@ == ids_on(self.items@, self.flags@, side, self.items@.len() as int),
    {
        let mut r: Vec<i64> = Vec::new();
        let mut i: usize = 0;
        while i < self.items.len()
            invariant
                self.wf(),
                i <= self.items@.len(),
                r@ == ids_on(self.items@, self.flags@, side, i as int),
            decreases self.items@.len() - i,
        {
            if self.flags[i] == side {
                r.push(self.items[i].id);
            }
            i = i + 1;
        }
        r
    }

    /// The selected ids, in universe order.
    pub fn selected(&self) -> (r: Vec<i64>)
        requires
            self.wf(),
        ensures
            r@ == selected_ids(self.items@, self.flags@),
    {
        self.ids_on_side(true)
    }

    /// The unselected ids, in universe order.
    pub fn unselected(&self) -> (r: Vec<i64>)
        requires
            self.wf(),
        ensures
            r@ == unselected_ids(self.items@, self.flags@),
    {
        self.ids_on_side(false)
    }
}

/// Runs a selection over the events delivered, in delivery order. The run
/// ends at the first terminal step; events left after it are not read, and a
/// sequence that ends first counts as a timeout.
pub fn run_selection(start: Selection, events: &Vec<ReactionEvent>) -> (r: SelectionOutcome)
    requires
        start.wf(),
    ensures
        ({
            let run = run_spec(start.config, start.items@, start.flags@, start.clock, events@);
            match r {
                SelectionOutcome::Selected { selected, unselected } => run.0 == Step::Confirmed
                    && selected@ == selected_ids(start.items@, run.1)
                    && unselected@ == unselected_ids(start.items@, run.1),
                SelectionOutcome::Canceled => run.0 == Step::Canceled,
                SelectionOutcome::TimedOut => run.0 == Step::TimedOut,
            }
        }),
{
    let ghost cfg = start.config;
    let ghost items = start.items@;
    let ghost goal = run_spec(start.config, start.items@, start.flags@, start.clock, events@);
    let mut sel = start;
    let n = events.len();
    let mut k: usize = 0;
    assert(events@.subrange(0, n as int) =~= events@);
    while k < n
        invariant
            n == events@.len(),
            sel.wf(),
            sel.config == cfg,
            sel.items@ == items,
            k <= n,
            cfg == start.config,
            items == start.items@,
            goal == run_spec(start.config, start.items@, start.flags@, start.clock, events@),
            run_spec(cfg, items, sel.flags@, sel.clock, events@.subrange(k as int, n as int)) == goal,
        decreases n - k,
    {
        let ghost rest = events@.subrange(k as int, n as int);
        assert(rest[0] == events@[k as int]);
        assert(rest.drop_first() =~= events@.subrange(k + 1, n as int));
        let step = sel.handle(&events[k]);
        match step {
            Step::Confirmed => {
                let selected = sel.selected();
                let unselected = sel.unselected();
                return SelectionOutcome::Selected { selected, unselected };
            }
            Step::Canceled => {
                return SelectionOutcome::Canceled;
            }
            Step::TimedOut => {
                return SelectionOutcome::TimedOut;
            }
            _ => {}
        }
        k = k + 1;
    }
    SelectionOutcome::TimedOut
}

// ----------------------------------------------------------------------------
// Rendering.

/// One line of the rendered selection: an item that has a marker, its side,
/// and its label ("[check or cross] | code").
pub struct RenderRow {
    pub id: i64,
    pub selected: bool,
    pub marker: Marker,
    pub label: String,
}

/// The label of an item: a check mark when selected, a cross when not, then
/// its code.
pub open spec fn label_spec(selected: bool, code: Seq<char>) -> Seq<char> {
    (if selected { "\u{2705} | "@ } else { "\u{274C} | "@ }) + code
}

/// The rows for the first `n` items: those that have a marker, in order, as
/// (id, side, marker, code).
pub open spec fn rows_spec(items: Seq<SelectableItem>, flags: Seq<bool>, n: int) -> Seq<(i64, bool, Marker, Seq<char>)>
    decreases n,
{
    if n <= 0 {
        Seq::<(i64, bool, Marker, Seq<char>)>::empty()
    } else {
        match items[n - 1].marker {
            Some(m) => rows_spec(items, flags, n - 1).push((items[n - 1].id, flags[n - 1], m, items[n - 1].code@)),
            None => rows_spec(items, flags, n - 1),
        }
    }
}

/// The footer under the rendered selection: a wait notice while markers are
/// still being attached, the instructions after that.
pub open spec fn footer_spec(loading: bool) -> Seq<char> {
    if loading {
        "Loading emojis. Please wait..."@
    } else {
        "React with the corresponding emoji to select/unselect a role. Use \u{2705} to confirm. Use \u{274C} to abort"@
    }
}

impl Selection {
    /// The rows to show for the current partition. Rendering reads the state
    /// and changes nothing.
    pub fn render_rows(&self) -> (r: Vec<RenderRow>)
        requires
            self.wf(),
        ensures
            r@.len() == rows_spec(self.items@, self.flags@, self.items@.len() as int).len(),
            forall|k: int| 0 <= k < r@.len() ==> {
                let row = #[trigger] rows_spec(self.items@, self.flags@, self.items@.len() as int)[k];
                &&& r@[k].id == row.0
                &&& r@[k].selected == row.1
                &&& r@[k].marker == row.2
                &&& r@[k].label@ == label_spec(row.1, row.3)
            },
    {
        let mut r: Vec<RenderRow> = Vec::new();
        let mut i: usize = 0;
        while i < self.items.len()
            invariant
                self.wf(),
                i <= self.items@.len(),
                r@.len() == rows_spec(self.items@, self.flags@, i as int).len(),
                forall|k: int| 0 <= k < r@.len() ==> {
                    let row = #[trigger] rows_spec(self.items@, self.flags@, i as int)[k];
                    &&& r@[k].id == row.0
                    &&& r@[k].selected == row.1
                    &&& r@[k].marker == row.2
                    &&& r@[k].label@ == label_spec(row.1, row.3)
                },
            decreases self.items@.len() - i,
        {
            let ghost before = rows_spec(self.items@, self.flags@, i as int);
            match self.items[i].marker {
                Some(m) => {
                    let selected = self.flags[i];
                    let head = if selected { "\u{2705} | " } else { "\u{274C} | " };
                    let label = joined(head, self.items[i].code.as_str());
                    r.push(RenderRow { id: self.items[i].id, selected, marker: m, label });
                    let ghost after = rows_spec(self.items@, self.flags@, i + 1);
                    assert(after == before.push((self.items@[i as int].id, selected, m, self.items@[i as int].code@)));
                    assert forall|k: int| 0 <= k < r@.len() implies {
                        let row = #[trigger] after[k];
                        &&& r@[k].id == row.0
                        &&& r@[k].selected == row.1
                        &&& r@[k].marker == row.2
                        &&& r@[k].label@ == label_spec(row.1, row.3)
                    } by {
                        if k < before.len() {
                            assert(after[k] == before[k]);
                        }
                    }
                }
                None => {}
            }
            i = i + 1;
        }
        r
    }
}

/// The footer text.
pub fn footer_text(loading: bool) -> (r: &'static str)
    ensures
        r@ == footer_spec(loading),
{
    if loading {
        "Loading emojis. Please wait..."
    } else {
        "React with the corresponding emoji to select/unselect a role. Use \u{2705} to confirm. Use \u{274C} to abort"
    }
}

// ----------------------------------------------------------------------------
// Laws of the protocol.

/// An id is on a side among the first `n` items exactly when one of those
/// items has that id and that side.
pub proof fn lemma_ids_on_contains(items: Seq<SelectableItem>, flags: Seq<bool>, side: bool, n: int, x: i64)
    requires
        0 <= n <= items.len(),
        flags.len() == items.len(),
    ensures
        ids_on(items, flags, side, n).contains(x)
            <==> exists|i: int| 0 <= i < n && flags[i] == side && items[i].id == x,
    decreases n,
{
    if n > 0 {
        lemma_ids_on_contains(items, flags, side, n - 1, x);
        let prev = ids_on(items, flags, side, n - 1);
        if flags[n - 1] == side {
            let cur = prev.push(items[n - 1].id);
            assert(cur[prev.len() as int] == items[n - 1].id);
            if cur.contains(x) {
                let k = choose|k: int| 0 <= k < cur.len() && cur[k] == x;
                if k < prev.len() {
                    assert(prev[k] == x);
                    assert(prev.contains(x));
                } else {
                    assert(flags[n - 1] == side && items[n - 1].id == x);
                }
            }
            if exists|i: int| 0 <= i < n && flags[i] == side && items[i].id == x {
                let i = choose|i: int| 0 <= i < n && flags[i] == side && items[i].id == x;
                if i < n - 1 {
                    assert(prev.contains(x));
                    let k = choose|k: int| 0 <= k < prev.len() && prev[k] == x;
                    assert(cur[k] == x);
                } else {
                    assert(cur[prev.len() as int] == x);
                }
            }
        } else {
            if exists|i: int| 0 <= i < n && flags[i] == side && items[i].id == x {
                let i = choose|i: int| 0 <= i < n && flags[i] == side && items[i].id == x;
                assert(i < n - 1);
            }
        }
    }
}

/// Whatever the membership flags, the two sides cover the universe and, when
/// ids are distinct, share no id.
pub proof fn lemma_sides_partition(items: Seq<SelectableItem>, flags: Seq<bool>)
    requires
        flags.len() == items.len(),
    ensures
        selected_ids(items, flags).to_set() + unselected_ids(items, flags).to_set() == universe_ids(items),
        distinct_ids(items) ==> selected_ids(items, flags).to_set() * unselected_ids(items, flags).to_set()
            == Set::<i64>::empty(),
{
    let n = items.len() as int;
    let s = selected_ids(items, flags).to_set();
    let u = unselected_ids(items, flags).to_set();
    assert forall|x: i64| (s + u).contains(x) <==> universe_ids(items).contains(x) by {
        lemma_ids_on_contains(items, flags, true, n, x);
        lemma_ids_on_contains(items, flags, false, n, x);
        if universe_ids(items).contains(x) {
            let i = choose|i: int| 0 <= i < items.len() && items[i].id == x;
            if flags[i] {
                assert(s.contains(x));
            } else {
                assert(u.contains(x));
            }
        }
    }
    assert(s + u =~= universe_ids(items));
    if distinct_ids(items) {
        assert forall|x: i64| !(s * u).contains(x) by {
            lemma_ids_on_contains(items, flags, true, n, x);
            lemma_ids_on_contains(items, flags, false, n, x);
            if s.contains(x) && u.contains(x) {
                let i = choose|i: int| 0 <= i < n && flags[i] == true && items[i].id == x;
                let j = choose|j: int| 0 <= j < n && flags[j] == false && items[j].id == x;
                assert(i != j);
            }
        }
        assert(s * u =~= Set::<i64>::empty());
    }
}

/// A run keeps one membership flag per item.
pub proof fn lemma_run_keeps_len(
    cfg: SelectionConfig,
    items: Seq<SelectableItem>,
    flags: Seq<bool>,
    clock: u64,
    events: Seq<ReactionEvent>,
)
    requires
        flags.len() == items.len(),
    ensures
        run_spec(cfg, items, flags, clock, events).1.len() == items.len(),
    decreases events.len(),
{
    if events.len() > 0 {
        let ev = events[0];
        match step_of(cfg, items, clock, ev) {
            Step::Ignored => lemma_run_keeps_len(cfg, items, flags, clock, events.drop_first()),
            Step::Continue => lemma_run_keeps_len(
                cfg,
                items,
                toggled(items, flags, ev.marker),
                ev.timestamp,
                events.drop_first(),
            ),
            _ => {}
        }
    }
}

/// Whatever the initial partition and whatever the events, the partition at
/// the end of a run still covers the universe, and with distinct ids its two
/// sides are disjoint.
pub proof fn lemma_run_keeps_partition(
    cfg: SelectionConfig,
    items: Seq<SelectableItem>,
    flags: Seq<bool>,
    clock: u64,
    events: Seq<ReactionEvent>,
)
    requires
        flags.len() == items.len(),
    ensures
        ({
            let f = run_spec(cfg, items, flags, clock, events).1;
            &&& selected_ids(items, f).to_set() + unselected_ids(items, f).to_set() == universe_ids(items)
            &&& distinct_ids(items) ==> selected_ids(items, f).to_set() * unselected_ids(items, f).to_set()
                == Set::<i64>::empty()
        }),
{
    lemma_run_keeps_len(cfg, items, flags, clock, events);
    lemma_sides_partition(items, run_spec(cfg, items, flags, clock, events).1);
}

/// Toggling one marker twice gives back the membership one started with.
pub proof fn lemma_toggle_twice(items: Seq<SelectableItem>, flags: Seq<bool>, m: Marker)
    requires
        flags.len() == items.len(),
    ensures
        toggled(items, toggled(items, flags, m), m) == flags,
{
    if resolvable(items, m) {
        let i = slot(items, m);
        assert(is_slot(items, m, i));
        assert(toggled(items, toggled(items, flags, m), m) =~= flags);
    }
}

/// Two timely events on the same item marker, whether each adds or removes
/// it, leave the run where it was: it goes on as if neither had come, from the
/// second one's time.
pub proof fn lemma_two_toggles_cancel(
    cfg: SelectionConfig,
    items: Seq<SelectableItem>,
    flags: Seq<bool>,
    clock: u64,
    e1: ReactionEvent,
    e2: ReactionEvent,
    rest: Seq<ReactionEvent>,
)
    requires
        flags.len() == items.len(),
        e1.marker == e2.marker,
        e1.marker != cfg.affirm,
        e1.marker != cfg.deny,
        qualifies(cfg, items, e1),
        qualifies(cfg, items, e2),
        in_time(cfg, clock, e1),
        in_time(cfg, e1.timestamp, e2),
    ensures
        run_spec(cfg, items, flags, clock, seq![e1, e2] + rest) == run_spec(cfg, items, flags, e2.timestamp, rest),
{
    let evs = seq![e1, e2] + rest;
    assert(evs[0] == e1);
    assert(evs.drop_first() =~= seq![e2] + rest);
    assert((seq![e2] + rest)[0] == e2);
    assert((seq![e2] + rest).drop_first() =~= rest);
    let f1 = toggled(items, flags, e1.marker);
    assert(run_spec(cfg, items, flags, clock, evs) == run_spec(cfg, items, f1, e1.timestamp, seq![e2] + rest));
    assert(run_spec(cfg, items, f1, e1.timestamp, seq![e2] + rest)
        == run_spec(cfg, items, toggled(items, f1, e2.marker), e2.timestamp, rest));
    lemma_toggle_twice(items, flags, e1.marker);
}

/// An event whose marker is neither affirm, deny, nor any item's marker
/// changes nothing: not the partition, not the deadline.
pub proof fn lemma_unresolvable_ignored(
    cfg: SelectionConfig,
    items: Seq<SelectableItem>,
    flags: Seq<bool>,
    clock: u64,
    ev: ReactionEvent,
    rest: Seq<ReactionEvent>,
)
    requires
        !resolvable(items, ev.marker),
        ev.marker != cfg.affirm,
        ev.marker != cfg.deny,
    ensures
        toggled(items, flags, ev.marker) == flags,
        step_of(cfg, items, clock, ev) == Step::Ignored,
        run_spec(cfg, items, flags, clock, seq![ev] + rest) == run_spec(cfg, items, flags, clock, rest),
{
    let evs = seq![ev] + rest;
    assert(evs[0] == ev);
    assert(evs.drop_first() =~= rest);
}

/// A timely affirm event from the right actor ends the run with the partition
/// accumulated so far. How far marker attachment has got is no input to the
/// run, so this holds with attachment still in progress.
pub proof fn lemma_affirm_confirms(
    cfg: SelectionConfig,
    items: Seq<SelectableItem>,
    flags: Seq<bool>,
    clock: u64,
    ev: ReactionEvent,
    rest: Seq<ReactionEvent>,
)
    requires
        ev.marker == cfg.affirm,
        cfg.required_actor matches Some(a) ==> ev.actor == a,
        in_time(cfg, clock, ev),
    ensures
        run_spec(cfg, items, flags, clock, seq![ev] + rest) == (Step::Confirmed, flags),
{
    let evs = seq![ev] + rest;
    assert(evs[0] == ev);
}

/// When no qualifying event arrives within the timeout of the current wait,
/// the run times out (and a timed-out run hands out no partition).
pub proof fn lemma_silence_times_out(
    cfg: SelectionConfig,
    items: Seq<SelectableItem>,
    flags: Seq<bool>,
    clock: u64,
    events: Seq<ReactionEvent>,
)
    requires
        forall|i: int| 0 <= i < events.len() && qualifies(cfg, items, #[trigger] events[i])
            ==> !in_time(cfg, clock, events[i]),
    ensures
        run_spec(cfg, items, flags, clock, events).0 == Step::TimedOut,
    decreases events.len(),
{
    if events.len() > 0 {
        let rest = events.drop_first();
        assert forall|i: int| 0 <= i < rest.len() && qualifies(cfg, items, #[trigger] rest[i])
            implies !in_time(cfg, clock, rest[i]) by {
            assert(rest[i] == events[i + 1]);
        }
        lemma_silence_times_out(cfg, items, flags, clock, rest);
    }
}

/// An item without a marker keeps its side through any run.
pub proof fn lemma_markerless_item_stays(
    cfg: SelectionConfig,
    items: Seq<SelectableItem>,
    flags: Seq<bool>,
    clock: u64,
    events: Seq<ReactionEvent>,
    i: int,
)
    requires
        flags.len() == items.len(),
        0 <= i < items.len(),
        items[i].marker is None,
    ensures
        run_spec(cfg, items, flags, clock, events).1[i] == flags[i],
    decreases events.len(),
{
    if events.len() > 0 {
        let ev = events[0];
        let f1 = toggled(items, flags, ev.marker);
        if resolvable(items, ev.marker) {
            let k = slot(items, ev.marker);
            assert(is_slot(items, ev.marker, k));
            assert(k != i);
        }
        assert(f1[i] == flags[i]);
        match step_of(cfg, items, clock, ev) {
            Step::Ignored => lemma_markerless_item_stays(cfg, items, flags, clock, events.drop_first(), i),
            Step::Continue => lemma_markerless_item_stays(cfg, items, f1, ev.timestamp, events.drop_first(), i),
            _ => {}
        }
    }
}

/// Whether an event adds or removes its marker makes no difference to the
/// run: both toggle alike.
pub proof fn lemma_kind_irrelevant(
    cfg: SelectionConfig,
    items: Seq<SelectableItem>,
    flags: Seq<bool>,
    clock: u64,
    ev: ReactionEvent,
    kind: crate::marker::EventKind,
    rest: Seq<ReactionEvent>,
)
    ensures
        run_spec(cfg, items, flags, clock, seq![ev] + rest)
            == run_spec(cfg, items, flags, clock, seq![ReactionEvent { kind, ..ev }] + rest),
{
    let e2 = ReactionEvent { kind, ..ev };
    assert((seq![ev] + rest)[0] == ev);
    assert((seq![e2] + rest)[0] == e2);
    assert((seq![ev] + rest).drop_first() =~= rest);
    assert((seq![e2] + rest).drop_first() =~= rest);
}

} // verus!
