//! The message rotation scheduler.
//!
//! The scheduler owns a FIFO queue of pending messages, the single "current"
//! slot holding the message being shown, and a monotonically increasing id
//! counter.  A message stays current for a fixed dwell time; a periodic tick
//! starts the next message when the slot is empty and advances past a
//! message whose dwell time has elapsed.  When the queue runs dry the last
//! message keeps showing indefinitely, and a submission that arrives after
//! the dwell time has elapsed replaces the current message immediately
//! instead of waiting for the next tick.
//!
//! Time is handed in by the caller as a millisecond reading of a monotonic
//! clock; a reading older than the recorded start of the current message
//! counts as zero elapsed time.

use vstd::prelude::*;

use crate::msgtext::{spec_trim, valid_text, validate_text};

verus! {

/// How long a message stays current before the rotation may advance, in
/// milliseconds.
pub const DWELL_MS: u64 = 60_000;

/// Mathematical image of a queued message.
pub ghost struct MsgModel {
    pub id: u64,
    pub text: Seq<char>,
    pub color: Option<Seq<char>>,
}

/// Mathematical image of the message in the current slot.
pub ghost struct CurModel {
    pub id: u64,
    pub text: Seq<char>,
    pub color: Option<Seq<char>>,
    pub started_ms: u64,
}

/// Mathematical image of the whole scheduler.
pub ghost struct SchedModel {
    pub queue: Seq<MsgModel>,
    pub current: Option<CurModel>,
    pub next_id: u64,
}

/// Mathematical image of one "apply this to the device" request.
pub ghost struct ApplyModel {
    pub text: Seq<char>,
    pub color: Option<Seq<char>>,
}

/// View of an optional color string.
pub open spec fn opt_text_view(o: Option<String>) -> Option<Seq<char>> {
    match o {
        Some(s) => Some(s@),
        None => None,
    }
}

/// A message waiting in the queue.
pub struct QueuedMessage {
    pub id: u64,
    pub text: String,
    pub color: Option<String>,
}

impl View for QueuedMessage {
    type V = MsgModel;

    open spec fn view(&self) -> MsgModel {
        MsgModel { id: self.id, text: self.text@, color: opt_text_view(self.color) }
    }
}

/// The message currently shown, with the clock reading at which it became
/// current.
pub struct CurrentDisplay {
    pub id: u64,
    pub text: String,
    pub color: Option<String>,
    pub started_ms: u64,
}

impl View for CurrentDisplay {
    type V = CurModel;

    open spec fn view(&self) -> CurModel {
        CurModel {
            id: self.id,
            text: self.text@,
            color: opt_text_view(self.color),
            started_ms: self.started_ms,
        }
    }
}

/// A request to show a message on the device, handed back to the caller
/// whenever a rotation step changed the current slot.
pub struct ApplyRequest {
    pub text: String,
    pub color: Option<String>,
}

impl View for ApplyRequest {
    type V = ApplyModel;

    open spec fn view(&self) -> ApplyModel {
        ApplyModel { text: self.text@, color: opt_text_view(self.color) }
    }
}

/// How an accepted submission was handled: appended to the queue, or
/// switched into the current slot at once.
pub enum Submitted {
    Queued { id: u64 },
    Switched { id: u64, apply: ApplyRequest },
}

/// Why a submission was rejected.
#[derive(Debug)]
pub enum SubmitError {
    InvalidInput,
}

impl SubmitError {
    /// A short description of the error.
    pub fn describe(&self) -> (r: &'static str)
        ensures
            r@ == "Invalid text"@,
    {
        "Invalid text"
    }
}

/// Milliseconds the current message has been showing at clock reading
/// `now`; a reading before the start counts as zero.
pub open spec fn spec_elapsed_ms(started: u64, now: u64) -> int {
    if now >= started {
        now - started
    } else {
        0
    }
}

/// The current message has used up its dwell time.
pub open spec fn dwell_reached(c: CurModel, now: u64) -> bool {
    spec_elapsed_ms(c.started_ms, now) >= DWELL_MS
}

/// The scheduler's internal consistency: every id was handed out by the
/// counter and no id occurs twice, and every stored text is valid.
pub open spec fn model_wf(m: SchedModel) -> bool {
    &&& forall|i: int|
        0 <= i < m.queue.len() ==> (#[trigger] m.queue[i]).id < m.next_id && valid_text(
            m.queue[i].text,
        )
    &&& forall|i: int, j: int|
        #![trigger m.queue[i], m.queue[j]]
        0 <= i < j < m.queue.len() ==> m.queue[i].id != m.queue[j].id
    &&& match m.current {
        Some(c) => c.id < m.next_id && valid_text(c.text) && (forall|i: int|
            0 <= i < m.queue.len() ==> (#[trigger] m.queue[i]).id != c.id),
        None => true,
    }
}

/// A submission is accepted exactly when its trimmed text is valid.
pub open spec fn submit_accepts(text: Seq<char>) -> bool {
    valid_text(spec_trim(text))
}

/// The fast path applies: a message is current and has used up its dwell
/// time, so a fresh submission replaces it at once.
pub open spec fn fast_path_applies(m: SchedModel, now: u64) -> bool {
    m.current matches Some(c) && dwell_reached(c, now)
}

/// A queued message promoted into the current slot at clock reading `now`.
pub open spec fn promoted(msg: MsgModel, now: u64) -> CurModel {
    CurModel { id: msg.id, text: msg.text, color: msg.color, started_ms: now }
}

/// State change of an accepted submission that took the fast path.
pub open spec fn submit_switched_post(
    pre: SchedModel,
    post: SchedModel,
    text: Seq<char>,
    color: Option<Seq<char>>,
    now: u64,
) -> bool {
    &&& post.queue == pre.queue
    &&& post.current == Some(
        CurModel { id: pre.next_id, text: spec_trim(text), color, started_ms: now },
    )
    &&& post.next_id == pre.next_id + 1
}

/// State change of an accepted submission appended to the queue tail.
pub open spec fn submit_queued_post(
    pre: SchedModel,
    post: SchedModel,
    text: Seq<char>,
    color: Option<Seq<char>>,
) -> bool {
    &&& post.queue == pre.queue.push(MsgModel { id: pre.next_id, text: spec_trim(text), color })
    &&& post.current == pre.current
    &&& post.next_id == pre.next_id + 1
}

/// Everything a submission may do to the state.
pub open spec fn submit_post(
    pre: SchedModel,
    post: SchedModel,
    text: Seq<char>,
    color: Option<Seq<char>>,
    now: u64,
) -> bool {
    if !submit_accepts(text) {
        post == pre
    } else if fast_path_applies(pre, now) {
        submit_switched_post(pre, post, text, color, now)
    } else {
        submit_queued_post(pre, post, text, color)
    }
}

/// The fill phase of a tick applies: nothing is current and a message
/// waits in the queue.
pub open spec fn tick_fills(m: SchedModel) -> bool {
    m.current is None && m.queue.len() > 0
}

/// The advance phase of a tick applies: the current message has used up
/// its dwell time and a message waits in the queue.
pub open spec fn tick_advances(m: SchedModel, now: u64) -> bool {
    m.current matches Some(c) && dwell_reached(c, now) && m.queue.len() > 0
}

/// A tick changes the state at all.
pub open spec fn tick_rotates(m: SchedModel, now: u64) -> bool {
    tick_fills(m) || tick_advances(m, now)
}

/// Everything a tick may do to the state: promote the queue head, or
/// nothing.
pub open spec fn tick_post(pre: SchedModel, post: SchedModel, now: u64) -> bool {
    if tick_rotates(pre, now) {
        &&& post.current == Some(promoted(pre.queue[0], now))
        &&& post.queue == pre.queue.drop_first()
        &&& post.next_id == pre.next_id
    } else {
        post == pre
    }
}

/// Everything a removal may do to the state: drop the id from the queue
/// and clear the current slot when it matches.
pub open spec fn remove_post(pre: SchedModel, post: SchedModel, id: u64) -> bool {
    &&& post.queue == pre.queue.filter(|m: MsgModel| m.id != id)
    &&& post.current == (match pre.current {
        Some(c) => if c.id == id {
            None
        } else {
            Some(c)
        },
        None => None,
    })
    &&& post.next_id == pre.next_id
}

/// A read-only view of the scheduler for reporting: the current message,
/// how many seconds it has been showing, and the queued messages in order.
pub struct Snapshot {
    pub current: Option<QueuedMessage>,
    pub elapsed_seconds: u64,
    pub items: Vec<QueuedMessage>,
}

/// The rotation scheduler.
pub struct Scheduler {
    queue: Vec<QueuedMessage>,
    current: Option<CurrentDisplay>,
    next_id: u64,
}

impl View for Scheduler {
    type V = SchedModel;

    closed spec fn view(&self) -> SchedModel {
        SchedModel {
            queue: self.queue@.map_values(|m: QueuedMessage| m@),
            current: match self.current {
                Some(c) => Some(c@),
                None => None,
            },
            next_id: self.next_id,
        }
    }
}

/// Clones an optional color string.
fn clone_opt_text(o: &Option<String>) -> (r: Option<String>)
    ensures
        opt_text_view(r) == opt_text_view(*o),
{
    match o {
        Some(s) => Some(s.clone()),
        None => None,
    }
}

/// Clones a queued message.
fn clone_message(m: &QueuedMessage) -> (r: QueuedMessage)
    ensures
        r@ == m@,
{
    QueuedMessage { id: m.id, text: m.text.clone(), color: clone_opt_text(&m.color) }
}

impl Scheduler {
    #[verifier::type_invariant]
    closed spec fn inv(self) -> bool {
        model_wf(self.view())
    }

    /// A scheduler with nothing queued, nothing shown, and ids starting
    /// at one.
    pub fn new() -> (s: Scheduler)
        ensures
            s@.queue.len() == 0,
            s@.current is None,
            s@.next_id == 1,
    {
        Scheduler { queue: Vec::new(), current: None, next_id: 1 }
    }

    /// The id the next accepted submission will get.
    pub fn peek_next_id(&self) -> (n: u64)
        ensures
            n == self@.next_id,
    {
        self.next_id
    }

    /// Accepts a new message: the trimmed text must be non-empty and at
    /// most 128 characters, else the submission is rejected.  An accepted
    /// message replaces the current slot at once when the current message
    /// has used up its dwell time (the caller is handed the apply request),
    /// and is appended to the queue tail otherwise.
    pub fn submit(&mut self, text: &str, color: Option<String>, now_ms: u64) -> (r: Result<
        Submitted,
        SubmitError,
    >)
        requires
            old(self)@.next_id < u64::MAX,
        ensures
            submit_post(old(self)@, final(self)@, text@, opt_text_view(color), now_ms),
            model_wf(final(self)@),
            r is Err <==> !submit_accepts(text@),
            r matches Err(e) ==> e == SubmitError::InvalidInput,
            r matches Ok(out) ==> match out {
                Submitted::Queued { id } => id == old(self)@.next_id && !fast_path_applies(
                    old(self)@,
                    now_ms,
                ),
                Submitted::Switched { id, apply } => id == old(self)@.next_id
                    && fast_path_applies(old(self)@, now_ms) && apply@.text == spec_trim(text@)
                    && apply@.color == opt_text_view(color),
            },
    {
        proof {
            use_type_invariant(&*self);
        }
        let trimmed = match validate_text(text) {
            Some(t) => t,
            None => {
                return Err(SubmitError::InvalidInput);
            },
        };
        let id = self.next_id;
        self.next_id = self.next_id + 1;

        let fast_path = match &self.current {
            Some(display) => now_ms >= display.started_ms && now_ms - display.started_ms
                >= DWELL_MS,
            None => false,
        };
        if fast_path {
            let apply = ApplyRequest { text: trimmed.clone(), color: clone_opt_text(&color) };
            self.current = Some(
                CurrentDisplay { id, text: trimmed, color, started_ms: now_ms },
            );
            Ok(Submitted::Switched { id, apply })
        } else {
            let msg = QueuedMessage { id, text: trimmed, color };
            let ghost pre_queue = self@.queue;
            let mut q: Vec<QueuedMessage> = Vec::new();
            core::mem::swap(&mut q, &mut self.queue);
            q.push(msg);
            proof {
                assert(q@.map_values(|m: QueuedMessage| m@) =~= pre_queue.push(
                    MsgModel { id, text: spec_trim(text@), color: opt_text_view(color) },
                ));
            }
            self.queue = q;
            Ok(Submitted::Queued { id })
        }
    }

    /// One rotation step at clock reading `now_ms`: starts the queue head
    /// when nothing is current, or replaces a current message whose dwell
    /// time has elapsed.  Returns the device apply request exactly when the
    /// current slot changed; with an empty queue the current message keeps
    /// showing indefinitely.
    pub fn tick(&mut self, now_ms: u64) -> (r: Option<ApplyRequest>)
        ensures
            tick_post(old(self)@, final(self)@, now_ms),
            model_wf(final(self)@),
            r is Some <==> tick_rotates(old(self)@, now_ms),
            r matches Some(a) ==> a@.text == old(self)@.queue[0].text && a@.color == old(
                self,
            )@.queue[0].color,
    {
        proof {
            use_type_invariant(&*self);
        }
        let rotate = match &self.current {
            None => self.queue.len() > 0,
            Some(display) => now_ms >= display.started_ms && now_ms - display.started_ms
                >= DWELL_MS && self.queue.len() > 0,
        };
        if !rotate {
            return None;
        }
        let ghost pre_queue = self@.queue;
        let mut q: Vec<QueuedMessage> = Vec::new();
        core::mem::swap(&mut q, &mut self.queue);
        let next = q.remove(0);
        proof {
            assert(q@.map_values(|m: QueuedMessage| m@) =~= pre_queue.drop_first());
        }
        self.queue = q;
        let apply = ApplyRequest { text: next.text.clone(), color: clone_opt_text(&next.color) };
        self.current = Some(
            CurrentDisplay {
                id: next.id,
                text: next.text,
                color: next.color,
                started_ms: now_ms,
            },
        );
        Some(apply)
    }

    /// Removes the message with the given id, wherever it is: a queued
    /// message disappears from the queue with the order of the rest kept,
    /// and a current message clears the slot.  An unknown id changes
    /// nothing; removal is idempotent.
    pub fn remove(&mut self, id: u64)
        ensures
            remove_post(old(self)@, final(self)@, id),
            model_wf(final(self)@),
    {
        proof {
            use_type_invariant(&*self);
        }
        let ghost pre_queue = self@.queue;
        let ghost pred = |m: MsgModel| m.id != id;
        let mut kept: Vec<QueuedMessage> = Vec::new();
        let mut i: usize = 0;
        proof {
            assert(pre_queue.subrange(0, 0).filter(pred) =~= Seq::<MsgModel>::empty());
        }
        while i < self.queue.len()
            invariant
                i <= self.queue@.len(),
                pre_queue == self.queue@.map_values(|m: QueuedMessage| m@),
                kept@.map_values(|m: QueuedMessage| m@) == pre_queue.subrange(0, i as int).filter(
                    pred,
                ),
                pred == (|m: MsgModel| m.id != id),
            decreases self.queue@.len() - i,
        {
            let ghost prior = kept@.map_values(|m: QueuedMessage| m@);
            let m = &self.queue[i];
            if m.id != id {
                kept.push(clone_message(m));
            }
            proof {
                assert(pre_queue.subrange(0, i + 1) =~= pre_queue.subrange(0, i as int).push(
                    pre_queue[i as int],
                ));
                lemma_filter_push(pre_queue.subrange(0, i as int), pred, pre_queue[i as int]);
                if pred(pre_queue[i as int]) {
                    assert(kept@.map_values(|m: QueuedMessage| m@) =~= prior.push(
                        pre_queue[i as int],
                    ));
                }
            }
            i += 1;
        }
        proof {
            assert(pre_queue.subrange(0, pre_queue.len() as int) =~= pre_queue);
            lemma_filter_keeps_queue_wf(pre_queue, self@.next_id, id);
            if self@.current matches Some(c) {
                lemma_filter_elements(pre_queue, pred);
            }
        }
        self.queue = kept;
        let clear = match &self.current {
            Some(c) => c.id == id,
            None => false,
        };
        if clear {
            self.current = None;
        }
    }

    /// A read-only snapshot at clock reading `now_ms`: the current message
    /// (if any) with its elapsed seconds, and the queued messages in order.
    pub fn snapshot(&self, now_ms: u64) -> (s: Snapshot)
        ensures
            s.items@.map_values(|m: QueuedMessage| m@) == self@.queue,
            match self@.current {
                Some(c) => s.current matches Some(e) && e@ == (MsgModel {
                    id: c.id,
                    text: c.text,
                    color: c.color,
                }) && s.elapsed_seconds == spec_elapsed_ms(c.started_ms, now_ms) / 1000,
                None => s.current is None && s.elapsed_seconds == 0,
            },
    {
        let mut items: Vec<QueuedMessage> = Vec::new();
        let mut i: usize = 0;
        while i < self.queue.len()
            invariant
                i <= self.queue@.len(),
                items@.map_values(|m: QueuedMessage| m@) == self@.queue.subrange(0, i as int),
            decreases self.queue@.len() - i,
        {
            let ghost prior = items@.map_values(|m: QueuedMessage| m@);
            items.push(clone_message(&self.queue[i]));
            proof {
                assert(items@.map_values(|m: QueuedMessage| m@) =~= prior.push(
                    self@.queue[i as int],
                ));
                assert(self@.queue.subrange(0, i + 1) =~= self@.queue.subrange(0, i as int).push(
                    self@.queue[i as int],
                ));
            }
            i += 1;
        }
        proof {
            assert(self@.queue.subrange(0, self@.queue.len() as int) =~= self@.queue);
        }
        match &self.current {
            Some(c) => {
                let elapsed_ms = if now_ms >= c.started_ms {
                    now_ms - c.started_ms
                } else {
                    0
                };
                Snapshot {
                    current: Some(
                        QueuedMessage {
                            id: c.id,
                            text: c.text.clone(),
                            color: clone_opt_text(&c.color),
                        },
                    ),
                    elapsed_seconds: elapsed_ms / 1000,
                    items,
                }
            },
            None => Snapshot { current: None, elapsed_seconds: 0, items },
        }
    }
}

/// Filtering one pushed element either keeps it or drops it, and touches
/// nothing before it.
proof fn lemma_filter_push<A>(s: Seq<A>, pred: spec_fn(A) -> bool, x: A)
    ensures
        s.push(x).filter(pred) == (if pred(x) {
            s.filter(pred).push(x)
        } else {
            s.filter(pred)
        }),
{
    reveal(Seq::filter);
    assert(s.push(x).drop_last() =~= s);
    assert(s.push(x).last() == x);
}

/// Every element of a filtered sequence occurs in the sequence it was
/// filtered from.
proof fn lemma_filter_elements<A>(s: Seq<A>, pred: spec_fn(A) -> bool)
    ensures
        forall|k: int|
            0 <= k < s.filter(pred).len() ==> s.contains(#[trigger] s.filter(pred)[k]),
    decreases s.len(),
{
    reveal(Seq::filter);
    if s.len() > 0 {
        lemma_filter_elements(s.drop_last(), pred);
        assert forall|k: int| 0 <= k < s.filter(pred).len() implies s.contains(
            #[trigger] s.filter(pred)[k],
        ) by {
            let f = s.filter(pred);
            let fd = s.drop_last().filter(pred);
            if k < fd.len() {
                assert(fd[k] == f[k]);
                let j = choose|j: int| 0 <= j < s.drop_last().len() && s.drop_last()[j] == fd[k];
                assert(s[j] == f[k]);
            } else {
                assert(f[k] == s.last());
            }
        }
    }
}

/// Dropping the entries with one id keeps the queue well formed: ids stay
/// below the counter, texts stay valid, and no id occurs twice.
proof fn lemma_filter_keeps_queue_wf(q: Seq<MsgModel>, bound: u64, id: u64)
    requires
        forall|i: int| 0 <= i < q.len() ==> (#[trigger] q[i]).id < bound && valid_text(q[i].text),
        forall|i: int, j: int|
            #![trigger q[i], q[j]]
            0 <= i < j < q.len() ==> q[i].id != q[j].id,
    ensures
        ({
            let f = q.filter(|m: MsgModel| m.id != id);
            &&& forall|i: int|
                0 <= i < f.len() ==> (#[trigger] f[i]).id < bound && valid_text(f[i].text)
            &&& forall|i: int, j: int|
                #![trigger f[i], f[j]]
                0 <= i < j < f.len() ==> f[i].id != f[j].id
        }),
    decreases q.len(),
{
    reveal(Seq::filter);
    let pred = |m: MsgModel| m.id != id;
    if q.len() > 0 {
        lemma_filter_keeps_queue_wf(q.drop_last(), bound, id);
        lemma_filter_elements(q.drop_last(), pred);
        let f = q.filter(pred);
        let fd = q.drop_last().filter(pred);
        if pred(q.last()) {
            assert(f == fd.push(q.last()));
            assert forall|i: int, j: int|
                #![trigger f[i], f[j]]
                0 <= i < j < f.len() implies f[i].id != f[j].id by {
                if j < f.len() - 1 {
                    assert(f[i] == fd[i] && f[j] == fd[j]);
                } else {
                    assert(f[i] == fd[i]);
                    let a = choose|a: int|
                        0 <= a < q.drop_last().len() && q.drop_last()[a] == fd[i];
                    assert(q[a] == fd[i]);
                    assert(q[a].id != q.last().id);
                }
            }
        } else {
            assert(f == fd);
        }
    }
}

/// A filter whose predicate holds everywhere changes nothing.
proof fn lemma_filter_all_true<A>(s: Seq<A>, pred: spec_fn(A) -> bool)
    requires
        forall|i: int| 0 <= i < s.len() ==> pred(#[trigger] s[i]),
    ensures
        s.filter(pred) == s,
    decreases s.len(),
{
    reveal(Seq::filter);
    if s.len() > 0 {
        lemma_filter_all_true(s.drop_last(), pred);
        assert(s.filter(pred) =~= s);
    } else {
        assert(s.filter(pred) =~= s);
    }
}

/// A filter that misses exactly one index removes exactly that entry.
proof fn lemma_filter_single_miss<A>(s: Seq<A>, pred: spec_fn(A) -> bool, j: int)
    requires
        0 <= j < s.len(),
        !pred(s[j]),
        forall|i: int| 0 <= i < s.len() && i != j ==> pred(#[trigger] s[i]),
    ensures
        s.filter(pred) == s.remove(j),
    decreases s.len(),
{
    reveal(Seq::filter);
    if j == s.len() - 1 {
        lemma_filter_all_true(s.drop_last(), pred);
        assert(s.filter(pred) =~= s.remove(j));
    } else {
        lemma_filter_single_miss(s.drop_last(), pred, j);
        assert(s.filter(pred) =~= s.remove(j));
    }
}

// ---------------------------------------------------------------------------
// Laws of the scheduler, stated over the mathematical models.
// ---------------------------------------------------------------------------

/// One scheduler operation: a submission, a tick, or a removal.
pub open spec fn sched_step(pre: SchedModel, post: SchedModel) -> bool {
    ||| exists|text: Seq<char>, color: Option<Seq<char>>, now: u64|
        #[trigger] submit_post(pre, post, text, color, now)
    ||| exists|now: u64| #[trigger] tick_post(pre, post, now)
    ||| exists|id: u64| #[trigger] remove_post(pre, post, id)
}

/// Consecutive states of one scheduler under any sequence of operations.
pub open spec fn sched_trace(tr: Seq<SchedModel>) -> bool {
    forall|i: int| 0 <= i < tr.len() - 1 ==> #[trigger] sched_step(tr[i], tr[i + 1])
}

/// No operation ever decreases the id counter.
pub proof fn lemma_step_keeps_counter(pre: SchedModel, post: SchedModel)
    requires
        sched_step(pre, post),
    ensures
        pre.next_id <= post.next_id,
{
    if exists|text: Seq<char>, color: Option<Seq<char>>, now: u64|
        submit_post(pre, post, text, color, now) {
        let (text, color, now) = choose|text: Seq<char>, color: Option<Seq<char>>, now: u64|
            submit_post(pre, post, text, color, now);
    } else if exists|now: u64| tick_post(pre, post, now) {
        let now = choose|now: u64| tick_post(pre, post, now);
    } else {
        let id = choose|id: u64| remove_post(pre, post, id);
    }
}

/// Along any run of the scheduler the id counter never decreases.
pub proof fn lemma_trace_counter_monotone(tr: Seq<SchedModel>)
    requires
        sched_trace(tr),
        tr.len() >= 1,
    ensures
        tr[0].next_id <= tr[tr.len() - 1].next_id,
    decreases tr.len(),
{
    if tr.len() > 1 {
        assert forall|i: int| 0 <= i < tr.drop_last().len() - 1 implies #[trigger] sched_step(
            tr.drop_last()[i],
            tr.drop_last()[i + 1],
        ) by {
            assert(sched_step(tr[i], tr[i + 1]));
            assert(tr.drop_last()[i] == tr[i] && tr.drop_last()[i + 1] == tr[i + 1]);
        }
        lemma_trace_counter_monotone(tr.drop_last());
        let k = tr.len() - 2;
        assert(sched_step(tr[k], tr[k + 1]));
        lemma_step_keeps_counter(tr[k], tr[k + 1]);
        assert(tr.drop_last()[0] == tr[0]);
        assert(tr.drop_last()[tr.drop_last().len() - 1] == tr[k]);
    }
}

/// Ids are assigned in strictly increasing order and never repeat: an
/// accepted submission is assigned the pre-state's counter value, and when
/// another submission is accepted after any number of further operations,
/// the later one's id is strictly larger.
pub proof fn lemma_submit_ids_strictly_increase(
    tr: Seq<SchedModel>,
    text1: Seq<char>,
    color1: Option<Seq<char>>,
    now1: u64,
    text2: Seq<char>,
    color2: Option<Seq<char>>,
    now2: u64,
    post2: SchedModel,
)
    requires
        sched_trace(tr),
        tr.len() >= 2,
        submit_accepts(text1),
        submit_post(tr[0], tr[1], text1, color1, now1),
        submit_accepts(text2),
        submit_post(tr[tr.len() - 1], post2, text2, color2, now2),
    ensures
        tr[0].next_id < tr[tr.len() - 1].next_id,
{
    assert forall|i: int| 0 <= i < tr.drop_first().len() - 1 implies #[trigger] sched_step(
        tr.drop_first()[i],
        tr.drop_first()[i + 1],
    ) by {
        let k = i + 1;
        assert(sched_step(tr[k], tr[k + 1]));
        assert(tr.drop_first()[i] == tr[k] && tr.drop_first()[i + 1] == tr[k + 1]);
    }
    lemma_trace_counter_monotone(tr.drop_first());
    assert(tr.drop_first()[0] == tr[1]);
    assert(tr.drop_first()[tr.drop_first().len() - 1] == tr[tr.len() - 1]);
}

/// A fresh id never collides with an id already queued or showing.
pub proof fn lemma_fresh_id_unused(m: SchedModel)
    requires
        model_wf(m),
    ensures
        forall|i: int| 0 <= i < m.queue.len() ==> (#[trigger] m.queue[i]).id != m.next_id,
        m.current matches Some(c) ==> c.id != m.next_id,
{
}

/// With the current slot empty and the queue non-empty, one tick installs
/// exactly the queue head as the new current message; the one apply
/// request of that tick carries it to the device.
pub proof fn lemma_tick_fill(pre: SchedModel, post: SchedModel, now: u64)
    requires
        tick_post(pre, post, now),
        pre.current is None,
        pre.queue.len() > 0,
    ensures
        post.current == Some(promoted(pre.queue[0], now)),
        post.queue == pre.queue.drop_first(),
        post.next_id == pre.next_id,
{
}

/// Once the current message has used up its dwell time, a tick with a
/// non-empty queue replaces it with the queue head and resets the elapsed
/// time to zero.
pub proof fn lemma_tick_advance(pre: SchedModel, post: SchedModel, now: u64)
    requires
        tick_post(pre, post, now),
        pre.current matches Some(c) && dwell_reached(c, now),
        pre.queue.len() > 0,
    ensures
        post.current matches Some(c2) && c2 == promoted(pre.queue[0], now) && spec_elapsed_ms(
            c2.started_ms,
            now,
        ) == 0,
        post.queue == pre.queue.drop_first(),
{
}

/// A run of nothing but ticks.
pub open spec fn some_tick(pre: SchedModel, post: SchedModel) -> bool {
    exists|now: u64| tick_post(pre, post, now)
}

/// Consecutive states of one scheduler under ticks alone.
pub open spec fn tick_trace(tr: Seq<SchedModel>) -> bool {
    forall|i: int| 0 <= i < tr.len() - 1 ==> #[trigger] some_tick(tr[i], tr[i + 1])
}

/// With an empty queue, any number of ticks leaves the scheduler exactly
/// as it is: the current message keeps showing past its dwell time.
pub proof fn lemma_ticks_starve_without_queue(tr: Seq<SchedModel>)
    requires
        tick_trace(tr),
        tr.len() >= 1,
        tr[0].queue.len() == 0,
        tr[0].current is Some,
    ensures
        tr[tr.len() - 1] == tr[0],
    decreases tr.len(),
{
    if tr.len() > 1 {
        let z: int = 0;
        assert(some_tick(tr[z], tr[z + 1]));
        let now = choose|now: u64| tick_post(tr[0], tr[1], now);
        assert(tr[1] == tr[0]);
        assert forall|i: int| 0 <= i < tr.drop_first().len() - 1 implies #[trigger] some_tick(
            tr.drop_first()[i],
            tr.drop_first()[i + 1],
        ) by {
            let k = i + 1;
            assert(some_tick(tr[k], tr[k + 1]));
            assert(tr.drop_first()[i] == tr[k] && tr.drop_first()[i + 1] == tr[k + 1]);
        }
        lemma_ticks_starve_without_queue(tr.drop_first());
        assert(tr.drop_first()[tr.drop_first().len() - 1] == tr[tr.len() - 1]);
    }
}

/// A submission that arrives once the current message has used up its
/// dwell time replaces the current slot at once and leaves the queue
/// untouched.
pub proof fn lemma_submit_fast_path(
    pre: SchedModel,
    post: SchedModel,
    text: Seq<char>,
    color: Option<Seq<char>>,
    now: u64,
)
    requires
        submit_post(pre, post, text, color, now),
        submit_accepts(text),
        fast_path_applies(pre, now),
    ensures
        post.current == Some(
            CurModel { id: pre.next_id, text: spec_trim(text), color, started_ms: now },
        ),
        post.queue == pre.queue,
        post.next_id == pre.next_id + 1,
{
}

/// A submission that arrives while the current message is still within its
/// dwell time (or while nothing is current) goes to the queue tail,
/// preserving the order of everything already queued.
pub proof fn lemma_submit_queued(
    pre: SchedModel,
    post: SchedModel,
    text: Seq<char>,
    color: Option<Seq<char>>,
    now: u64,
)
    requires
        submit_post(pre, post, text, color, now),
        submit_accepts(text),
        !fast_path_applies(pre, now),
    ensures
        post.queue.len() == pre.queue.len() + 1,
        post.queue.subrange(0, pre.queue.len() as int) == pre.queue,
        post.queue.last() == (MsgModel { id: pre.next_id, text: spec_trim(text), color }),
        post.current == pre.current,
{
    assert(post.queue.subrange(0, pre.queue.len() as int) =~= pre.queue);
}

/// Removing the id of the current message clears the slot and leaves the
/// queue order untouched.
pub proof fn lemma_remove_current(pre: SchedModel, post: SchedModel, id: u64)
    requires
        remove_post(pre, post, id),
        model_wf(pre),
        pre.current matches Some(c) && c.id == id,
    ensures
        post.current is None,
        post.queue == pre.queue,
{
    lemma_filter_all_true(pre.queue, |m: MsgModel| m.id != id);
}

/// Removing the id of a queued message deletes exactly that entry,
/// preserving the relative order of the rest and the current slot.
pub proof fn lemma_remove_queued(pre: SchedModel, post: SchedModel, id: u64, j: int)
    requires
        remove_post(pre, post, id),
        model_wf(pre),
        0 <= j < pre.queue.len(),
        pre.queue[j].id == id,
    ensures
        post.queue == pre.queue.remove(j),
        post.current == pre.current,
{
    lemma_filter_single_miss(pre.queue, |m: MsgModel| m.id != id, j);
}

/// Driven by a monotonic clock, a tick never rewinds the start time of
/// the current slot: a replacement starts at `now`, at or after the old
/// start.
pub proof fn lemma_tick_keeps_start_monotone(pre: SchedModel, post: SchedModel, now: u64)
    requires
        tick_post(pre, post, now),
        match pre.current {
            Some(c) => c.started_ms <= now,
            None => true,
        },
    ensures
        match (pre.current, post.current) {
            (Some(a), Some(b)) => a.started_ms <= b.started_ms,
            _ => true,
        },
{
}

/// Driven by a monotonic clock, a submission never rewinds the start time
/// of the current slot either.
pub proof fn lemma_submit_keeps_start_monotone(
    pre: SchedModel,
    post: SchedModel,
    text: Seq<char>,
    color: Option<Seq<char>>,
    now: u64,
)
    requires
        submit_post(pre, post, text, color, now),
        match pre.current {
            Some(c) => c.started_ms <= now,
            None => true,
        },
    ensures
        match (pre.current, post.current) {
            (Some(a), Some(b)) => a.started_ms <= b.started_ms,
            _ => true,
        },
{
}

/// Removing an id that is neither queued nor current changes nothing.
pub proof fn lemma_remove_absent(pre: SchedModel, post: SchedModel, id: u64)
    requires
        remove_post(pre, post, id),
        forall|i: int| 0 <= i < pre.queue.len() ==> (#[trigger] pre.queue[i]).id != id,
        match pre.current {
            Some(c) => c.id != id,
            None => true,
        },
    ensures
        post == pre,
{
    lemma_filter_all_true(pre.queue, |m: MsgModel| m.id != id);
}

} // verus!
