//! The registry that makes client writes idempotent: which request ids wait
//! for their entry to be applied, and which were answered of late.

use crate::clock::Index;
use crate::payload::bytes_content;
use crate::process::completion::UserCompletion;
use bytes::Bytes;
use vstd::prelude::*;

verus! {

/// A write whose entry is in the log and not applied yet.
pub struct Pending {
    pub request_id: Vec<u8>,
    /// The index of the entry.
    pub index: Index,
    /// The clients that wait for the answer: the first caller and those
    /// that retried.
    pub waiters: Vec<UserCompletion>,
}

/// A write that was applied, and the answer that it got.
pub struct Answered {
    pub request_id: Vec<u8>,
    pub response: Bytes,
    /// When it was applied, in milliseconds.
    pub at: u64,
}

/// What a [`Pending`] is, as a mathematical value.
pub struct PendingView {
    pub request_id: Seq<u8>,
    pub index: Index,
    pub waiters: Seq<UserCompletion>,
}

/// What an [`Answered`] is, as a mathematical value.
pub struct AnsweredView {
    pub request_id: Seq<u8>,
    pub response: Seq<u8>,
    pub at: u64,
}

impl View for Pending {
    type V = PendingView;

    open spec fn view(&self) -> PendingView {
        PendingView { request_id: self.request_id@, index: self.index, waiters: self.waiters@ }
    }
}

impl View for Answered {
    type V = AnsweredView;

    open spec fn view(&self) -> AnsweredView {
        AnsweredView {
            request_id: self.request_id@,
            response: bytes_content(self.response),
            at: self.at,
        }
    }
}

/// What the registry knows of a request id.
pub enum RecallView {
    /// Nothing.
    Unknown,
    /// Its entry is at `index` and waits to be applied.
    Pending { index: Index },
    /// It was applied and answered with `response`.
    Done { response: Seq<u8> },
}

/// What the registry knows of a request id.
#[derive(Debug)]
pub enum Recall {
    Unknown,
    Pending { index: Index },
    Done { response: Bytes },
}

impl View for Recall {
    type V = RecallView;

    open spec fn view(&self) -> RecallView {
        match *self {
            Recall::Unknown => RecallView::Unknown,
            Recall::Pending { index } => RecallView::Pending { index },
            Recall::Done { response } => RecallView::Done { response: bytes_content(response) },
        }
    }
}

/// The first place from `from` on at which `id` waits; the length of
/// `pending` where it waits at none.
pub open spec fn first_pending(pending: Seq<PendingView>, id: Seq<u8>, from: int) -> int
    decreases pending.len() - from,
{
    if from >= pending.len() || from < 0 {
        pending.len() as int
    } else if pending[from].request_id == id {
        from
    } else {
        first_pending(pending, id, from + 1)
    }
}

/// The last place below `upto` at which `id` was answered; -1 where it was
/// answered at none.
pub open spec fn latest_answer(answered: Seq<AnsweredView>, id: Seq<u8>, upto: int) -> int
    decreases upto,
{
    if upto <= 0 || upto > answered.len() {
        -1
    } else if answered[upto - 1].request_id == id {
        upto - 1
    } else {
        latest_answer(answered, id, upto - 1)
    }
}

/// Whether an answer given at `at` still counts at `now`, with answers
/// counting for `ttl` milliseconds.
pub open spec fn live(at: u64, now: u64, ttl: u64) -> bool {
    now <= at + ttl
}

/// The answers that still count at `now`, in their order.
pub open spec fn live_answers(answered: Seq<AnsweredView>, now: u64, ttl: u64) -> Seq<
    AnsweredView,
>
    decreases answered.len(),
{
    if answered.len() == 0 {
        Seq::empty()
    } else {
        let before = live_answers(answered.drop_last(), now, ttl);
        if live(answered.last().at, now, ttl) {
            before.push(answered.last())
        } else {
            before
        }
    }
}

/// The registry as a mathematical value.
pub struct RegistryView {
    /// The writes that wait, in the order in which they came.
    pub pending: Seq<PendingView>,
    /// The answers, least recently used first.
    pub answered: Seq<AnsweredView>,
    /// How many answers are kept at most.
    pub capacity: nat,
    /// For how many milliseconds an answer counts.
    pub ttl: u64,
}

impl RegistryView {
    /// No request id waits at two places, and no more answers are kept than
    /// the capacity allows.
    pub open spec fn wf(self) -> bool {
        &&& self.answered.len() <= self.capacity
        &&& forall|p: int, q: int|
            0 <= p < q < self.pending.len() ==> (#[trigger] self.pending[p]).request_id != (
            #[trigger] self.pending[q]).request_id
    }

    /// Whether `id` waits.
    pub open spec fn waits(self, id: Seq<u8>) -> bool {
        first_pending(self.pending, id, 0) < self.pending.len()
    }

    /// The place of the answer to `id` that counts at `now`; -1 where there
    /// is none.
    pub open spec fn answer_place(self, id: Seq<u8>, now: u64) -> int {
        let a = latest_answer(self.answered, id, self.answered.len() as int);
        if a >= 0 && live(self.answered[a].at, now, self.ttl) {
            a
        } else {
            -1
        }
    }

    /// What the registry knows of `id` at `now`.
    pub open spec fn recall(self, id: Seq<u8>, now: u64) -> RecallView {
        let p = first_pending(self.pending, id, 0);
        if p < self.pending.len() {
            RecallView::Pending { index: self.pending[p].index }
        } else if self.answer_place(id, now) >= 0 {
            RecallView::Done { response: self.answered[self.answer_place(id, now)].response }
        } else {
            RecallView::Unknown
        }
    }

    /// The registry after `id` was recalled at `now`: an answer that was
    /// found becomes the most recently used.
    pub open spec fn recalled(self, id: Seq<u8>, now: u64) -> RegistryView {
        let a = self.answer_place(id, now);
        if !self.waits(id) && a >= 0 {
            RegistryView { answered: self.answered.remove(a).push(self.answered[a]), ..self }
        } else {
            self
        }
    }

    /// The registry after `waiter` began to wait for the entry of `id` at
    /// `index`: it joins those that wait for `id` already, or is the first.
    pub open spec fn begun(self, id: Seq<u8>, index: Index, waiter: UserCompletion) -> RegistryView {
        let p = first_pending(self.pending, id, 0);
        if p < self.pending.len() {
            RegistryView {
                pending: self.pending.update(
                    p,
                    PendingView { waiters: self.pending[p].waiters.push(waiter), ..self.pending[p] },
                ),
                ..self
            }
        } else {
            RegistryView {
                pending: self.pending.push(
                    PendingView { request_id: id, index, waiters: seq![waiter] },
                ),
                ..self
            }
        }
    }

    /// The answers after one more was given: it is the most recently used,
    /// and the least recently used goes where the capacity is exceeded.
    pub open spec fn with_answer(self, answer: AnsweredView) -> Seq<AnsweredView> {
        let all = self.answered.push(answer);
        if all.len() > self.capacity {
            all.drop_first()
        } else {
            all
        }
    }

    /// The registry after the entry of `id` was applied at `now` and
    /// answered with `response`: `id` waits no more, and the answer is kept.
    pub open spec fn finished(self, id: Seq<u8>, response: Seq<u8>, now: u64) -> RegistryView {
        let p = first_pending(self.pending, id, 0);
        RegistryView {
            pending: if p < self.pending.len() {
                self.pending.remove(p)
            } else {
                self.pending
            },
            answered: self.with_answer(AnsweredView { request_id: id, response, at: now }),
            ..self
        }
    }

    /// Those that waited for `id`.
    pub open spec fn waiters_of(self, id: Seq<u8>) -> Seq<UserCompletion> {
        let p = first_pending(self.pending, id, 0);
        if p < self.pending.len() {
            self.pending[p].waiters
        } else {
            Seq::empty()
        }
    }

    /// The registry after the answers that count no more at `now` were
    /// dropped.
    pub open spec fn expired(self, now: u64) -> RegistryView {
        RegistryView { answered: live_answers(self.answered, now, self.ttl), ..self }
    }
}

/// Where `id` waits first, it waits; and it waits at no place before.
pub proof fn lemma_first_pending(pending: Seq<PendingView>, id: Seq<u8>, from: int)
    requires
        0 <= from,
    ensures
        from <= first_pending(pending, id, from) || first_pending(pending, id, from)
            == pending.len(),
        first_pending(pending, id, from) <= pending.len(),
        first_pending(pending, id, from) < pending.len() ==> pending[first_pending(
            pending,
            id,
            from,
        )].request_id == id,
        forall|k: int|
            from <= k < first_pending(pending, id, from) ==> (#[trigger] pending[k]).request_id
                != id,
    decreases pending.len() - from,
{
    if from < pending.len() && pending[from].request_id != id {
        lemma_first_pending(pending, id, from + 1);
    }
}

/// Dropping old answers drops none that counts, and keeps no more than
/// there were.
pub proof fn lemma_live_answers(answered: Seq<AnsweredView>, now: u64, ttl: u64)
    ensures
        live_answers(answered, now, ttl).len() <= answered.len(),
        forall|k: int|
            0 <= k < live_answers(answered, now, ttl).len() ==> live(
                (#[trigger] live_answers(answered, now, ttl)[k]).at,
                now,
                ttl,
            ),
    decreases answered.len(),
{
    if answered.len() > 0 {
        lemma_live_answers(answered.drop_last(), now, ttl);
    }
}

/// Dedup before application: a write that is retried while its entry waits
/// to be applied is known to wait, so that no second entry is made for it.
pub proof fn lemma_retry_finds_pending(
    r: RegistryView,
    id: Seq<u8>,
    index: Index,
    waiter: UserCompletion,
    now: u64,
)
    requires
        r.wf(),
    ensures
        r.begun(id, index, waiter).wf(),
        r.begun(id, index, waiter).recall(id, now) is Pending,
        !r.waits(id) ==> r.begun(id, index, waiter).recall(id, now) == (RecallView::Pending {
            index,
        }),
        r.waits(id) ==> r.begun(id, index, waiter).recall(id, now) == r.recall(id, now),
{
    let after = r.begun(id, index, waiter);
    let p = first_pending(r.pending, id, 0);
    lemma_first_pending(r.pending, id, 0);
    lemma_first_pending(after.pending, id, 0);
    if p < r.pending.len() {
        assert(after.pending[p].request_id == id);
        assert forall|a: int, b: int| 0 <= a < b < after.pending.len() implies (
        #[trigger] after.pending[a]).request_id != (#[trigger] after.pending[b]).request_id by {
            assert(r.pending[a].request_id != r.pending[b].request_id);
        }
        let q = first_pending(after.pending, id, 0);
        if q < p {
            assert(after.pending[q].request_id == r.pending[q].request_id);
        }
        if p < q {
            assert(after.pending[p].request_id == id);
        }
    } else {
        let last = r.pending.len() as int;
        assert(after.pending[last].request_id == id);
        assert forall|a: int, b: int| 0 <= a < b < after.pending.len() implies (
        #[trigger] after.pending[a]).request_id != (#[trigger] after.pending[b]).request_id by {
            if b < last {
                assert(r.pending[a].request_id != r.pending[b].request_id);
            } else {
                assert(r.pending[a].request_id != id);
            }
        }
        let q = first_pending(after.pending, id, 0);
        if q < last {
            assert(after.pending[q].request_id == r.pending[q].request_id);
        }
    }
}

/// Dedup after application: a write that is retried within the time that
/// answers count gets the answer of the first attempt. This is stated of
/// registries that keep at least one answer.
pub proof fn lemma_retry_finds_answer(
    r: RegistryView,
    id: Seq<u8>,
    response: Seq<u8>,
    at: u64,
    now: u64,
)
    requires
        r.wf(),
        r.capacity >= 1,
        live(at, now, r.ttl),
    ensures
        r.finished(id, response, at).wf(),
        r.finished(id, response, at).recall(id, now) == (RecallView::Done { response }),
{
    let after = r.finished(id, response, at);
    let p = first_pending(r.pending, id, 0);
    lemma_first_pending(r.pending, id, 0);
    lemma_first_pending(after.pending, id, 0);
    assert forall|a: int, b: int| 0 <= a < b < after.pending.len() implies (
    #[trigger] after.pending[a]).request_id != (#[trigger] after.pending[b]).request_id by {
        if p < r.pending.len() {
            let a0 = if a < p { a } else { a + 1 };
            let b0 = if b < p { b } else { b + 1 };
            assert(r.pending[a0].request_id != r.pending[b0].request_id);
        } else {
            assert(r.pending[a].request_id != r.pending[b].request_id);
        }
    }
    let q = first_pending(after.pending, id, 0);
    if q < after.pending.len() {
        if p < r.pending.len() {
            let q0 = if q < p { q } else { q + 1 };
            assert(after.pending[q] == r.pending[q0]);
            if q0 < p {
                assert(r.pending[q0].request_id != id);
            } else {
                assert(r.pending[p].request_id != r.pending[q0].request_id);
            }
        } else {
            assert(after.pending[q] == r.pending[q]);
        }
    }
    let n = after.answered.len() as int;
    assert(n >= 1);
    assert(after.answered[n - 1] == (AnsweredView { request_id: id, response, at }));
}

/// Whether two sequences of octets are the same.
pub(crate) fn same_bytes(a: &Vec<u8>, b: &Vec<u8>) -> (r: bool)
    ensures
        r == (a@ == b@),
{
    if a.len() != b.len() {
        return false;
    }
    let mut i: usize = 0;
    while i < a.len()
        invariant
            a.len() == b.len(),
            i <= a.len(),
            forall|k: int| 0 <= k < i ==> a@[k] == b@[k],
        decreases a.len() - i,
    {
        if a[i] != b[i] {
            return false;
        }
        i = i + 1;
    }
    proof {
        assert(a@ =~= b@);
    }
    true
}

/// The views of the waiting writes, in order.
pub open spec fn pending_views(pending: Seq<Pending>) -> Seq<PendingView> {
    Seq::new(pending.len(), |k: int| pending[k]@)
}

/// The views of the answers, in order.
pub open spec fn answered_views(answered: Seq<Answered>) -> Seq<AnsweredView> {
    Seq::new(answered.len(), |k: int| answered[k]@)
}

/// Which request ids wait for their entry to be applied, and which were
/// answered of late.
pub struct RequestRegistry {
    pending: Vec<Pending>,
    answered: Vec<Answered>,
    capacity: usize,
    ttl: u64,
}

impl View for RequestRegistry {
    type V = RegistryView;

    closed spec fn view(&self) -> RegistryView {
        RegistryView {
            pending: pending_views(self.pending@),
            answered: answered_views(self.answered@),
            capacity: self.capacity as nat,
            ttl: self.ttl,
        }
    }
}

impl RequestRegistry {
    /// What holds of every registry between two operations.
    pub open spec fn wf(&self) -> bool {
        self@.wf()
    }

    /// A registry that knows nothing. It keeps at most `capacity` answers,
    /// each for `ttl_millis` milliseconds.
    pub fn new(capacity: usize, ttl_millis: u64) -> (r: RequestRegistry)
        ensures
            r.wf(),
            r@ == (RegistryView {
                pending: Seq::empty(),
                answered: Seq::empty(),
                capacity: capacity as nat,
                ttl: ttl_millis,
            }),
    {
        let r = RequestRegistry {
            pending: Vec::new(),
            answered: Vec::new(),
            capacity,
            ttl: ttl_millis,
        };
        proof {
            assert(r@.pending =~= Seq::empty());
            assert(r@.answered =~= Seq::empty());
        }
        r
    }

    /// The first place at which `request_id` waits; the number of waiting
    /// writes where it waits at none.
    fn pending_place(&self, request_id: &Vec<u8>) -> (p: usize)
        ensures
            p == first_pending(self@.pending, request_id@, 0),
            p <= self.pending.len(),
    {
        let mut i: usize = 0;
        while i < self.pending.len()
            invariant
                i <= self.pending.len(),
                first_pending(self@.pending, request_id@, 0) == first_pending(
                    self@.pending,
                    request_id@,
                    i as int,
                ),
            decreases self.pending.len() - i,
        {
            if same_bytes(&self.pending[i].request_id, request_id) {
                return i;
            }
            i = i + 1;
        }
        i
    }

    /// The place of the answer to `request_id` that counts at `now`, if
    /// there is one.
    fn answer_place(&self, request_id: &Vec<u8>, now: u64) -> (a: Option<usize>)
        ensures
            match a {
                Some(place) => place == self@.answer_place(request_id@, now) && place
                    < self.answered.len(),
                None => self@.answer_place(request_id@, now) == -1,
            },
    {
        let mut i: usize = self.answered.len();
        while i > 0
            invariant
                i <= self.answered.len(),
                latest_answer(self@.answered, request_id@, self@.answered.len() as int)
                    == latest_answer(self@.answered, request_id@, i as int),
            decreases i,
        {
            i = i - 1;
            if same_bytes(&self.answered[i].request_id, request_id) {
                let at = self.answered[i].at;
                let counts = match at.checked_add(self.ttl) {
                    Some(until) => now <= until,
                    None => true,
                };
                if counts {
                    return Some(i);
                } else {
                    return None;
                }
            }
        }
        None
    }

    /// What the registry knows of `request_id` at `now`. An answer that is
    /// found becomes the most recently used.
    pub fn recall(&mut self, request_id: &Vec<u8>, now: u64) -> (r: Recall)
        requires
            old(self).wf(),
        ensures
            final(self).wf(),
            r@ == old(self)@.recall(request_id@, now),
            final(self)@ == old(self)@.recalled(request_id@, now),
    {
        let p = self.pending_place(request_id);
        if p < self.pending.len() {
            return Recall::Pending { index: self.pending[p].index };
        }
        match self.answer_place(request_id, now) {
            Some(a) => {
                let ghost before = self@;
                let answer = self.answered.remove(a);
                let response = answer.response.clone();
                self.answered.push(answer);
                proof {
                    assert(self@.answered =~= before.answered.remove(a as int).push(
                        before.answered[a as int],
                    ));
                    assert(self@.pending =~= before.pending);
                }
                Recall::Done { response }
            },
            None => Recall::Unknown,
        }
    }

    /// Lets `waiter` wait for the entry of `request_id` at `index`. Where
    /// the request id waits already, the waiter joins, and the index is the
    /// one that was given first.
    pub fn begin(&mut self, request_id: Vec<u8>, index: Index, waiter: UserCompletion)
        requires
            old(self).wf(),
        ensures
            final(self).wf(),
            final(self)@ == old(self)@.begun(request_id@, index, waiter),
    {
        let ghost before = self@;
        proof {
            lemma_retry_finds_pending(before, request_id@, index, waiter, 0);
        }
        let p = self.pending_place(&request_id);
        if p < self.pending.len() {
            let mut entry = self.pending.remove(p);
            entry.waiters.push(waiter);
            self.pending.insert(p, entry);
            proof {
                assert(self@.pending =~= before.begun(request_id@, index, waiter).pending);
                assert(self@.answered =~= before.answered);
            }
        } else {
            let mut waiters: Vec<UserCompletion> = Vec::new();
            waiters.push(waiter);
            self.pending.push(Pending { request_id, index, waiters });
            proof {
                assert(self@.pending =~= before.begun(request_id@, index, waiter).pending);
                assert(self@.answered =~= before.answered);
            }
        }
    }

    /// Records that the entry of `request_id` was applied at `now` and
    /// answered with `response`, and returns those that waited for it, in
    /// the order in which they came. The answer is kept as the most recently
    /// used; where that exceeds the capacity, the least recently used goes.
    pub fn finish(&mut self, request_id: Vec<u8>, response: Bytes, now: u64) -> (waiters: Vec<
        UserCompletion,
    >)
        requires
            old(self).wf(),
        ensures
            final(self).wf(),
            final(self)@ == old(self)@.finished(request_id@, bytes_content(response), now),
            waiters@ == old(self)@.waiters_of(request_id@),
    {
        let ghost before = self@;
        let ghost after = before.finished(request_id@, bytes_content(response), now);
        let p = self.pending_place(&request_id);
        proof {
            lemma_first_pending(before.pending, request_id@, 0);
        }
        let waiters = if p < self.pending.len() {
            let entry = self.pending.remove(p);
            entry.waiters
        } else {
            Vec::new()
        };
        proof {
            assert(self@.pending =~= after.pending);
            assert forall|a: int, b: int| 0 <= a < b < after.pending.len() implies (
            #[trigger] after.pending[a]).request_id != (#[trigger] after.pending[b]).request_id by {
                if p < before.pending.len() {
                    let a0 = if a < p { a } else { a + 1 };
                    let b0 = if b < p { b } else { b + 1 };
                    assert(before.pending[a0].request_id != before.pending[b0].request_id);
                } else {
                    assert(before.pending[a].request_id != before.pending[b].request_id);
                }
            }
        }
        self.answered.push(Answered { request_id, response, at: now });
        if self.answered.len() > self.capacity {
            let _ = self.answered.remove(0);
        }
        proof {
            assert(self@.answered =~= after.answered);
            assert(self@.pending =~= after.pending);
        }
        waiters
    }

    /// Drops the answers that count no more at `now`.
    pub fn expire(&mut self, now: u64)
        requires
            old(self).wf(),
        ensures
            final(self).wf(),
            final(self)@ == old(self)@.expired(now),
    {
        let ghost before = self@;
        let mut kept: Vec<Answered> = Vec::new();
        let mut i: usize = 0;
        let n = self.answered.len();
        while i < n
            invariant
                i <= n,
                n == self.answered.len(),
                self@ == before,
                answered_views(kept@) == live_answers(
                    before.answered.take(i as int),
                    now,
                    before.ttl,
                ),
            decreases n - i,
        {
            let answer = &self.answered[i];
            let counts = match answer.at.checked_add(self.ttl) {
                Some(until) => now <= until,
                None => true,
            };
            proof {
                assert(before.answered.take(i + 1).drop_last() =~= before.answered.take(i as int));
                assert(before.answered.take(i + 1).last() == answer@);
            }
            if counts {
                let ghost kept_before = answered_views(kept@);
                kept.push(
                    Answered {
                        request_id: answer.request_id.clone(),
                        response: answer.response.clone(),
                        at: answer.at,
                    },
                );
                proof {
                    assert(answered_views(kept@) =~= kept_before.push(answer@));
                }
            }
            i = i + 1;
        }
        proof {
            assert(before.answered.take(n as int) =~= before.answered);
            lemma_live_answers(before.answered, now, before.ttl);
        }
        self.answered = kept;
        proof {
            assert(self@.pending =~= before.pending);
        }
    }
}

} // verus!
