//! The bookkeeping of a thread: where its rollout is recorded, and how many
//! out-of-band elicitations are outstanding.  While at least one is, the
//! session is paused; the counting operations say when to pause and when to
//! resume.  It also holds the decisions of adding a message to the thread's
//! history without starting a user turn: each step takes what the session
//! answered and says what to do next.
use vstd::prelude::*;
use crate::text::text_to_string;

verus! {

/// An error of a thread operation.
#[derive(Debug, PartialEq)]
pub enum ThreadError {
    /// An unrecoverable condition.
    Fatal(String),
    /// A request that cannot be honoured in the current state.
    InvalidRequest(String),
}

/// What a change of the elicitation count asks of the session.
#[derive(Debug, PartialEq, Eq, Structural, Clone, Copy)]
pub enum PauseChange {
    /// Pause the session: the first elicitation started.
    Pause,
    /// Resume the session: the last elicitation ended.
    Resume,
    /// Leave the session as it is.
    Unchanged,
}

/// The outcome of a change of the elicitation count.
#[derive(Debug, PartialEq)]
pub struct ElicitationCount {
    /// The number of outstanding elicitations after the change.
    pub count: u64,
    pub pause_change: PauseChange,
}

/// The pause state that results from applying `change` to `paused`.
pub open spec fn apply_pause_change(paused: bool, change: PauseChange) -> bool {
    match change {
        PauseChange::Pause => true,
        PauseChange::Resume => false,
        PauseChange::Unchanged => paused,
    }
}

/// The count after one more elicitation starts; none when it would overflow.
pub open spec fn count_after_increment(count: u64) -> Option<u64> {
    if count == u64::MAX {
        None
    } else {
        Some((count + 1) as u64)
    }
}

/// The count after an elicitation ends; none when none is outstanding.
pub open spec fn count_after_decrement(count: u64) -> Option<u64> {
    if count == 0 {
        None
    } else {
        Some((count - 1) as u64)
    }
}

/// What a change of the count from `before` to `after` asks of the session.
pub open spec fn pause_change_between(before: u64, after: u64) -> PauseChange {
    if before == 0 && after > 0 {
        PauseChange::Pause
    } else if before > 0 && after == 0 {
        PauseChange::Resume
    } else {
        PauseChange::Unchanged
    }
}

/// A thread's own state: its rollout path and its count of outstanding
/// out-of-band elicitations.
pub struct BrocodeThread {
    rollout_path: Option<String>,
    out_of_band_elicitation_count: u64,
}

impl BrocodeThread {
    /// The number of outstanding out-of-band elicitations.
    pub closed spec fn elicitations(self) -> u64 {
        self.out_of_band_elicitation_count
    }

    /// The path of the thread's rollout file, if it has one.
    pub closed spec fn rollout_path_model(self) -> Option<Seq<char>> {
        match self.rollout_path {
            Some(p) => Some(p@),
            None => None,
        }
    }

    /// A thread with the given rollout path and no outstanding elicitation.
    pub fn new(rollout_path: Option<String>) -> (res: BrocodeThread)
        ensures
            res.elicitations() == 0,
            res.rollout_path_model() == match rollout_path {
                Some(p) => Some(p@),
                None => None::<Seq<char>>,
            },
    {
        BrocodeThread { rollout_path, out_of_band_elicitation_count: 0 }
    }

    /// The path of the thread's rollout file, if it has one.
    pub fn rollout_path(&self) -> (res: Option<String>)
        ensures
            match res {
                Some(p) => self.rollout_path_model() == Some(p@),
                None => self.rollout_path_model() is None,
            },
    {
        match &self.rollout_path {
            Some(p) => Some(p.clone()),
            None => None,
        }
    }

    /// The number of outstanding out-of-band elicitations.
    pub fn out_of_band_elicitation_count(&self) -> (res: u64)
        ensures
            res == self.elicitations(),
    {
        self.out_of_band_elicitation_count
    }

    /// Records that an out-of-band elicitation started.  The first one pauses
    /// the session.  Fails, leaving the count as it is, when the count would
    /// overflow.
    pub fn increment_out_of_band_elicitation_count(&mut self) -> (res: Result<ElicitationCount, ThreadError>)
        ensures
            match count_after_increment(old(self).elicitations()) {
                Some(c) => {
                    &&& final(self).elicitations() == c
                    &&& res matches Ok(r) && r.count == c && r.pause_change == pause_change_between(
                        old(self).elicitations(),
                        c,
                    )
                },
                None => {
                    &&& final(self).elicitations() == old(self).elicitations()
                    &&& res matches Err(ThreadError::Fatal(m)) && m@
                        == "out-of-band elicitation count overflowed"@
                },
            },
            final(self).rollout_path_model() == old(self).rollout_path_model(),
    {
        let was_zero = self.out_of_band_elicitation_count == 0;
        if self.out_of_band_elicitation_count == u64::MAX {
            return Err(
                ThreadError::Fatal(text_to_string("out-of-band elicitation count overflowed")),
            );
        }
        self.out_of_band_elicitation_count = self.out_of_band_elicitation_count + 1;
        let pause_change = if was_zero {
            PauseChange::Pause
        } else {
            PauseChange::Unchanged
        };
        Ok(ElicitationCount { count: self.out_of_band_elicitation_count, pause_change })
    }

    /// Records that an out-of-band elicitation ended.  The last one resumes
    /// the session.  Fails, leaving the count as it is, when none is
    /// outstanding.
    pub fn decrement_out_of_band_elicitation_count(&mut self) -> (res: Result<ElicitationCount, ThreadError>)
        ensures
            match count_after_decrement(old(self).elicitations()) {
                Some(c) => {
                    &&& final(self).elicitations() == c
                    &&& res matches Ok(r) && r.count == c && r.pause_change == pause_change_between(
                        old(self).elicitations(),
                        c,
                    )
                },
                None => {
                    &&& final(self).elicitations() == old(self).elicitations()
                    &&& res matches Err(ThreadError::InvalidRequest(m)) && m@
                        == "out-of-band elicitation count is already zero"@
                },
            },
            final(self).rollout_path_model() == old(self).rollout_path_model(),
    {
        if self.out_of_band_elicitation_count == 0 {
            return Err(
                ThreadError::InvalidRequest(
                    text_to_string("out-of-band elicitation count is already zero"),
                ),
            );
        }
        self.out_of_band_elicitation_count = self.out_of_band_elicitation_count - 1;
        let pause_change = if self.out_of_band_elicitation_count == 0 {
            PauseChange::Resume
        } else {
            PauseChange::Unchanged
        };
        Ok(ElicitationCount { count: self.out_of_band_elicitation_count, pause_change })
    }
}

/// The session is paused exactly while some elicitation is outstanding: a
/// session whose pause state matched the old count matches the new one once
/// the reported change is applied.
pub proof fn lemma_pause_tracks_outstanding(before: u64, after: u64)
    ensures
        apply_pause_change(before > 0, pause_change_between(before, after)) == (after > 0),
{
}

/// An elicitation that starts and then ends leaves the count as it was, and
/// the session resumes exactly when the start paused it.
pub proof fn lemma_increment_then_decrement_restores(count: u64)
    requires
        count < u64::MAX,
    ensures
        count_after_increment(count) matches Some(up) && count_after_decrement(up) == Some(count)
            && (pause_change_between(count, up) == PauseChange::Pause <==> pause_change_between(
            up,
            count,
        ) == PauseChange::Resume),
{
}

/// An elicitation that ends and then starts again leaves the count as it was.
pub proof fn lemma_decrement_then_increment_restores(count: u64)
    requires
        count > 0,
    ensures
        count_after_decrement(count) matches Some(down) && count_after_increment(down) == Some(
            count,
        ),
{
}

/// A piece of the content of a message.
#[derive(Debug, PartialEq)]
pub enum ContentItem {
    InputText { text: String },
    InputImage { image_url: String },
    OutputText { text: String },
}

/// An item of a conversation, as the thread records it.
#[derive(Debug, PartialEq)]
pub enum ResponseItem {
    /// A message of one role.
    Message { id: Option<String>, role: String, content: Vec<ContentItem>, end_turn: Option<bool> },
    /// Any item that is not a message (a tool call, its output, reasoning, ...).
    NonMessage,
}

/// An item handed to the session as input for a turn.
#[derive(Debug, PartialEq)]
pub enum ResponseInputItem {
    Message { role: String, content: Vec<ContentItem> },
}

/// The message text refused by `pending_message_input_item`.
pub const ONLY_MESSAGES_ERROR: &'static str = "append_message only supports ResponseItem::Message";

/// `input` is the pending form of the message `item`: the same role and content.
pub open spec fn is_pending_form_of(input: ResponseInputItem, item: ResponseItem) -> bool {
    match item {
        ResponseItem::Message { role, content, .. } => match input {
            ResponseInputItem::Message { role: r, content: c } => r@ == role@ && c@ == content@,
        },
        ResponseItem::NonMessage => false,
    }
}

/// `item` is a user message whose content is the one text `text`, with no id
/// and no end-of-turn mark.
pub open spec fn is_user_text_message(item: ResponseItem, text: Seq<char>) -> bool {
    match item {
        ResponseItem::Message { id, role, content, end_turn } => {
            &&& id is None
            &&& role@ == "user"@
            &&& content@.len() == 1
            &&& content@[0] matches ContentItem::InputText { text: t } && t@ == text
            &&& end_turn is None
        },
        ResponseItem::NonMessage => false,
    }
}

/// A copy of a content item.
fn copy_content_item(item: &ContentItem) -> (res: ContentItem)
    ensures
        res == *item,
{
    match item {
        ContentItem::InputText { text } => ContentItem::InputText { text: text.clone() },
        ContentItem::InputImage { image_url } => ContentItem::InputImage { image_url: image_url.clone() },
        ContentItem::OutputText { text } => ContentItem::OutputText { text: text.clone() },
    }
}

/// A copy of a message's content.
fn copy_content(items: &Vec<ContentItem>) -> (res: Vec<ContentItem>)
    ensures
        res@ == items@,
{
    let mut res: Vec<ContentItem> = Vec::new();
    let mut i: usize = 0;
    while i < items.len()
        invariant
            i <= items@.len(),
            res@ == items@.subrange(0, i as int),
        decreases items@.len() - i,
    {
        res.push(copy_content_item(&items[i]));
        i = i + 1;
        assert(res@ =~= items@.subrange(0, i as int));
    }
    assert(items@.subrange(0, items@.len() as int) =~= items@);
    res
}

/// The pending input form of a message: its role and content.  Any other item
/// is refused.
pub fn pending_message_input_item(message: &ResponseItem) -> (res: Result<ResponseInputItem, ThreadError>)
    ensures
        match *message {
            ResponseItem::Message { .. } => res matches Ok(input) && is_pending_form_of(input, *message),
            ResponseItem::NonMessage => res matches Err(ThreadError::InvalidRequest(m)) && m@ == ONLY_MESSAGES_ERROR@,
        },
        match *message {
            ResponseItem::Message { role, content, .. } => res matches Ok(
                ResponseInputItem::Message { role: r, content: c },
            ) && r@ == role@ && c@ == content@,
            ResponseItem::NonMessage => res is Err,
        },
{
    match message {
        ResponseItem::Message { role, content, .. } => Ok(
            ResponseInputItem::Message { role: role.clone(), content: copy_content(content) },
        ),
        ResponseItem::NonMessage => Err(ThreadError::InvalidRequest(text_to_string(ONLY_MESSAGES_ERROR))),
    }
}

/// The pending form of a message is a message of the same role with the same
/// content, whatever the role: a role is never rewritten.
pub proof fn lemma_pending_form_keeps_role_and_content(input: ResponseInputItem, item: ResponseItem)
    requires
        is_pending_form_of(input, item),
    ensures
        item is Message,
        input->Message_role@ == item->Message_role@,
        input->Message_content@ == item->Message_content@,
{
}

/// What the thread does next while adding a message to its history.
#[derive(Debug, PartialEq)]
pub enum InjectAction {
    /// Hand this item to the active turn as pending input.
    InjectPending(ResponseInputItem),
    /// There was no active turn: record this message in a new default turn.
    RecordInNewTurn(ResponseItem),
    /// Nothing more to do.
    Done,
}

/// The first step of recording a user message without starting a user turn:
/// the message (role `user`, one text item), and the action to hand it to the
/// active turn as pending input.
pub fn begin_inject_user_message(message: String) -> (res: (ResponseItem, InjectAction))
    ensures
        is_user_text_message(res.0, message@),
        res.1 matches InjectAction::InjectPending(input) && is_pending_form_of(input, res.0),
{
    let mut content: Vec<ContentItem> = Vec::new();
    content.push(ContentItem::InputText { text: message });
    let item = ResponseItem::Message { id: None, role: text_to_string("user"), content, end_turn: None };
    let action = match pending_message_input_item(&item) {
        Ok(pending) => InjectAction::InjectPending(pending),
        Err(_) => InjectAction::Done,
    };
    (item, action)
}

/// The step after handing the pending input to the session: done when it was
/// taken, otherwise record `message` in a new default turn.
pub fn after_inject_user_message(message: ResponseItem, injected: bool) -> (res: InjectAction)
    ensures
        injected ==> res is Done,
        !injected ==> res == InjectAction::RecordInNewTurn(message),
{
    if injected {
        InjectAction::Done
    } else {
        InjectAction::RecordInNewTurn(message)
    }
}

/// What the thread does next while appending a prebuilt message.
#[derive(Debug, PartialEq)]
pub enum AppendAction {
    /// There was no active turn: queue these items for the next turn, then
    /// start a task that takes them.
    QueueForNextTurnAndStartTask(Vec<ResponseInputItem>),
    /// Nothing more to do.
    Done,
}

/// The step after handing an appended message to the session as pending
/// input: done when it was taken; when it was handed back, queue exactly the
/// items handed back and start a task.
pub fn after_append_inject(injected: Result<(), Vec<ResponseInputItem>>) -> (res: AppendAction)
    ensures
        match injected {
            Ok(_) => res is Done,
            Err(items) => res == AppendAction::QueueForNextTurnAndStartTask(items),
        },
{
    match injected {
        Ok(_) => AppendAction::Done,
        Err(items) => AppendAction::QueueForNextTurnAndStartTask(items),
    }
}

/// Whether the operation is carried out on `count`: starting one more
/// elicitation (`start`) or ending one.
pub open spec fn op_succeeds(count: u64, start: bool) -> bool {
    if start {
        count_after_increment(count) is Some
    } else {
        count_after_decrement(count) is Some
    }
}

/// The count after one operation; a refused operation leaves it as it is.
pub open spec fn count_after_op(count: u64, start: bool) -> u64 {
    let next = if start {
        count_after_increment(count)
    } else {
        count_after_decrement(count)
    };
    match next {
        Some(c) => c,
        None => count,
    }
}

/// The count after the operations `ops`, one after the other, from `count`.
pub open spec fn count_after_ops(count: u64, ops: Seq<bool>) -> u64
    decreases ops.len(),
{
    if ops.len() == 0 {
        count
    } else {
        count_after_op(count_after_ops(count, ops.drop_last()), ops.last())
    }
}

/// The count that each operation reports, in order; none for a refused one.
pub open spec fn reported_counts(count: u64, ops: Seq<bool>) -> Seq<Option<u64>>
    decreases ops.len(),
{
    if ops.len() == 0 {
        Seq::empty()
    } else {
        let before = count_after_ops(count, ops.drop_last());
        reported_counts(count, ops.drop_last()).push(
            if op_succeeds(before, ops.last()) {
                Some(count_after_op(before, ops.last()))
            } else {
                None
            },
        )
    }
}

/// The pause and resume requests that the operations make, in order.
pub open spec fn pause_requests(count: u64, ops: Seq<bool>) -> Seq<PauseChange>
    decreases ops.len(),
{
    if ops.len() == 0 {
        Seq::empty()
    } else {
        let before = count_after_ops(count, ops.drop_last());
        let change = pause_change_between(before, count_after_op(before, ops.last()));
        let rest = pause_requests(count, ops.drop_last());
        if change == PauseChange::Unchanged {
            rest
        } else {
            rest.push(change)
        }
    }
}

/// The number of operations of the kind `start` that are carried out.
pub open spec fn successful_ops(count: u64, ops: Seq<bool>, start: bool) -> nat
    decreases ops.len(),
{
    if ops.len() == 0 {
        0
    } else {
        let before = count_after_ops(count, ops.drop_last());
        successful_ops(count, ops.drop_last(), start) + if ops.last() == start && op_succeeds(
            before,
            start,
        ) {
            1nat
        } else {
            0nat
        }
    }
}

/// `k` starts of an elicitation, one after the other.
pub open spec fn starts(k: nat) -> Seq<bool> {
    Seq::new(k, |i: int| true)
}

/// `k` elicitations that start one after the other from `n`, with room for
/// all of them, report `n + 1`, ..., `n + k` in that order and leave the count
/// at `n + k`; the session is asked to pause once when `n` is zero, and
/// otherwise never.
pub proof fn lemma_consecutive_starts(n: u64, k: nat)
    requires
        n + k <= u64::MAX,
    ensures
        count_after_ops(n, starts(k)) == n + k,
        reported_counts(n, starts(k)).len() == k,
        forall|i: int| 0 <= i < k ==> #[trigger] reported_counts(n, starts(k))[i] == Some((n + i + 1) as u64),
        pause_requests(n, starts(k)) == if n == 0 && k > 0 {
            seq![PauseChange::Pause]
        } else {
            Seq::<PauseChange>::empty()
        },
    decreases k,
{
    let ops = starts(k);
    if k > 0 {
        let prev = starts((k - 1) as nat);
        assert(ops.drop_last() =~= prev);
        lemma_consecutive_starts(n, (k - 1) as nat);
        assert forall|i: int| 0 <= i < k implies #[trigger] reported_counts(n, ops)[i] == Some((n + i + 1) as u64) by {
            if i < k - 1 {
                assert(reported_counts(n, ops)[i] == reported_counts(n, prev)[i]);
            }
        }
        if n == 0 && k - 1 > 0 {
            assert(pause_requests(n, ops) =~= seq![PauseChange::Pause]);
        }
        if n == 0 && k == 1 {
            assert(pause_requests(n, ops) =~= Seq::<PauseChange>::empty().push(PauseChange::Pause));
        }
    }
}

/// Over any operations from `count`: the count equals `count` plus the starts
/// carried out minus the ends carried out.
pub proof fn lemma_count_is_starts_minus_ends(count: u64, ops: Seq<bool>)
    ensures
        count_after_ops(count, ops) == count + successful_ops(count, ops, true) - successful_ops(
            count,
            ops,
            false,
        ),
    decreases ops.len(),
{
    if ops.len() > 0 {
        lemma_count_is_starts_minus_ends(count, ops.drop_last());
    }
}

/// Over any operations on a fresh thread: the session is asked to pause and
/// to resume in turn, starting with a pause, and after the last request (or
/// with none, as at the start) it is paused exactly while the count is above
/// zero; the count is the starts carried out minus the ends carried out.
pub proof fn lemma_pause_requests_alternate(ops: Seq<bool>)
    ensures
        count_after_ops(0, ops) == successful_ops(0, ops, true) - successful_ops(0, ops, false),
        forall|i: int| 0 <= i < pause_requests(0, ops).len() ==> #[trigger] pause_requests(0, ops)[i]
            == if i % 2 == 0 {
            PauseChange::Pause
        } else {
            PauseChange::Resume
        },
        (pause_requests(0, ops).len() % 2 == 1) == (count_after_ops(0, ops) > 0),
    decreases ops.len(),
{
    lemma_count_is_starts_minus_ends(0, ops);
    if ops.len() > 0 {
        let init = ops.drop_last();
        lemma_pause_requests_alternate(init);
        let rest = pause_requests(0, init);
        assert forall|i: int| 0 <= i < pause_requests(0, ops).len() implies #[trigger] pause_requests(0, ops)[i]
            == if i % 2 == 0 {
            PauseChange::Pause
        } else {
            PauseChange::Resume
        } by {
            if i < rest.len() {
                assert(pause_requests(0, ops)[i] == rest[i]);
            }
        }
    }
}

} // verus!
