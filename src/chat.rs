//! Chat completion messages and responses, and the accumulator that folds
//! streamed deltas into one response.
use vstd::prelude::*;

use crate::error::Error;
use crate::content::{merge_opt_content, opt_text, Content, ContentView};
use crate::tool::{merge_tool_call_list, merge_tool_calls, tool_calls_view, ToolCall, ToolCallView};

verus! {

/// The author of a message.
#[allow(non_camel_case_types)]
#[derive(Debug, Clone, Copy, PartialEq, Eq, Structural)]
pub enum Role {
    system,
    user,
    assistant,
    tool,
}

/// Stop sequences of a request: one text or several.
#[derive(Debug, Clone)]
pub enum Stop {
    Text(String),
    Texts(Vec<String>),
}

/// Stop sequences as a value.
pub enum StopView {
    Text(Seq<char>),
    Texts(Seq<Seq<char>>),
}

/// The values of a sequence of texts.
pub open spec fn texts_view(ts: Seq<String>) -> Seq<Seq<char>> {
    ts.map_values(|t: String| t@)
}

impl View for Stop {
    type V = StopView;

    open spec fn view(&self) -> StopView {
        match self {
            Stop::Text(t) => StopView::Text(t@),
            Stop::Texts(ts) => StopView::Texts(texts_view(ts@)),
        }
    }
}

/// Combining two stop specifications: two texts make a list; a single text
/// joins the end of a list, whichever side it came from; lists concatenate.
pub open spec fn append_stop(lhs: StopView, rhs: StopView) -> StopView {
    match (lhs, rhs) {
        (StopView::Text(l), StopView::Text(r)) => StopView::Texts(seq![l, r]),
        (StopView::Text(l), StopView::Texts(rs)) => StopView::Texts(rs.push(l)),
        (StopView::Texts(ls), StopView::Text(r)) => StopView::Texts(ls.push(r)),
        (StopView::Texts(ls), StopView::Texts(rs)) => StopView::Texts(ls + rs),
    }
}

impl Stop {
    /// Combines these stop sequences with more.
    pub fn append(self, rhs: Stop) -> (r: Self)
        ensures
            r@ == append_stop(self@, rhs@),
    {
        match (self, rhs) {
            (Stop::Text(lhs), Stop::Text(rhs)) => {
                let mut ts: Vec<String> = Vec::new();
                ts.push(lhs);
                ts.push(rhs);
                assert(texts_view(ts@) =~= seq![lhs@, rhs@]);
                Stop::Texts(ts)
            },
            (Stop::Text(lhs), Stop::Texts(mut rhs)) => {
                let ghost before = rhs@;
                rhs.push(lhs);
                assert(texts_view(rhs@) =~= texts_view(before).push(lhs@));
                Stop::Texts(rhs)
            },
            (Stop::Texts(mut lhs), Stop::Text(rhs)) => {
                let ghost before = lhs@;
                lhs.push(rhs);
                assert(texts_view(lhs@) =~= texts_view(before).push(rhs@));
                Stop::Texts(lhs)
            },
            (Stop::Texts(mut lhs), Stop::Texts(mut rhs)) => {
                let ghost l0 = lhs@;
                let ghost r0 = rhs@;
                lhs.append(&mut rhs);
                assert(texts_view(lhs@) =~= texts_view(l0) + texts_view(r0));
                Stop::Texts(lhs)
            },
        }
    }
}

/// The kind of output a request asks for.
#[allow(non_camel_case_types)]
#[derive(Debug, Clone, Copy, PartialEq, Eq, Structural)]
pub enum ResponseType {
    json_object,
}

/// The output format a request asks for.
#[derive(Debug, Clone, Copy, PartialEq, Eq, Structural)]
pub struct ResponseFormat {
    pub typ: ResponseType,
}

/// A chat message, or, inside a stream, a fragment of one.
#[derive(Debug, Clone)]
pub struct Message {
    pub role: Option<Role>,
    pub content: Option<Content>,
    pub tool_call_id: Option<String>,
    pub tool_calls: Vec<ToolCall>,
}

/// A message as a value.
pub struct MessageView {
    pub role: Option<Role>,
    pub content: Option<ContentView>,
    pub tool_call_id: Option<Seq<char>>,
    pub tool_calls: Seq<ToolCallView>,
}

/// The value of optional content.
pub open spec fn opt_content(o: Option<Content>) -> Option<ContentView> {
    match o {
        Some(c) => Some(c@),
        None => None,
    }
}

impl View for Message {
    type V = MessageView;

    open spec fn view(&self) -> MessageView {
        MessageView {
            role: self.role,
            content: opt_content(self.content),
            tool_call_id: opt_text(self.tool_call_id),
            tool_calls: tool_calls_view(self.tool_calls@),
        }
    }
}

/// Builds a message field by field.
pub struct MessageBuilder {
    role: Option<Role>,
    content: Option<Content>,
    tool_call_id: Option<String>,
    tool_calls: Vec<ToolCall>,
}

impl View for MessageBuilder {
    type V = MessageView;

    /// The message built so far.
    closed spec fn view(&self) -> MessageView {
        MessageView {
            role: self.role,
            content: opt_content(self.content),
            tool_call_id: opt_text(self.tool_call_id),
            tool_calls: tool_calls_view(self.tool_calls@),
        }
    }
}

/// A message with nothing set.
pub open spec fn empty_message() -> MessageView {
    MessageView { role: None, content: None, tool_call_id: None, tool_calls: Seq::empty() }
}

impl Default for MessageBuilder {
    fn default() -> (r: Self)
        ensures
            r@ == empty_message(),
    {
        let r = MessageBuilder { role: None, content: None, tool_call_id: None, tool_calls: Vec::new() };
        assert(tool_calls_view(r.tool_calls@) =~= Seq::<ToolCallView>::empty());
        r
    }
}

impl Message {
    /// A builder with nothing set.
    pub fn builder() -> (r: MessageBuilder)
        ensures
            r@ == empty_message(),
    {
        MessageBuilder::default()
    }
}

impl MessageBuilder {
    /// Sets the role.
    pub fn with_role(self, role: Role) -> (r: Self)
        ensures
            r@ == (MessageView { role: Some(role), ..self@ }),
    {
        MessageBuilder { role: Some(role), ..self }
    }

    /// Sets the content.
    pub fn with_content(self, content: Content) -> (r: Self)
        ensures
            r@ == (MessageView { content: Some(content@), ..self@ }),
    {
        MessageBuilder { content: Some(content), ..self }
    }

    /// Sets the identifier of the tool call this message answers.
    pub fn with_tool_call_id(self, tool_call_id: &str) -> (r: Self)
        ensures
            r@ == (MessageView { tool_call_id: Some(tool_call_id@), ..self@ }),
    {
        MessageBuilder { tool_call_id: Some(tool_call_id.to_owned()), ..self }
    }

    /// Replaces the tool calls.
    pub fn with_tool_calls(self, tool_calls: Vec<ToolCall>) -> (r: Self)
        ensures
            r@ == (MessageView { tool_calls: tool_calls_view(tool_calls@), ..self@ }),
    {
        MessageBuilder { tool_calls, ..self }
    }

    /// Appends one tool call.
    pub fn add_tool_call(self, tool_call: ToolCall) -> (r: Self)
        ensures
            r@ == (MessageView { tool_calls: self@.tool_calls.push(tool_call@), ..self@ }),
    {
        let MessageBuilder { role, content, tool_call_id, mut tool_calls } = self;
        let ghost before = tool_calls@;
        tool_calls.push(tool_call);
        assert(tool_calls_view(tool_calls@) =~= tool_calls_view(before).push(tool_call@));
        MessageBuilder { role, content, tool_call_id, tool_calls }
    }

    /// The message.
    pub fn build(self) -> (r: Message)
        ensures
            r@ == self@,
    {
        let MessageBuilder { role, content, tool_call_id, tool_calls } = self;
        Message { role, content, tool_call_id, tool_calls }
    }
}

/// Token counts of a completion.
#[derive(Debug, Clone, Copy, PartialEq, Eq, Structural, Default)]
pub struct ChatComplitionUsage {
    pub cached_tokens: Option<u64>,
    pub completion_tokens: u64,
    pub prompt_tokens: u64,
    pub total_tokens: u64,
}

/// One finished choice of a response.
#[derive(Debug, Clone)]
pub struct Choice {
    pub index: usize,
    pub message: Message,
    pub finish_reason: Option<String>,
}

/// A choice as a value.
pub struct ChoiceView {
    pub index: usize,
    pub message: MessageView,
    pub finish_reason: Option<Seq<char>>,
}

impl View for Choice {
    type V = ChoiceView;

    open spec fn view(&self) -> ChoiceView {
        ChoiceView {
            index: self.index,
            message: self.message@,
            finish_reason: opt_text(self.finish_reason),
        }
    }
}

/// The values of a sequence of choices.
pub open spec fn choices_view(cs: Seq<Choice>) -> Seq<ChoiceView> {
    cs.map_values(|c: Choice| c@)
}

/// A complete chat completion response, or one being assembled from a stream.
#[derive(Debug, Clone)]
pub struct ChatCompletionResponse {
    pub id: String,
    pub object: String,
    pub created: u64,
    pub model: String,
    pub choices: Vec<Choice>,
    pub usage: Option<ChatComplitionUsage>,
}

/// A response as a value.
pub struct ResponseView {
    pub id: Seq<char>,
    pub object: Seq<char>,
    pub created: u64,
    pub model: Seq<char>,
    pub choices: Seq<ChoiceView>,
    pub usage: Option<ChatComplitionUsage>,
}

impl View for ChatCompletionResponse {
    type V = ResponseView;

    open spec fn view(&self) -> ResponseView {
        ResponseView {
            id: self.id@,
            object: self.object@,
            created: self.created,
            model: self.model@,
            choices: choices_view(self.choices@),
            usage: self.usage,
        }
    }
}

/// The kind tag of a fresh response.
pub open spec fn default_object() -> Seq<char> {
    "chat.completion"@
}

/// A fresh response: empty identifiers, the default kind tag, no choices.
pub open spec fn default_response() -> ResponseView {
    ResponseView {
        id: Seq::empty(),
        object: default_object(),
        created: 0,
        model: Seq::empty(),
        choices: Seq::empty(),
        usage: None,
    }
}

impl Default for ChatCompletionResponse {
    fn default() -> (r: Self)
        ensures
            r@ == default_response(),
    {
        let r = ChatCompletionResponse {
            id: String::new(),
            object: "chat.completion".to_owned(),
            created: 0,
            model: String::new(),
            choices: Vec::new(),
            usage: None,
        };
        assert(choices_view(r.choices@) =~= Seq::<ChoiceView>::empty());
        r
    }
}

/// One choice fragment of a streamed delta.
#[derive(Debug, Clone)]
pub struct StreamChoice {
    pub index: usize,
    pub delta: Message,
    pub finish_reason: Option<String>,
    pub usage: Option<ChatComplitionUsage>,
}

/// A choice fragment as a value.
pub struct StreamChoiceView {
    pub index: usize,
    pub delta: MessageView,
    pub finish_reason: Option<Seq<char>>,
    pub usage: Option<ChatComplitionUsage>,
}

impl View for StreamChoice {
    type V = StreamChoiceView;

    open spec fn view(&self) -> StreamChoiceView {
        StreamChoiceView {
            index: self.index,
            delta: self.delta@,
            finish_reason: opt_text(self.finish_reason),
            usage: self.usage,
        }
    }
}

/// One decoded streaming event: a delta of the response.
#[derive(Debug, Clone)]
pub struct ChatCompletionStreamData {
    pub id: Option<String>,
    pub object: Option<String>,
    pub created: Option<u64>,
    pub model: Option<String>,
    pub choices: Vec<StreamChoice>,
    pub usage: Option<ChatComplitionUsage>,
}

/// A delta as a value.
pub struct DeltaView {
    pub id: Option<Seq<char>>,
    pub object: Option<Seq<char>>,
    pub created: Option<u64>,
    pub model: Option<Seq<char>>,
    pub choices: Seq<StreamChoiceView>,
    pub usage: Option<ChatComplitionUsage>,
}

impl View for ChatCompletionStreamData {
    type V = DeltaView;

    open spec fn view(&self) -> DeltaView {
        DeltaView {
            id: opt_text(self.id),
            object: opt_text(self.object),
            created: self.created,
            model: opt_text(self.model),
            choices: self.choices@.map_values(|c: StreamChoice| c@),
            usage: self.usage,
        }
    }
}

/// `update` when present, else `held`.
pub open spec fn overwrite<T>(held: T, update: Option<T>) -> T {
    match update {
        Some(v) => v,
        None => held,
    }
}

/// Folding a message fragment into the held message: the role is set only
/// while unset, content merges, a tool-call identifier replaces the held one,
/// tool calls merge by position.
pub open spec fn merge_message(m: MessageView, d: MessageView) -> MessageView {
    MessageView {
        role: if m.role is Some {
            m.role
        } else {
            d.role
        },
        content: merge_opt_content(m.content, d.content),
        tool_call_id: if d.tool_call_id is Some {
            d.tool_call_id
        } else {
            m.tool_call_id
        },
        tool_calls: merge_tool_calls(m.tool_calls, d.tool_calls),
    }
}

/// Folding a choice fragment into the held choice of the same slot.
pub open spec fn merge_into_choice(c: ChoiceView, sc: StreamChoiceView) -> ChoiceView {
    ChoiceView {
        index: c.index,
        message: merge_message(c.message, sc.delta),
        finish_reason: if sc.finish_reason is Some {
            sc.finish_reason
        } else {
            c.finish_reason
        },
    }
}

/// The choice a fragment of a slot not seen before becomes.
pub open spec fn choice_from(sc: StreamChoiceView) -> ChoiceView {
    ChoiceView { index: sc.index, message: sc.delta, finish_reason: sc.finish_reason }
}

/// The position of the first choice of slot `index`, if any.
pub open spec fn slot_position(choices: Seq<ChoiceView>, index: usize) -> Option<int>
    decreases choices.len(),
{
    if choices.len() == 0 {
        None
    } else {
        match slot_position(choices.drop_last(), index) {
            Some(k) => Some(k),
            None => if choices.last().index == index {
                Some(choices.len() - 1)
            } else {
                None
            },
        }
    }
}

/// Folding one choice fragment into a response: its usage, if any, replaces
/// the response's; it merges into the choice of its slot, or is appended as a
/// new choice.
pub open spec fn absorb_choice(r: ResponseView, sc: StreamChoiceView) -> ResponseView {
    let usage = if sc.usage is Some {
        sc.usage
    } else {
        r.usage
    };
    match slot_position(r.choices, sc.index) {
        Some(k) => ResponseView {
            usage,
            choices: r.choices.update(k, merge_into_choice(r.choices[k], sc)),
            ..r
        },
        None => ResponseView { usage, choices: r.choices.push(choice_from(sc)), ..r },
    }
}

/// Folding choice fragments into a response, in order.
pub open spec fn absorb_choices(r: ResponseView, scs: Seq<StreamChoiceView>) -> ResponseView
    decreases scs.len(),
{
    if scs.len() == 0 {
        r
    } else {
        absorb_choice(absorb_choices(r, scs.drop_last()), scs.last())
    }
}

/// Folding the top-level fields of a delta into a response: usage, id,
/// creation time and model overwrite when present; the kind tag is taken
/// only while the response's is empty.
pub open spec fn absorb_header(r: ResponseView, d: DeltaView) -> ResponseView {
    ResponseView {
        id: overwrite(r.id, d.id),
        object: if r.object.len() == 0 {
            overwrite(r.object, d.object)
        } else {
            r.object
        },
        created: overwrite(r.created, d.created),
        model: overwrite(r.model, d.model),
        choices: r.choices,
        usage: if d.usage is Some {
            d.usage
        } else {
            r.usage
        },
    }
}

/// The response after folding in one delta.
pub open spec fn merged(r: ResponseView, d: DeltaView) -> ResponseView {
    absorb_choices(absorb_header(r, d), d.choices)
}

/// The response after folding in a sequence of deltas, in order.
pub open spec fn fold_deltas(r: ResponseView, ds: Seq<DeltaView>) -> ResponseView
    decreases ds.len(),
{
    if ds.len() == 0 {
        r
    } else {
        merged(fold_deltas(r, ds.drop_last()), ds.last())
    }
}

/// The response after folding in a run of decoded items, in order: a
/// decode failure contributes nothing.
pub open spec fn fold_items(r: ResponseView, items: Seq<Result<ChatCompletionStreamData, Error>>) -> ResponseView
    decreases items.len(),
{
    if items.len() == 0 {
        r
    } else {
        match items.last() {
            Ok(d) => merged(fold_items(r, items.drop_last()), d@),
            Err(_) => fold_items(r, items.drop_last()),
        }
    }
}

/// The deltas among a run of decoded items, in order.
pub open spec fn decoded_deltas(items: Seq<Result<ChatCompletionStreamData, Error>>) -> Seq<DeltaView>
    decreases items.len(),
{
    if items.len() == 0 {
        Seq::empty()
    } else {
        match items.last() {
            Ok(d) => decoded_deltas(items.drop_last()).push(d@),
            Err(_) => decoded_deltas(items.drop_last()),
        }
    }
}

/// Folding two runs of items one after the other is folding their
/// concatenation.
pub proof fn lemma_fold_items_split(
    r: ResponseView,
    a: Seq<Result<ChatCompletionStreamData, Error>>,
    b: Seq<Result<ChatCompletionStreamData, Error>>,
)
    ensures
        fold_items(r, a + b) == fold_items(fold_items(r, a), b),
    decreases b.len(),
{
    if b.len() == 0 {
        assert(a + b =~= a);
    } else {
        lemma_fold_items_split(r, a, b.drop_last());
        assert((a + b).drop_last() =~= a + b.drop_last());
    }
}

/// In merged mode decode failures are skipped: folding the decoded items is
/// folding the deltas among them.
pub proof fn lemma_fold_items_skips_failures(r: ResponseView, items: Seq<Result<ChatCompletionStreamData, Error>>)
    ensures
        fold_items(r, items) == fold_deltas(r, decoded_deltas(items)),
    decreases items.len(),
{
    if items.len() > 0 {
        lemma_fold_items_skips_failures(r, items.drop_last());
        match items.last() {
            Ok(d) => {
                assert(decoded_deltas(items).drop_last() =~= decoded_deltas(items.drop_last()));
            },
            Err(_) => {},
        }
    }
}

/// A decode failure delivered mid-stream neither changes the response nor
/// keeps the deltas after it from being folded: the result is that of the
/// same stream without the failure.
pub proof fn lemma_decode_failure_mid_stream(
    r: ResponseView,
    before: Seq<Result<ChatCompletionStreamData, Error>>,
    e: Error,
    after: Seq<Result<ChatCompletionStreamData, Error>>,
)
    ensures
        fold_items(r, before.push(Err(e)) + after) == fold_items(r, before + after),
        fold_items(r, before.push(Err(e))) == fold_items(r, before),
{
    let failed = before.push(Err(e));
    assert(failed.drop_last() =~= before);
    lemma_fold_items_split(r, failed, after);
    lemma_fold_items_split(r, before, after);
}

/// A slot's role, once set, stays: folding in any delta keeps every choice
/// already held at its position, with its slot index and its role.
pub proof fn lemma_role_kept(r: ResponseView, d: DeltaView, k: int)
    requires
        0 <= k < r.choices.len(),
        r.choices[k].message.role is Some,
    ensures
        k < merged(r, d).choices.len(),
        merged(r, d).choices[k].index == r.choices[k].index,
        merged(r, d).choices[k].message.role == r.choices[k].message.role,
{
    lemma_absorb_choices_keeps_roles(absorb_header(r, d), d.choices, k);
}

proof fn lemma_absorb_choices_keeps_roles(r: ResponseView, scs: Seq<StreamChoiceView>, k: int)
    requires
        0 <= k < r.choices.len(),
        r.choices[k].message.role is Some,
    ensures
        k < absorb_choices(r, scs).choices.len(),
        absorb_choices(r, scs).choices[k].index == r.choices[k].index,
        absorb_choices(r, scs).choices[k].message.role == r.choices[k].message.role,
    decreases scs.len(),
{
    if scs.len() > 0 {
        lemma_absorb_choices_keeps_roles(r, scs.drop_last(), k);
        let prev = absorb_choices(r, scs.drop_last());
        lemma_slot_position_bounds(prev.choices, scs.last().index);
    }
}

/// The position of a slot lies within the choices and holds that slot.
proof fn lemma_slot_position_bounds(choices: Seq<ChoiceView>, index: usize)
    ensures
        match slot_position(choices, index) {
            Some(j) => 0 <= j < choices.len() && choices[j].index == index,
            None => forall|j: int| 0 <= j < choices.len() ==> choices[j].index != index,
        },
    decreases choices.len(),
{
    if choices.len() > 0 {
        lemma_slot_position_bounds(choices.drop_last(), index);
        assert forall|j: int| 0 <= j < choices.len() - 1 implies choices[j] == choices.drop_last()[j] by {}
    }
}

/// Whether no two choices share a slot.
pub open spec fn slots_unique(choices: Seq<ChoiceView>) -> bool {
    forall|i: int, j: int| 0 <= i < j < choices.len() ==> choices[i].index != choices[j].index
}

/// Slot index is the join key: folding in a delta never gives two choices
/// the same slot, and keeps the choices already held, in their order and
/// with their slots, before any new ones.
pub proof fn lemma_merge_keeps_slots_unique(r: ResponseView, d: DeltaView)
    requires
        slots_unique(r.choices),
    ensures
        slots_unique(merged(r, d).choices),
        r.choices.len() <= merged(r, d).choices.len(),
        forall|k: int| 0 <= k < r.choices.len() ==> merged(r, d).choices[k].index == r.choices[k].index,
{
    lemma_absorb_choices_keeps_slots(absorb_header(r, d), d.choices);
}

proof fn lemma_absorb_choices_keeps_slots(r: ResponseView, scs: Seq<StreamChoiceView>)
    requires
        slots_unique(r.choices),
    ensures
        slots_unique(absorb_choices(r, scs).choices),
        r.choices.len() <= absorb_choices(r, scs).choices.len(),
        forall|k: int| 0 <= k < r.choices.len() ==> absorb_choices(r, scs).choices[k].index == r.choices[k].index,
    decreases scs.len(),
{
    if scs.len() > 0 {
        lemma_absorb_choices_keeps_slots(r, scs.drop_last());
        let prev = absorb_choices(r, scs.drop_last());
        lemma_slot_position_bounds(prev.choices, scs.last().index);
        let next = absorb_choice(prev, scs.last());
        assert(forall|k: int| 0 <= k < prev.choices.len() ==> next.choices[k].index == prev.choices[k].index);
    }
}

impl Message {
    /// Folds a later fragment of this message into it.
    pub fn absorb(&mut self, frag: Message)
        ensures
            final(self)@ == merge_message(old(self)@, frag@),
    {
        if self.role.is_none() {
            self.role = frag.role;
        }
        if let Some(dc) = frag.content {
            let held = self.content.take();
            self.content = match held {
                Some(mut c) => {
                    c.merge(dc);
                    Some(c)
                },
                None => Some(dc),
            };
        }
        if frag.tool_call_id.is_some() {
            self.tool_call_id = frag.tool_call_id;
        }
        merge_tool_call_list(&mut self.tool_calls, frag.tool_calls);
    }
}

impl Choice {
    /// A choice from the first fragment of its slot.
    pub fn from_fragment(sc: StreamChoice) -> (r: Self)
        ensures
            r@ == choice_from(sc@),
    {
        Choice { index: sc.index, message: sc.delta, finish_reason: sc.finish_reason }
    }

    /// Folds a later fragment of this choice's slot into it.
    pub fn absorb(&mut self, sc: StreamChoice)
        ensures
            final(self)@ == merge_into_choice(old(self)@, sc@),
    {
        self.message.absorb(sc.delta);
        if sc.finish_reason.is_some() {
            self.finish_reason = sc.finish_reason;
        }
    }
}

impl ChatCompletionResponse {
    /// The position of the first choice of slot `index`, if any.
    fn find_slot(&self, index: usize) -> (r: Option<usize>)
        ensures
            match r {
                Some(k) => k < self@.choices.len() && slot_position(self@.choices, index) == Some(
                    k as int,
                ),
                None => slot_position(self@.choices, index) is None,
            },
    {
        let ghost cv = self@.choices;
        let mut k: usize = 0;
        while k < self.choices.len()
            invariant
                k <= self.choices@.len(),
                cv == choices_view(self.choices@),
                slot_position(cv.take(k as int), index) is None,
            decreases self.choices@.len() - k,
        {
            assert(cv.take(k as int + 1).drop_last() =~= cv.take(k as int));
            if self.choices[k].index == index {
                assert(slot_position(cv.take(k as int + 1), index) == Some(k as int));
                proof {
                    lemma_slot_position_prefix(cv, k as int + 1, index);
                }
                return Some(k);
            }
            k = k + 1;
        }
        assert(cv.take(k as int) =~= cv);
        None
    }

    /// Folds one choice fragment into the response.
    fn absorb_choice(&mut self, sc: StreamChoice)
        ensures
            final(self)@ == absorb_choice(old(self)@, sc@),
    {
        if sc.usage.is_some() {
            self.usage = sc.usage;
        }
        let ghost before = self.choices@;
        match self.find_slot(sc.index) {
            Some(k) => {
                self.choices[k].absorb(sc);
                assert(choices_view(self.choices@) =~= choices_view(before).update(
                    k as int,
                    merge_into_choice(choices_view(before)[k as int], sc@),
                ));
            },
            None => {
                self.choices.push(Choice::from_fragment(sc));
                assert(choices_view(self.choices@) =~= choices_view(before).push(choice_from(sc@)));
            },
        }
    }

    /// Folds one streamed delta into the response.
    pub fn merge_delta(&mut self, delta: ChatCompletionStreamData)
        ensures
            final(self)@ == merged(old(self)@, delta@),
    {
        let ghost dv = delta@;
        let ChatCompletionStreamData { id, object, created, model, choices, usage } = delta;
        if usage.is_some() {
            self.usage = usage;
        }
        if let Some(id) = id {
            self.id = id;
        }
        if let Some(object) = object {
            if self.object.as_str().is_empty() {
                self.object = object;
            }
        }
        if let Some(created) = created {
            self.created = created;
        }
        if let Some(model) = model {
            self.model = model;
        }
        let ghost header = self@;
        assert(header == absorb_header(old(self)@, dv));
        let ghost scs = dv.choices;
        for sc in it: choices.into_iter()
            invariant
                it.seq() == choices@,
                scs == choices@.map_values(|c: StreamChoice| c@),
                self@ == absorb_choices(header, scs.take(it.index() as int)),
        {
            assert(scs.take(it.index() + 1).drop_last() =~= scs.take(it.index() as int));
            self.absorb_choice(sc);
        }
        assert(scs.take(scs.len() as int) =~= scs);
    }
}

impl ChatCompletionResponse {
    /// Folds one decoded item into the response; a decode failure leaves it
    /// as it is.
    pub fn merge_result(&mut self, item: Result<ChatCompletionStreamData, Error>)
        ensures
            final(self)@ == match item {
                Ok(d) => merged(old(self)@, d@),
                Err(_) => old(self)@,
            },
    {
        if let Ok(d) = item {
            self.merge_delta(d);
        }
    }

    /// Folds a run of decoded items into the response, in order, skipping
    /// decode failures.
    pub fn merge_results(&mut self, items: Vec<Result<ChatCompletionStreamData, Error>>)
        ensures
            final(self)@ == fold_items(old(self)@, items@),
    {
        let ghost start = self@;
        for item in it: items.into_iter()
            invariant
                it.seq() == items@,
                self@ == fold_items(start, items@.take(it.index() as int)),
        {
            assert(items@.take(it.index() + 1).drop_last() =~= items@.take(it.index() as int));
            self.merge_result(item);
        }
        assert(items@.take(items@.len() as int) =~= items@);
    }
}

/// The first choice of a slot stays the first when more choices follow.
proof fn lemma_slot_position_prefix(cv: Seq<ChoiceView>, n: int, index: usize)
    requires
        0 <= n <= cv.len(),
        slot_position(cv.take(n), index) is Some,
    ensures
        slot_position(cv, index) == slot_position(cv.take(n), index),
    decreases cv.len() - n,
{
    if n < cv.len() {
        assert(cv.take(n + 1).drop_last() =~= cv.take(n));
        lemma_slot_position_prefix(cv, n + 1, index);
    } else {
        assert(cv.take(n) =~= cv);
    }
}

} // verus!
