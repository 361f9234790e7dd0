//! The conversation state machine: the message model of the chat-completion
//! protocol, the error kinds of the conversation layer, and the ordered
//! message log with its two invariants — role alternation for ordinary
//! messages, and first-in-first-out pairing of tool calls with their
//! responses.

use vstd::prelude::*;
use vstd::string::StrSliceExecFns;
use vstd::string::StringExecFns;

use crate::json::{json_kind_at, json_len_at, json_quoted, json_str_at, push_json_string, spec_json_kind_at, spec_json_len_at, spec_json_str_at, JsonKind};
use crate::strutil::{chars_to_string, dec_of, push_all, push_dec_u64, push_str_chars, str_chars, str_equal};

use base64::Engine;

verus! {

/// What went wrong in a conversation operation.
#[derive(Clone, Copy, PartialEq, Eq, Structural, Debug)]
pub enum ChatErrorKind {
    ChatContainsNoMessages,
    LastToolCallIdNotFound,
    ToolCallIdNotFound,
    RoleAlternationViolation,
    LastMessageAlreadyAssistant,
    ProtocolParseFailure,
    Other,
}

/// A conversation-layer error: its kind, and a human-readable message.
#[derive(Debug)]
pub struct ChatError {
    pub kind: ChatErrorKind,
    pub message: String,
}

impl ChatError {
    pub fn new(chat_error_kind: ChatErrorKind, message: &str) -> (r: Self)
        ensures
            r.kind == chat_error_kind,
            r.message@ == message@,
    {
        ChatError { kind: chat_error_kind, message: message.to_owned() }
    }
}

/// The function a tool call invokes: its name and its JSON-encoded argument
/// string, kept opaque.
#[derive(Debug)]
pub struct FunctionCall {
    pub name: String,
    pub arguments: String,
}

/// A model-issued request to invoke a named local function.
#[derive(Debug)]
pub struct ToolCall {
    pub id: String,
    pub tool_type: String,
    pub function: FunctionCall,
}

/// The target of an image content part.
#[derive(Debug)]
pub struct ImageUrlContent {
    pub url: String,
}

/// One part of a multi-part message content.
#[derive(Debug)]
pub enum ContentPart {
    Text { text: String },
    ImageUrl { image_url: ImageUrlContent },
}

/// Message content: a single text, or a list of parts.
#[derive(Debug)]
pub enum MessageContent {
    Simple(String),
    Multi(Vec<ContentPart>),
}

/// One message of the conversation.
#[derive(Debug)]
pub struct Message {
    pub role: String,
    pub content: Option<MessageContent>,
    pub name: Option<String>,
    pub tool_call_id: Option<String>,
    pub tool_calls: Option<Vec<ToolCall>>,
}

/// Mathematical image of a `FunctionCall`.
pub ghost struct FunctionCallV {
    pub name: Seq<char>,
    pub arguments: Seq<char>,
}

/// Mathematical image of a `ToolCall`.
pub ghost struct ToolCallV {
    pub id: Seq<char>,
    pub tool_type: Seq<char>,
    pub function: FunctionCallV,
}

/// Mathematical image of a `ContentPart`.
pub ghost enum ContentPartV {
    Text(Seq<char>),
    ImageUrl(Seq<char>),
}

/// Mathematical image of a `MessageContent`.
pub ghost enum MessageContentV {
    Simple(Seq<char>),
    Multi(Seq<ContentPartV>),
}

/// Mathematical image of a `Message`.
pub ghost struct MessageV {
    pub role: Seq<char>,
    pub content: Option<MessageContentV>,
    pub name: Option<Seq<char>>,
    pub tool_call_id: Option<Seq<char>>,
    pub tool_calls: Option<Seq<ToolCallV>>,
}

impl View for FunctionCall {
    type V = FunctionCallV;

    open spec fn view(&self) -> FunctionCallV {
        FunctionCallV { name: self.name@, arguments: self.arguments@ }
    }
}

impl View for ToolCall {
    type V = ToolCallV;

    open spec fn view(&self) -> ToolCallV {
        ToolCallV { id: self.id@, tool_type: self.tool_type@, function: self.function@ }
    }
}

impl View for ContentPart {
    type V = ContentPartV;

    open spec fn view(&self) -> ContentPartV {
        match self {
            ContentPart::Text { text } => ContentPartV::Text(text@),
            ContentPart::ImageUrl { image_url } => ContentPartV::ImageUrl(image_url.url@),
        }
    }
}

impl View for MessageContent {
    type V = MessageContentV;

    open spec fn view(&self) -> MessageContentV {
        match self {
            MessageContent::Simple(s) => MessageContentV::Simple(s@),
            MessageContent::Multi(parts) => MessageContentV::Multi(
                parts@.map_values(|p: ContentPart| p@),
            ),
        }
    }
}

impl View for Message {
    type V = MessageV;

    open spec fn view(&self) -> MessageV {
        MessageV {
            role: self.role@,
            content: match &self.content {
                Some(c) => Some(c@),
                None => None,
            },
            name: match &self.name {
                Some(n) => Some(n@),
                None => None,
            },
            tool_call_id: match &self.tool_call_id {
                Some(t) => Some(t@),
                None => None,
            },
            tool_calls: match &self.tool_calls {
                Some(tcs) => Some(tcs@.map_values(|t: ToolCall| t@)),
                None => None,
            },
        }
    }
}

/// The invariant of the data model: tool calls ride only on assistant
/// messages, and a tool name or pairing id only on tool messages.
pub open spec fn msg_wf(m: MessageV) -> bool {
    &&& m.tool_calls is Some ==> m.role == "assistant"@
    &&& (m.name is Some || m.tool_call_id is Some) ==> m.role == "tool"@
}

impl Message {
    /// An ordinary message: a role and its content, nothing tool-related.
    pub fn normal(role: String, content: String) -> (r: Self)
        ensures
            r@ == (MessageV {
                role: role@,
                content: Some(MessageContentV::Simple(content@)),
                name: None,
                tool_call_id: None,
                tool_calls: None,
            }),
            msg_wf(r@),
    {
        Message {
            role,
            content: Some(MessageContent::Simple(content)),
            name: None,
            tool_calls: None,
            tool_call_id: None,
        }
    }

    /// A tool-response message, answering the tool call named by
    /// `tool_call_id`.
    pub fn tool_response(role: String, name: String, tool_call_id: String, content: String) -> (r:
        Self)
        requires
            role@ == "tool"@,
        ensures
            r@ == (MessageV {
                role: role@,
                content: Some(MessageContentV::Simple(content@)),
                name: Some(name@),
                tool_call_id: Some(tool_call_id@),
                tool_calls: None,
            }),
            msg_wf(r@),
    {
        Message {
            role,
            name: Some(name),
            tool_call_id: Some(tool_call_id),
            content: Some(MessageContent::Simple(content)),
            tool_calls: None,
        }
    }
}

impl Message {
    /// Whether the message observes the data model: tool calls only on an
    /// assistant message, a tool name or pairing id only on a tool message.
    pub fn is_wf(&self) -> (r: bool)
        ensures
            r == msg_wf(self@),
    {
        if self.tool_calls.is_some() && !str_equal(self.role.as_str(), "assistant") {
            return false;
        }
        if (self.name.is_some() || self.tool_call_id.is_some()) && !str_equal(
            self.role.as_str(),
            "tool",
        ) {
            return false;
        }
        true
    }
}

/// The images of a message vector.
pub open spec fn msg_views(msgs: Seq<Message>) -> Seq<MessageV> {
    msgs.map_values(|m: Message| m@)
}

/// The tool-call ids a message emits, in order.
pub open spec fn msg_tool_call_ids(m: MessageV) -> Seq<Seq<char>> {
    match m.tool_calls {
        Some(tcs) => tcs.map_values(|t: ToolCallV| t.id),
        None => Seq::empty(),
    }
}

/// `q` with every occurrence of `id` removed.
pub open spec fn remove_id(q: Seq<Seq<char>>, id: Seq<char>) -> Seq<Seq<char>>
    decreases q.len(),
{
    if q.len() == 0 {
        q
    } else if q.last() == id {
        remove_id(q.drop_last(), id)
    } else {
        remove_id(q.drop_last(), id).push(q.last())
    }
}

/// How one message changes the queue of pending tool-call ids: its own
/// emitted ids join the back; if it is a tool response, the id it answers
/// leaves.
pub open spec fn apply_pending(p: Seq<Seq<char>>, m: MessageV) -> Seq<Seq<char>> {
    let q = p + msg_tool_call_ids(m);
    match m.tool_call_id {
        Some(id) => remove_id(q, id),
        None => q,
    }
}

/// The queue of pending tool-call ids after a message log, oldest first.
pub open spec fn pending_ids(msgs: Seq<MessageV>) -> Seq<Seq<char>>
    decreases msgs.len(),
{
    if msgs.len() == 0 {
        Seq::empty()
    } else {
        apply_pending(pending_ids(msgs.drop_last()), msgs.last())
    }
}

/// The first tool call with the given id among `tcs`.
pub open spec fn find_tool_call_in(tcs: Seq<ToolCallV>, id: Seq<char>) -> Option<ToolCallV>
    decreases tcs.len(),
{
    if tcs.len() == 0 {
        None
    } else if tcs[0].id == id {
        Some(tcs[0])
    } else {
        find_tool_call_in(tcs.drop_first(), id)
    }
}

/// The first tool call with the given id in the message log, scanning
/// messages in order.
pub open spec fn spec_find_tool_call(msgs: Seq<MessageV>, id: Seq<char>) -> Option<ToolCallV>
    decreases msgs.len(),
{
    if msgs.len() == 0 {
        None
    } else {
        match find_tool_call_in(msg_tool_call_ids_source(msgs[0]), id) {
            Some(t) => Some(t),
            None => spec_find_tool_call(msgs.drop_first(), id),
        }
    }
}

/// The tool calls a message carries (none for a message without any).
pub open spec fn msg_tool_call_ids_source(m: MessageV) -> Seq<ToolCallV> {
    match m.tool_calls {
        Some(tcs) => tcs,
        None => Seq::empty(),
    }
}

/// All tool-call ids the log emits, in order of emission.
pub open spec fn emitted_ids(msgs: Seq<MessageV>) -> Seq<Seq<char>>
    decreases msgs.len(),
{
    if msgs.len() == 0 {
        Seq::empty()
    } else {
        emitted_ids(msgs.drop_last()) + msg_tool_call_ids(msgs.last())
    }
}

/// Whether some message of the log answers the tool call with id `k`.
pub open spec fn answered(msgs: Seq<MessageV>, k: Seq<char>) -> bool {
    exists|i: int| 0 <= i < msgs.len() && #[trigger] msgs[i].tool_call_id == Some(k)
}

/// A log is coherent when no tool-call id is emitted twice and every tool
/// response answers an id emitted before it.
pub open spec fn log_coherent(msgs: Seq<MessageV>) -> bool {
    &&& emitted_ids(msgs).no_duplicates()
    &&& forall|i: int|
        0 <= i < msgs.len() && (#[trigger] msgs[i].tool_call_id) is Some ==> emitted_ids(
            msgs.take(i),
        ).contains(msgs[i].tool_call_id->Some_0)
}

/// Filters agree when their predicates agree on every element.
proof fn lemma_filter_agree<A>(s: Seq<A>, p: spec_fn(A) -> bool, q: spec_fn(A) -> bool)
    requires
        forall|i: int| 0 <= i < s.len() ==> p(#[trigger] s[i]) == q(s[i]),
    ensures
        s.filter(p) == s.filter(q),
    decreases s.len(),
{
    reveal(Seq::filter);
    if s.len() > 0 {
        lemma_filter_agree(s.drop_last(), p, q);
        assert(forall|i: int| 0 <= i < s.len() - 1 ==> s.drop_last()[i] == s[i]);
    }
}

/// Striking out one id is filtering by inequality with it.
proof fn lemma_remove_id_is_filter(q: Seq<Seq<char>>, a: Seq<char>)
    ensures
        remove_id(q, a) == q.filter(|k: Seq<char>| k != a),
    decreases q.len(),
{
    reveal(Seq::filter);
    if q.len() > 0 {
        lemma_remove_id_is_filter(q.drop_last(), a);
    }
}

/// Two filters in a row are the filter by the conjunction.
proof fn lemma_filter_filter<A>(
    s: Seq<A>,
    p: spec_fn(A) -> bool,
    q: spec_fn(A) -> bool,
    r: spec_fn(A) -> bool,
)
    requires
        forall|x: A| #[trigger] r(x) == (p(x) && q(x)),
    ensures
        s.filter(p).filter(q) == s.filter(r),
    decreases s.len(),
{
    reveal(Seq::filter);
    if s.len() > 0 {
        lemma_filter_filter(s.drop_last(), p, q, r);
        if p(s.last()) {
            assert(s.filter(p) == s.drop_last().filter(p).push(s.last()));
            assert(s.filter(p).drop_last() =~= s.drop_last().filter(p));
        }
    }
}

/// Emitted ids grow with the log: an id emitted within a prefix is emitted
/// within the whole.
proof fn lemma_emitted_monotone(msgs: Seq<MessageV>, i: int, k: Seq<char>)
    requires
        0 <= i <= msgs.len(),
        emitted_ids(msgs.take(i)).contains(k),
    ensures
        emitted_ids(msgs).contains(k),
    decreases msgs.len() - i,
{
    if i == msgs.len() {
        assert(msgs.take(i) =~= msgs);
    } else {
        assert(msgs.take(i + 1).drop_last() =~= msgs.take(i));
        assert(msgs.take(i + 1).last() == msgs[i]);
        let e = emitted_ids(msgs.take(i));
        let j = choose|j: int| 0 <= j < e.len() && e[j] == k;
        assert(emitted_ids(msgs.take(i + 1))[j] == k);
        lemma_emitted_monotone(msgs, i + 1, k);
    }
}

/// The pending queue holds exactly the emitted ids that no message answers,
/// in emission order, for every coherent log. In particular the head of the
/// queue is the oldest unanswered tool call, whatever order the others were
/// answered in.
pub proof fn lemma_pending_is_unanswered(msgs: Seq<MessageV>)
    requires
        log_coherent(msgs),
    ensures
        pending_ids(msgs) == emitted_ids(msgs).filter(
            |k: Seq<char>| !answered(msgs, k),
        ),
    decreases msgs.len(),
{
    reveal(Seq::filter);
    let pred = |k: Seq<char>| !answered(msgs, k);
    if msgs.len() == 0 {
        assert(pending_ids(msgs) =~= emitted_ids(msgs).filter(pred));
    } else {
        let h = msgs.drop_last();
        let last = msgs.last();
        let em_last = msg_tool_call_ids(last);
        let predh = |k: Seq<char>| !answered(h, k);
        // The prefix is coherent too.
        assert(emitted_ids(msgs) == emitted_ids(h) + em_last);
        assert forall|j: int| 0 <= j < emitted_ids(h).len() implies emitted_ids(h)[j]
            == emitted_ids(msgs)[j] by {}
        assert(emitted_ids(h).no_duplicates());
        assert forall|i: int|
            0 <= i < h.len() && (#[trigger] h[i].tool_call_id) is Some implies emitted_ids(
            h.take(i),
        ).contains(h[i].tool_call_id->Some_0) by {
            assert(h[i] == msgs[i]);
            assert(h.take(i) =~= msgs.take(i));
        }
        lemma_pending_is_unanswered(h);
        // An id emitted by the last message is not answered within the prefix:
        // it is emitted nowhere earlier, and every answer in the prefix
        // answers an earlier emission.
        assert forall|j: int| 0 <= j < em_last.len() implies !answered(
            h,
            #[trigger] em_last[j],
        ) by {
            let k = em_last[j];
            assert(emitted_ids(msgs)[emitted_ids(h).len() + j] == k);
            if answered(h, k) {
                let i = choose|i: int| 0 <= i < h.len() && #[trigger] h[i].tool_call_id == Some(k);
                assert(msgs[i].tool_call_id == Some(k));
                assert(msgs.take(i) =~= h.take(i));
                assert(emitted_ids(msgs.take(i)).contains(k));
                lemma_emitted_monotone(h, i, k);
                let jj = choose|jj: int|
                    0 <= jj < emitted_ids(h).len() && emitted_ids(h)[jj] == k;
                assert(emitted_ids(msgs)[jj] == k);
                assert(jj != emitted_ids(h).len() + j);
            }
        }
        // Answers in the prefix and answers in the whole agree on ids the
        // last message does not answer.
        match last.tool_call_id {
            None => {
                assert(pending_ids(msgs) == pending_ids(h) + em_last);
                assert forall|k: Seq<char>| #[trigger] answered(msgs, k) == answered(h, k) by {
                    if answered(msgs, k) {
                        let i = choose|i: int|
                            0 <= i < msgs.len() && #[trigger] msgs[i].tool_call_id == Some(k);
                        assert(i < h.len() && h[i] == msgs[i]);
                    }
                    if answered(h, k) {
                        let i = choose|i: int|
                            0 <= i < h.len() && #[trigger] h[i].tool_call_id == Some(k);
                        assert(msgs[i].tool_call_id == Some(k));
                    }
                }
                lemma_filter_agree(emitted_ids(h), predh, pred);
                lemma_filter_agree(em_last, |k: Seq<char>| true, pred);
                assert(em_last.filter(|k: Seq<char>| true) =~= em_last) by {
                    lemma_filter_true(em_last);
                }
                Seq::filter_distributes_over_add(emitted_ids(h), em_last, pred);
            },
            Some(a) => {
                assert(pending_ids(msgs) == remove_id(pending_ids(h) + em_last, a));
                lemma_remove_id_is_filter(pending_ids(h) + em_last, a);
                let ne = |k: Seq<char>| k != a;
                Seq::filter_distributes_over_add(pending_ids(h), em_last, ne);
                // On the prefix side: filter by unanswered-in-prefix, then by
                // inequality with the newly answered id.
                lemma_filter_filter(
                    emitted_ids(h),
                    predh,
                    ne,
                    |k: Seq<char>| !answered(h, k) && k != a,
                );
                assert forall|j: int| 0 <= j < emitted_ids(h).len() implies (!answered(
                    h,
                    #[trigger] emitted_ids(h)[j],
                ) && emitted_ids(h)[j] != a) == pred(emitted_ids(h)[j]) by {
                    let k = emitted_ids(h)[j];
                    if answered(h, k) {
                        let i = choose|i: int|
                            0 <= i < h.len() && #[trigger] h[i].tool_call_id == Some(k);
                        assert(msgs[i].tool_call_id == Some(k));
                        assert(answered(msgs, k));
                    }
                    if !answered(h, k) && k != a {
                        if answered(msgs, k) {
                            let i = choose|i: int|
                                0 <= i < msgs.len() && #[trigger] msgs[i].tool_call_id == Some(
                                k,
                            );
                            if i < h.len() {
                                assert(h[i] == msgs[i]);
                                assert(answered(h, k));
                            } else {
                                assert(msgs[i] == last);
                            }
                        }
                    }
                    if !pred(k) {
                        let i = choose|i: int|
                            0 <= i < msgs.len() && #[trigger] msgs[i].tool_call_id == Some(k);
                        if i < h.len() {
                            assert(h[i] == msgs[i]);
                        } else {
                            assert(msgs[i] == last);
                        }
                    }
                }
                lemma_filter_agree(
                    emitted_ids(h),
                    |k: Seq<char>| !answered(h, k) && k != a,
                    pred,
                );
                // On the last message's side: its ids are unanswered in the
                // prefix, so only the inequality with `a` decides.
                assert forall|j: int| 0 <= j < em_last.len() implies ne(#[trigger] em_last[j])
                    == pred(em_last[j]) by {
                    let k = em_last[j];
                    if k != a {
                        if answered(msgs, k) {
                            let i = choose|i: int|
                                0 <= i < msgs.len() && #[trigger] msgs[i].tool_call_id == Some(
                                k,
                            );
                            if i < h.len() {
                                assert(h[i] == msgs[i]);
                                assert(answered(h, k));
                            } else {
                                assert(msgs[i] == last);
                            }
                        }
                    } else {
                        assert(msgs[msgs.len() - 1].tool_call_id == Some(a));
                        assert(answered(msgs, k));
                    }
                }
                lemma_filter_agree(em_last, ne, pred);
                Seq::filter_distributes_over_add(emitted_ids(h), em_last, pred);
            },
        }
    }
}

/// Filtering by the constant-true predicate keeps the whole sequence.
proof fn lemma_filter_true(s: Seq<Seq<char>>)
    ensures
        s.filter(|k: Seq<char>| true) == s,
    decreases s.len(),
{
    reveal(Seq::filter);
    if s.len() > 0 {
        lemma_filter_true(s.drop_last());
        assert(s.drop_last().filter(|k: Seq<char>| true).push(s.last()) =~= s);
    }
}

/// A log without tool calls has nothing pending.
pub proof fn lemma_no_tool_calls_no_pending(msgs: Seq<MessageV>)
    requires
        forall|i: int| 0 <= i < msgs.len() ==> (#[trigger] msgs[i].tool_calls) is None,
    ensures
        pending_ids(msgs).len() == 0,
    decreases msgs.len(),
{
    if msgs.len() > 0 {
        assert(forall|i: int|
            0 <= i < msgs.len() - 1 ==> #[trigger] msgs.drop_last()[i] == msgs[i]);
        lemma_no_tool_calls_no_pending(msgs.drop_last());
        assert(msgs.last() == msgs[msgs.len() - 1]);
        let p = pending_ids(msgs.drop_last());
        assert(p + msg_tool_call_ids(msgs.last()) =~= p);
        assert(p =~= Seq::<Seq<char>>::empty());
    }
}

/// The ordered, append-only message log of one session, with a flag saying
/// whether it changed since it was loaded.
pub struct Chat {
    pub messages: Vec<Message>,
    pub dirty: bool,
}

/// The images of a string vector.
pub open spec fn ids_view(s: Seq<String>) -> Seq<Seq<char>> {
    s.map_values(|x: String| x@)
}

/// Taking images commutes with appending one element.
proof fn lemma_ids_view_push(s: Seq<String>, x: String)
    ensures
        ids_view(s.push(x)) == ids_view(s).push(x@),
{
    assert forall|k: int| 0 <= k < s.len() + 1 implies #[trigger] ids_view(s.push(x))[k]
        == ids_view(s).push(x@)[k] by {
        if k < s.len() {
            assert(s.push(x)[k] == s[k]);
        } else {
            assert(s.push(x)[k] == x);
        }
    }
    assert(ids_view(s.push(x)) =~= ids_view(s).push(x@));
}

/// Appends the ids of the given tool calls to the id queue.
fn enqueue_ids(ids: &mut Vec<String>, tcs: &Vec<ToolCall>)
    ensures
        ids_view(final(ids)@) == ids_view(old(ids)@) + tcs@.map_values(|t: ToolCall| t@.id),
{
    let ghost before = ids_view(old(ids)@);
    let ghost emitted = tcs@.map_values(|t: ToolCall| t@.id);
    proof {
        assert(before + emitted.take(0) =~= before);
    }
    let m = tcs.len();
    let mut j: usize = 0;
    while j < m
        invariant
            j <= m,
            m == tcs@.len(),
            emitted == tcs@.map_values(|t: ToolCall| t@.id),
            emitted.len() == m,
            before == ids_view(old(ids)@),
            ids_view(ids@) == before + emitted.take(j as int),
        decreases m - j,
    {
        let ghost prev = ids@;
        let c = tcs[j].id.clone();
        let ghost cv = c;
        ids.push(c);
        proof {
            lemma_ids_view_push(prev, cv);
            assert(emitted[j as int] == tcs@[j as int]@.id);
            assert(cv@ == emitted[j as int]);
            assert((before + emitted.take(j as int)).push(emitted[j as int]) =~= before
                + emitted.take(j + 1));
        }
        j = j + 1;
    }
    proof {
        assert(emitted.take(m as int) =~= emitted);
    }
}

/// The id queue with every occurrence of the answered id struck out.
fn remove_answered(ids: &Vec<String>, id: &str) -> (r: Vec<String>)
    ensures
        ids_view(r@) == remove_id(ids_view(ids@), id@),
{
    let ghost q = ids_view(ids@);
    let mut kept: Vec<String> = Vec::new();
    let m = ids.len();
    let mut j: usize = 0;
    proof {
        assert(q.take(0) =~= Seq::<Seq<char>>::empty());
        assert(ids_view(kept@) =~= remove_id(q.take(0), id@));
    }
    while j < m
        invariant
            j <= m,
            m == ids@.len(),
            q == ids_view(ids@),
            q.len() == m,
            ids_view(kept@) == remove_id(q.take(j as int), id@),
        decreases m - j,
    {
        proof {
            assert(q.take(j + 1).drop_last() =~= q.take(j as int));
            assert(q.take(j + 1).last() == ids@[j as int]@);
        }
        if !str_equal(ids[j].as_str(), id) {
            let ghost prev = kept@;
            let c = ids[j].clone();
            let ghost cv = c;
            kept.push(c);
            proof {
                lemma_ids_view_push(prev, cv);
                assert(cv@ == q[j as int]);
                assert(ids_view(kept@) == remove_id(q.take(j + 1), id@));
            }
        }
        j = j + 1;
    }
    proof {
        assert(q.take(m as int) =~= q);
    }
    kept
}

/// The first tool call among `tcs` whose id is the one given.
fn find_in_calls<'a>(tcs: &'a Vec<ToolCall>, id: &str) -> (r: Option<&'a ToolCall>)
    ensures
        match find_tool_call_in(tcs@.map_values(|t: ToolCall| t@), id@) {
            Some(t) => r matches Some(tc) && tc@ == t,
            None => r is None,
        },
{
    let ghost source = tcs@.map_values(|t: ToolCall| t@);
    proof {
        assert(source.skip(0) =~= source);
    }
    let m = tcs.len();
    let mut j: usize = 0;
    while j < m
        invariant
            j <= m,
            m == tcs@.len(),
            source == tcs@.map_values(|t: ToolCall| t@),
            source.len() == m,
            find_tool_call_in(source, id@) == find_tool_call_in(source.skip(j as int), id@),
        decreases m - j,
    {
        proof {
            assert(source.skip(j as int)[0] == source[j as int]);
            assert(source.skip(j as int).drop_first() =~= source.skip(j + 1));
            assert(source[j as int] == tcs@[j as int]@);
        }
        if str_equal(tcs[j].id.as_str(), id) {
            return Some(&tcs[j]);
        }
        j = j + 1;
    }
    proof {
        assert(source.skip(m as int) =~= Seq::<ToolCallV>::empty());
    }
    None
}

impl Chat {
    /// An empty conversation, counted as modified so that it is persisted.
    pub fn new() -> (r: Self)
        ensures
            r.messages@.len() == 0,
            r.dirty == true,
    {
        Chat { messages: Vec::new(), dirty: true }
    }

    /// Appends a message as it stands — one that observes the data model.
    /// Does not touch the modified flag.
    pub fn add_message(&mut self, message: Message)
        requires
            msg_wf(message@),
        ensures
            final(self).messages@ == old(self).messages@.push(message),
            final(self).dirty == old(self).dirty,
    {
        self.messages.push(message);
    }

    /// Appends an ordinary message, refusing one whose role repeats the
    /// role of the message before it.
    pub fn add_normal_message(&mut self, role: &str, content: MessageContent) -> (r: Result<
        (),
        ChatError,
    >)
        ensures
            r is Ok <==> !(old(self).messages@.len() > 0 && old(self).messages@.last()@.role
                == role@),
            r is Ok ==> msg_views(final(self).messages@) == msg_views(old(self).messages@).push(
                MessageV {
                    role: role@,
                    content: Some(content@),
                    name: None,
                    tool_call_id: None,
                    tool_calls: None,
                },
            ) && final(self).dirty == true,
            r matches Err(e) ==> *final(self) == *old(self) && e.kind
                == ChatErrorKind::RoleAlternationViolation,
    {
        if self.messages.len() > 0 {
            let last = &self.messages[self.messages.len() - 1];
            if str_equal(last.role.as_str(), role) {
                return Err(
                    ChatError::new(
                        ChatErrorKind::RoleAlternationViolation,
                        "A message may not repeat the role of the message before it",
                    ),
                );
            }
        }
        let message = Message {
            role: role.to_owned(),
            content: Some(content),
            name: None,
            tool_call_id: None,
            tool_calls: None,
        };
        self.messages.push(message);
        self.dirty = true;
        proof {
            assert(msg_views(self.messages@) =~= msg_views(old(self).messages@).push(
                self.messages@.last()@,
            ));
        }
        Ok(())
    }

    /// Appends a tool-response message; tool responses may follow any role.
    /// Without an explicit pairing id, the oldest pending tool call is
    /// answered; when none is pending, that is an error.
    pub fn add_tool_message(
        &mut self,
        role: &str,
        name: &str,
        tool_call_id: Option<&str>,
        content: MessageContent,
    ) -> (r: Result<(), ChatError>)
        requires
            role@ == "tool"@,
        ensures
            r is Ok <==> (tool_call_id is Some || pending_ids(msg_views(old(self).messages@)).len()
                > 0),
            r is Ok ==> msg_views(final(self).messages@) == msg_views(old(self).messages@).push(
                MessageV {
                    role: role@,
                    content: Some(content@),
                    name: Some(name@),
                    tool_call_id: Some(
                        match tool_call_id {
                            Some(s) => s@,
                            None => pending_ids(msg_views(old(self).messages@))[0],
                        },
                    ),
                    tool_calls: None,
                },
            ) && final(self).dirty == true,
            r matches Err(e) ==> *final(self) == *old(self) && e.kind
                == ChatErrorKind::LastToolCallIdNotFound,
    {
        let id: String = match tool_call_id {
            Some(s) => s.to_owned(),
            None => {
                match self.get_last_tool_call_id() {
                    Ok(id) => id,
                    Err(e) => {
                        return Err(e);
                    },
                }
            },
        };
        let message = Message {
            role: role.to_owned(),
            name: Some(name.to_owned()),
            tool_call_id: Some(id),
            content: Some(content),
            tool_calls: None,
        };
        self.messages.push(message);
        self.dirty = true;
        proof {
            assert(msg_views(self.messages@) =~= msg_views(old(self).messages@).push(
                self.messages@.last()@,
            ));
        }
        Ok(())
    }

    /// The oldest pending tool-call id: walks the log in order, collecting
    /// emitted ids and striking out answered ones, and returns the first
    /// still outstanding.
    pub fn get_last_tool_call_id(&self) -> (r: Result<String, ChatError>)
        ensures
            pending_ids(msg_views(self.messages@)).len() > 0 ==> (r matches Ok(id) && id@
                == pending_ids(msg_views(self.messages@))[0]),
            pending_ids(msg_views(self.messages@)).len() == 0 ==> (r matches Err(e) && e.kind
                == ChatErrorKind::LastToolCallIdNotFound),
    {
        let ghost views = msg_views(self.messages@);
        let mut ids: Vec<String> = Vec::new();
        let n = self.messages.len();
        let mut i: usize = 0;
        while i < n
            invariant
                i <= n,
                n == self.messages@.len(),
                views == msg_views(self.messages@),
                views.len() == n,
                ids_view(ids@) == pending_ids(views.take(i as int)),
            decreases n - i,
        {
            assert(views[i as int] == self.messages@[i as int]@);
            let ghost before = ids_view(ids@);
            if let Some(tcs) = &self.messages[i].tool_calls {
                enqueue_ids(&mut ids, tcs);
                proof {
                    assert(msg_tool_call_ids(views[i as int]) =~= tcs@.map_values(
                        |t: ToolCall| t@.id,
                    ));
                }
            } else {
                proof {
                    assert(before + msg_tool_call_ids(views[i as int]) =~= before);
                }
            }
            assert(ids_view(ids@) == before + msg_tool_call_ids(views[i as int]));
            if let Some(id) = &self.messages[i].tool_call_id {
                let kept = remove_answered(&ids, id.as_str());
                ids = kept;
                assert(views[i as int].tool_call_id == Some(id@));
            }
            assert(ids_view(ids@) == apply_pending(before, views[i as int]));
            proof {
                assert(views.take(i + 1).drop_last() =~= views.take(i as int));
                assert(views.take(i + 1).last() == views[i as int]);
            }
            i = i + 1;
        }
        proof {
            assert(views.take(n as int) =~= views);
        }
        if ids.len() > 0 {
            let first = ids[0].clone();
            Ok(first)
        } else {
            Err(ChatError::new(ChatErrorKind::LastToolCallIdNotFound, "No Last Tool Call ID Found"))
        }
    }

    /// The oldest pending tool-call id, or none when no tool call is open.
    pub fn get_last_pending_tool_call_id(&self) -> (r: Option<String>)
        ensures
            pending_ids(msg_views(self.messages@)).len() > 0 ==> (r matches Some(id) && id@
                == pending_ids(msg_views(self.messages@))[0]),
            pending_ids(msg_views(self.messages@)).len() == 0 ==> r is None,
    {
        match self.get_last_tool_call_id() {
            Ok(id) => Some(id),
            Err(_) => None,
        }
    }

    /// The tool call with the given id, scanning assistant messages in
    /// order; an unknown id is an error.
    pub fn get_tool_call(&self, id: &str) -> (r: Result<&ToolCall, ChatError>)
        ensures
            match spec_find_tool_call(msg_views(self.messages@), id@) {
                Some(t) => r matches Ok(tc) && tc@ == t,
                None => r matches Err(e) && e.kind == ChatErrorKind::ToolCallIdNotFound,
            },
    {
        let ghost views = msg_views(self.messages@);
        proof {
            assert(views.skip(0) =~= views);
        }
        let n = self.messages.len();
        let mut i: usize = 0;
        while i < n
            invariant
                i <= n,
                n == self.messages@.len(),
                views == msg_views(self.messages@),
                views.len() == n,
                spec_find_tool_call(views, id@) == spec_find_tool_call(
                    views.skip(i as int),
                    id@,
                ),
            decreases n - i,
        {
            assert(views[i as int] == self.messages@[i as int]@);
            assert(views.skip(i as int)[0] == views[i as int]);
            if let Some(tcs) = &self.messages[i].tool_calls {
                proof {
                    assert(msg_tool_call_ids_source(views[i as int]) =~= tcs@.map_values(
                        |t: ToolCall| t@,
                    ));
                }
                if let Some(tc) = find_in_calls(tcs, id) {
                    return Ok(tc);
                }
            } else {
                proof {
                    assert(msg_tool_call_ids_source(views[i as int]).len() == 0);
                }
            }
            proof {
                assert(views.skip(i as int).drop_first() =~= views.skip(i + 1));
            }
            i = i + 1;
        }
        proof {
            assert(views.skip(n as int) =~= Seq::<MessageV>::empty());
        }
        Err(ChatError::new(ChatErrorKind::ToolCallIdNotFound, "Tool call id not found"))
    }

    /// Whether a turn may be submitted: an empty conversation has nothing to
    /// send, and a log already ending in an assistant message has nothing
    /// new to respond to.
    pub fn check_ready_to_submit(&self) -> (r: Result<(), ChatError>)
        ensures
            self.messages@.len() == 0 ==> (r matches Err(e) && e.kind
                == ChatErrorKind::ChatContainsNoMessages),
            self.messages@.len() > 0 && self.messages@.last()@.role == "assistant"@ ==> (
            r matches Err(e) && e.kind == ChatErrorKind::LastMessageAlreadyAssistant),
            self.messages@.len() > 0 && self.messages@.last()@.role != "assistant"@ ==> r is Ok,
    {
        if self.messages.len() == 0 {
            return Err(ChatError::new(ChatErrorKind::ChatContainsNoMessages, "No Messages"));
        }
        let last = &self.messages[self.messages.len() - 1];
        if str_equal(last.role.as_str(), "assistant") {
            return Err(
                ChatError::new(
                    ChatErrorKind::LastMessageAlreadyAssistant,
                    "The last message is already from the assistant",
                ),
            );
        }
        Ok(())
    }
}


/// The wire form of one content part.
pub open spec fn part_json(p: ContentPartV) -> Seq<char> {
    match p {
        ContentPartV::Text(t) => "{\"type\":\"text\",\"text\":"@ + json_quoted(t) + "}"@,
        ContentPartV::ImageUrl(u) => "{\"type\":\"image_url\",\"image_url\":{\"url\":"@
            + json_quoted(u) + "}}"@,
    }
}

/// The wire form of a list of content parts, comma-separated.
pub open spec fn parts_json(ps: Seq<ContentPartV>) -> Seq<char>
    decreases ps.len(),
{
    if ps.len() == 0 {
        Seq::empty()
    } else if ps.len() == 1 {
        part_json(ps[0])
    } else {
        parts_json(ps.drop_last()) + seq![','] + part_json(ps.last())
    }
}

/// The wire form of message content: a string, or an array of parts.
pub open spec fn content_json(c: MessageContentV) -> Seq<char> {
    match c {
        MessageContentV::Simple(t) => json_quoted(t),
        MessageContentV::Multi(ps) => seq!['['] + parts_json(ps) + seq![']'],
    }
}

/// The wire form of one tool call.
pub open spec fn tool_call_json(t: ToolCallV) -> Seq<char> {
    "{\"id\":"@ + json_quoted(t.id) + ",\"type\":"@ + json_quoted(t.tool_type)
        + ",\"function\":{\"name\":"@ + json_quoted(t.function.name) + ",\"arguments\":"@
        + json_quoted(t.function.arguments) + "}}"@
}

/// The wire form of a list of tool calls, comma-separated.
pub open spec fn tool_calls_json(ts: Seq<ToolCallV>) -> Seq<char>
    decreases ts.len(),
{
    if ts.len() == 0 {
        Seq::empty()
    } else if ts.len() == 1 {
        tool_call_json(ts[0])
    } else {
        tool_calls_json(ts.drop_last()) + seq![','] + tool_call_json(ts.last())
    }
}

/// The wire form of one message: role and content always, the tool fields
/// only when present — as the remote endpoint expects it.
pub open spec fn message_json(m: MessageV) -> Seq<char> {
    "{\"role\":"@ + json_quoted(m.role) + ",\"content\":"@ + (match m.content {
        Some(c) => content_json(c),
        None => "null"@,
    }) + (match m.name {
        Some(n) => ",\"name\":"@ + json_quoted(n),
        None => Seq::empty(),
    }) + (match m.tool_call_id {
        Some(t) => ",\"tool_call_id\":"@ + json_quoted(t),
        None => Seq::empty(),
    }) + (match m.tool_calls {
        Some(ts) => ",\"tool_calls\":["@ + tool_calls_json(ts) + "]"@,
        None => Seq::empty(),
    }) + "}"@
}

/// The messages of a log in wire form, comma-separated.
pub open spec fn messages_inner_json(ms: Seq<MessageV>) -> Seq<char>
    decreases ms.len(),
{
    if ms.len() == 0 {
        Seq::empty()
    } else if ms.len() == 1 {
        message_json(ms[0])
    } else {
        messages_inner_json(ms.drop_last()) + seq![','] + message_json(ms.last())
    }
}

/// The wire form of a message log: a JSON array of messages.
pub open spec fn messages_json(ms: Seq<MessageV>) -> Seq<char> {
    seq!['['] + messages_inner_json(ms) + seq![']']
}

/// Appends the wire form of one content part.
fn push_part(out: &mut Vec<char>, p: &ContentPart)
    ensures
        final(out)@ == old(out)@ + part_json(p@),
{
    match p {
        ContentPart::Text { text } => {
            push_str_chars(out, "{\"type\":\"text\",\"text\":");
            push_json_string(out, text.as_str());
            push_str_chars(out, "}");
        },
        ContentPart::ImageUrl { image_url } => {
            push_str_chars(out, "{\"type\":\"image_url\",\"image_url\":{\"url\":");
            push_json_string(out, image_url.url.as_str());
            push_str_chars(out, "}}");
        },
    }
    assert(out@ =~= old(out)@ + part_json(p@));
}

/// Appends the wire form of a list of content parts.
fn push_parts(out: &mut Vec<char>, ps: &Vec<ContentPart>)
    ensures
        final(out)@ == old(out)@ + parts_json(ps@.map_values(|p: ContentPart| p@)),
{
    let ghost vs = ps@.map_values(|p: ContentPart| p@);
    let n = ps.len();
    let mut i: usize = 0;
    while i < n
        invariant
            i <= n,
            n == ps@.len(),
            vs == ps@.map_values(|p: ContentPart| p@),
            vs.len() == n,
            out@ == old(out)@ + parts_json(vs.take(i as int)),
        decreases n - i,
    {
        if i > 0 {
            out.push(',');
        }
        assert(vs[i as int] == ps@[i as int]@);
        push_part(out, &ps[i]);
        proof {
            assert(vs.take(i + 1).drop_last() =~= vs.take(i as int));
            assert(vs.take(i + 1).last() == vs[i as int]);
            if i == 0 {
                assert(out@ =~= old(out)@ + parts_json(vs.take(1)));
            } else {
                assert(out@ =~= old(out)@ + parts_json(vs.take(i + 1)));
            }
        }
        i = i + 1;
    }
    assert(vs.take(n as int) =~= vs);
}

/// Appends the wire form of one tool call.
fn push_tool_call(out: &mut Vec<char>, t: &ToolCall)
    ensures
        final(out)@ == old(out)@ + tool_call_json(t@),
{
    push_str_chars(out, "{\"id\":");
    push_json_string(out, t.id.as_str());
    push_str_chars(out, ",\"type\":");
    push_json_string(out, t.tool_type.as_str());
    push_str_chars(out, ",\"function\":{\"name\":");
    push_json_string(out, t.function.name.as_str());
    push_str_chars(out, ",\"arguments\":");
    push_json_string(out, t.function.arguments.as_str());
    push_str_chars(out, "}}");
    assert(out@ =~= old(out)@ + tool_call_json(t@));
}

/// Appends the wire form of a list of tool calls.
fn push_tool_calls(out: &mut Vec<char>, ts: &Vec<ToolCall>)
    ensures
        final(out)@ == old(out)@ + tool_calls_json(ts@.map_values(|t: ToolCall| t@)),
{
    let ghost vs = ts@.map_values(|t: ToolCall| t@);
    let n = ts.len();
    let mut i: usize = 0;
    while i < n
        invariant
            i <= n,
            n == ts@.len(),
            vs == ts@.map_values(|t: ToolCall| t@),
            vs.len() == n,
            out@ == old(out)@ + tool_calls_json(vs.take(i as int)),
        decreases n - i,
    {
        if i > 0 {
            out.push(',');
        }
        assert(vs[i as int] == ts@[i as int]@);
        push_tool_call(out, &ts[i]);
        proof {
            assert(vs.take(i + 1).drop_last() =~= vs.take(i as int));
            assert(vs.take(i + 1).last() == vs[i as int]);
            if i == 0 {
                assert(out@ =~= old(out)@ + tool_calls_json(vs.take(1)));
            } else {
                assert(out@ =~= old(out)@ + tool_calls_json(vs.take(i + 1)));
            }
        }
        i = i + 1;
    }
    assert(vs.take(n as int) =~= vs);
}

/// Appends the wire form of the content field's value.
fn push_content_value(out: &mut Vec<char>, content: &Option<MessageContent>)
    ensures
        final(out)@ == old(out)@ + (match *content {
            Some(c) => content_json(c@),
            None => "null"@,
        }),
{
    match content {
        Some(MessageContent::Simple(t)) => {
            push_json_string(out, t.as_str());
        },
        Some(MessageContent::Multi(ps)) => {
            out.push('[');
            push_parts(out, ps);
            out.push(']');
            assert(out@ =~= old(out)@ + content_json(MessageContentV::Multi(
                ps@.map_values(|p: ContentPart| p@),
            )));
        },
        None => {
            push_str_chars(out, "null");
        },
    }
}

/// Appends the name field when it is present.
fn push_name_field(out: &mut Vec<char>, name: &Option<String>)
    ensures
        final(out)@ == old(out)@ + (match *name {
            Some(n) => ",\"name\":"@ + json_quoted(n@),
            None => Seq::empty(),
        }),
{
    if let Some(n) = name {
        push_str_chars(out, ",\"name\":");
        push_json_string(out, n.as_str());
        assert(out@ =~= old(out)@ + (",\"name\":"@ + json_quoted(n@)));
    } else {
        assert(out@ =~= old(out)@ + Seq::<char>::empty());
    }
}

/// Appends the pairing-id field when it is present.
fn push_tool_call_id_field(out: &mut Vec<char>, tool_call_id: &Option<String>)
    ensures
        final(out)@ == old(out)@ + (match *tool_call_id {
            Some(t) => ",\"tool_call_id\":"@ + json_quoted(t@),
            None => Seq::empty(),
        }),
{
    if let Some(t) = tool_call_id {
        push_str_chars(out, ",\"tool_call_id\":");
        push_json_string(out, t.as_str());
        assert(out@ =~= old(out)@ + (",\"tool_call_id\":"@ + json_quoted(t@)));
    } else {
        assert(out@ =~= old(out)@ + Seq::<char>::empty());
    }
}

/// Appends the tool-calls field when it is present.
fn push_tool_calls_field(out: &mut Vec<char>, tool_calls: &Option<Vec<ToolCall>>)
    ensures
        final(out)@ == old(out)@ + (match *tool_calls {
            Some(ts) => ",\"tool_calls\":["@ + tool_calls_json(ts@.map_values(|t: ToolCall| t@))
                + "]"@,
            None => Seq::empty(),
        }),
{
    if let Some(ts) = tool_calls {
        push_str_chars(out, ",\"tool_calls\":[");
        push_tool_calls(out, ts);
        push_str_chars(out, "]");
        assert(out@ =~= old(out)@ + (",\"tool_calls\":["@ + tool_calls_json(
            ts@.map_values(|t: ToolCall| t@),
        ) + "]"@));
    } else {
        assert(out@ =~= old(out)@ + Seq::<char>::empty());
    }
}

/// Appends the wire form of one message.
fn push_message(out: &mut Vec<char>, m: &Message)
    ensures
        final(out)@ == old(out)@ + message_json(m@),
{
    let ghost t1 = "{\"role\":"@ + json_quoted(m@.role) + ",\"content\":"@ + (match m@.content {
        Some(c) => content_json(c),
        None => "null"@,
    });
    let ghost t2 = match m@.name {
        Some(n) => ",\"name\":"@ + json_quoted(n),
        None => Seq::<char>::empty(),
    };
    let ghost t3 = match m@.tool_call_id {
        Some(t) => ",\"tool_call_id\":"@ + json_quoted(t),
        None => Seq::<char>::empty(),
    };
    let ghost t4 = match m@.tool_calls {
        Some(ts) => ",\"tool_calls\":["@ + tool_calls_json(ts) + "]"@,
        None => Seq::<char>::empty(),
    };
    push_str_chars(out, "{\"role\":");
    push_json_string(out, m.role.as_str());
    push_str_chars(out, ",\"content\":");
    push_content_value(out, &m.content);
    proof {
        assert(out@ =~= old(out)@ + t1);
    }
    let ghost acc1 = out@;
    push_name_field(out, &m.name);
    assert(out@ == acc1 + t2);
    let ghost acc2 = out@;
    push_tool_call_id_field(out, &m.tool_call_id);
    assert(out@ == acc2 + t3);
    let ghost acc3 = out@;
    push_tool_calls_field(out, &m.tool_calls);
    assert(out@ == acc3 + t4);
    push_str_chars(out, "}");
    proof {
        let base = old(out)@;
        assert(message_json(m@) == t1 + t2 + t3 + t4 + "}"@);
        vstd::seq_lib::lemma_concat_associative(base, t1, t2);
        vstd::seq_lib::lemma_concat_associative(base, t1 + t2, t3);
        vstd::seq_lib::lemma_concat_associative(base, t1 + t2 + t3, t4);
        vstd::seq_lib::lemma_concat_associative(base, t1 + t2 + t3 + t4, "}"@);
        assert(out@ == base + message_json(m@));
    }
}

/// The wire form of one message, as sent to and received from the endpoint.
pub fn message_to_json(m: &Message) -> (r: String)
    ensures
        r@ == message_json(m@),
{
    let mut out: Vec<char> = Vec::new();
    push_message(&mut out, m);
    chars_to_string(&out)
}

/// The wire form of a message log: the JSON array the endpoint receives.
pub fn messages_to_json(ms: &Vec<Message>) -> (r: String)
    ensures
        r@ == messages_json(msg_views(ms@)),
{
    let ghost vs = msg_views(ms@);
    let mut out: Vec<char> = Vec::new();
    out.push('[');
    let n = ms.len();
    let mut i: usize = 0;
    proof {
        assert(out@ =~= seq!['['] + messages_inner_json(vs.take(0)));
    }
    while i < n
        invariant
            i <= n,
            n == ms@.len(),
            vs == msg_views(ms@),
            vs.len() == n,
            out@ == seq!['['] + messages_inner_json(vs.take(i as int)),
        decreases n - i,
    {
        if i > 0 {
            out.push(',');
        }
        assert(vs[i as int] == ms@[i as int]@);
        push_message(&mut out, &ms[i]);
        proof {
            assert(vs.take(i + 1).drop_last() =~= vs.take(i as int));
            assert(vs.take(i + 1).last() == vs[i as int]);
            if i == 0 {
                assert(out@ =~= seq!['['] + messages_inner_json(vs.take(1)));
            } else {
                assert(out@ =~= seq!['['] + messages_inner_json(vs.take(i + 1)));
            }
        }
        i = i + 1;
    }
    out.push(']');
    proof {
        assert(vs.take(n as int) =~= vs);
        assert(out@ =~= messages_json(vs));
    }
    chars_to_string(&out)
}


/// What a string-or-null field of the response message holds: absent and
/// null mean nothing, a string is taken, anything else refuses the message.
pub open spec fn spec_string_or_null(doc: Seq<char>, ptr: Seq<char>) -> Result<
    Option<Seq<char>>,
    (),
> {
    match spec_json_kind_at(doc, ptr) {
        None => Ok(None),
        Some(JsonKind::Null) => Ok(None),
        Some(JsonKind::String) => match spec_json_str_at(doc, ptr) {
            Some(t) => Ok(Some(t)),
            None => Err(()),
        },
        Some(_) => Err(()),
    }
}

/// The pointer path to a field of the i-th tool call of the response message.
pub open spec fn spec_tool_call_ptr(i: nat, field: Seq<char>) -> Seq<char> {
    "/choices/0/message/tool_calls/"@ + dec_of(i) + field
}

/// The i-th tool call of the response message, when its four strings are all
/// present.
pub open spec fn spec_parse_tool_call(doc: Seq<char>, i: nat) -> Option<ToolCallV> {
    match spec_json_str_at(doc, spec_tool_call_ptr(i, "/id"@)) {
        None => None,
        Some(id) => match spec_json_str_at(doc, spec_tool_call_ptr(i, "/type"@)) {
            None => None,
            Some(ty) => match spec_json_str_at(doc, spec_tool_call_ptr(i, "/function/name"@)) {
                None => None,
                Some(name) => match spec_json_str_at(
                    doc,
                    spec_tool_call_ptr(i, "/function/arguments"@),
                ) {
                    None => None,
                    Some(args) => Some(
                        ToolCallV {
                            id,
                            tool_type: ty,
                            function: FunctionCallV { name, arguments: args },
                        },
                    ),
                },
            },
        },
    }
}

/// The first `n` tool calls of the response message, when every one of them
/// parses.
pub open spec fn spec_parse_tool_calls(doc: Seq<char>, n: nat) -> Option<Seq<ToolCallV>>
    decreases n,
{
    if n == 0 {
        Some(Seq::empty())
    } else {
        match spec_parse_tool_calls(doc, (n - 1) as nat) {
            None => None,
            Some(ts) => match spec_parse_tool_call(doc, (n - 1) as nat) {
                None => None,
                Some(t) => Some(ts.push(t)),
            },
        }
    }
}

/// The message of the first choice of a non-streaming response, or the text
/// of the error that refuses the response.
pub open spec fn spec_parse_response(doc: Seq<char>) -> Result<MessageV, Seq<char>> {
    if spec_json_kind_at(doc, ""@) is None {
        Err("Invalid JSON in response"@)
    } else if spec_json_kind_at(doc, "/choices"@) is None {
        Err("No choices in the return object"@)
    } else if spec_json_kind_at(doc, "/choices/0"@) is None {
        Err("No element 0 in the choices object"@)
    } else if spec_json_kind_at(doc, "/choices/0/message"@) is None {
        Err("No message in the choices element 0"@)
    } else {
        match spec_json_str_at(doc, "/choices/0/message/role"@) {
            None => Err("No role in the response message"@),
            Some(role) => match spec_string_or_null(doc, "/choices/0/message/content"@) {
                Err(()) => Err("Invalid content in the response message"@),
                Ok(content) => match spec_string_or_null(doc, "/choices/0/message/name"@) {
                    Err(()) => Err("Invalid name in the response message"@),
                    Ok(name) => match spec_string_or_null(
                        doc,
                        "/choices/0/message/tool_call_id"@,
                    ) {
                        Err(()) => Err("Invalid tool_call_id in the response message"@),
                        Ok(tool_call_id) => match spec_json_kind_at(
                            doc,
                            "/choices/0/message/tool_calls"@,
                        ) {
                            None => Ok(spec_response_message(role, content, name, tool_call_id, None)),
                            Some(JsonKind::Null) => Ok(
                                spec_response_message(role, content, name, tool_call_id, None),
                            ),
                            Some(JsonKind::Array) => match spec_json_len_at(
                                doc,
                                "/choices/0/message/tool_calls"@,
                            ) {
                                None => Err("Invalid tool_calls in the response message"@),
                                Some(n) => match spec_parse_tool_calls(doc, n as nat) {
                                    None => Err("Invalid tool call in the response message"@),
                                    Some(ts) => Ok(
                                        spec_response_message(
                                            role,
                                            content,
                                            name,
                                            tool_call_id,
                                            Some(ts),
                                        ),
                                    ),
                                },
                            },
                            Some(_) => Err("Invalid tool_calls in the response message"@),
                        },
                    },
                },
            },
        }
    }
}

/// A response message assembled from its parsed fields.
pub open spec fn spec_response_message(
    role: Seq<char>,
    content: Option<Seq<char>>,
    name: Option<Seq<char>>,
    tool_call_id: Option<Seq<char>>,
    tool_calls: Option<Seq<ToolCallV>>,
) -> MessageV {
    MessageV {
        role,
        content: match content {
            Some(t) => Some(MessageContentV::Simple(t)),
            None => None,
        },
        name,
        tool_call_id,
        tool_calls,
    }
}

/// Reads a string-or-null field of the response message.
fn read_string_or_null(doc: &str, ptr: &str) -> (r: Result<Option<String>, ()>)
    ensures
        match spec_string_or_null(doc@, ptr@) {
            Ok(v) => r matches Ok(o) && (match o {
                Some(t) => v == Some(t@),
                None => v is None,
            }),
            Err(()) => r is Err,
        },
{
    match json_kind_at(doc, ptr) {
        None => Ok(None),
        Some(JsonKind::Null) => Ok(None),
        Some(JsonKind::String) => match json_str_at(doc, ptr) {
            Some(t) => Ok(Some(t)),
            None => Err(()),
        },
        Some(_) => Err(()),
    }
}

/// Reads the i-th tool call of the response message.
fn read_tool_call(doc: &str, i: usize) -> (r: Option<ToolCall>)
    ensures
        match spec_parse_tool_call(doc@, i as nat) {
            Some(t) => r matches Some(tc) && tc@ == t,
            None => r is None,
        },
{
    let mut base: Vec<char> = Vec::new();
    push_str_chars(&mut base, "/choices/0/message/tool_calls/");
    push_dec_u64(&mut base, i as u64);
    let mut p_id = Vec::new();
    push_all(&mut p_id, &base);
    push_str_chars(&mut p_id, "/id");
    let mut p_ty = Vec::new();
    push_all(&mut p_ty, &base);
    push_str_chars(&mut p_ty, "/type");
    let mut p_name = Vec::new();
    push_all(&mut p_name, &base);
    push_str_chars(&mut p_name, "/function/name");
    let mut p_args = Vec::new();
    push_all(&mut p_args, &base);
    push_str_chars(&mut p_args, "/function/arguments");
    let s_id = chars_to_string(&p_id);
    let s_ty = chars_to_string(&p_ty);
    let s_name = chars_to_string(&p_name);
    let s_args = chars_to_string(&p_args);
    assert(s_id@ == spec_tool_call_ptr(i as nat, "/id"@));
    assert(s_ty@ == spec_tool_call_ptr(i as nat, "/type"@));
    assert(s_name@ == spec_tool_call_ptr(i as nat, "/function/name"@));
    assert(s_args@ == spec_tool_call_ptr(i as nat, "/function/arguments"@));
    let id = match json_str_at(doc, s_id.as_str()) {
        Some(v) => v,
        None => {
            return None;
        },
    };
    let ty = match json_str_at(doc, s_ty.as_str()) {
        Some(v) => v,
        None => {
            return None;
        },
    };
    let name = match json_str_at(doc, s_name.as_str()) {
        Some(v) => v,
        None => {
            return None;
        },
    };
    let args = match json_str_at(doc, s_args.as_str()) {
        Some(v) => v,
        None => {
            return None;
        },
    };
    Some(ToolCall { id, tool_type: ty, function: FunctionCall { name, arguments: args } })
}

/// Reads the first `n` tool calls of the response message.
fn read_tool_calls(doc: &str, n: usize) -> (r: Option<Vec<ToolCall>>)
    ensures
        match spec_parse_tool_calls(doc@, n as nat) {
            Some(ts) => r matches Some(v) && v@.map_values(|t: ToolCall| t@) == ts,
            None => r is None,
        },
{
    let mut ts: Vec<ToolCall> = Vec::new();
    let mut i: usize = 0;
    proof {
        assert(ts@.map_values(|t: ToolCall| t@) =~= Seq::<ToolCallV>::empty());
    }
    while i < n
        invariant
            i <= n,
            spec_parse_tool_calls(doc@, i as nat) == Some(ts@.map_values(|t: ToolCall| t@)),
        decreases n - i,
    {
        let tc = match read_tool_call(doc, i) {
            Some(tc) => tc,
            None => {
                proof {
                    lemma_parse_tool_calls_none(doc@, i as nat, n as nat);
                }
                return None;
            },
        };
        let ghost prev = ts@;
        ts.push(tc);
        proof {
            assert(ts@.map_values(|t: ToolCall| t@) =~= prev.map_values(|t: ToolCall| t@).push(
                tc@,
            ));
        }
        i = i + 1;
    }
    Some(ts)
}

/// Parses a complete, non-streaming response body: the message of its first
/// choice, type-checked into the message shape.
pub fn parse_response(response: &str) -> (r: Result<Message, ChatError>)
    ensures
        match spec_parse_response(response@) {
            Ok(mv) => r matches Ok(m) && m@ == mv,
            Err(msg) => r matches Err(e) && e.kind == ChatErrorKind::ProtocolParseFailure
                && e.message@ == msg,
        },
{
    if json_kind_at(response, "").is_none() {
        return Err(
            ChatError::new(ChatErrorKind::ProtocolParseFailure, "Invalid JSON in response"),
        );
    }
    if json_kind_at(response, "/choices").is_none() {
        return Err(
            ChatError::new(ChatErrorKind::ProtocolParseFailure, "No choices in the return object"),
        );
    }
    if json_kind_at(response, "/choices/0").is_none() {
        return Err(
            ChatError::new(
                ChatErrorKind::ProtocolParseFailure,
                "No element 0 in the choices object",
            ),
        );
    }
    if json_kind_at(response, "/choices/0/message").is_none() {
        return Err(
            ChatError::new(
                ChatErrorKind::ProtocolParseFailure,
                "No message in the choices element 0",
            ),
        );
    }
    let role = match json_str_at(response, "/choices/0/message/role") {
        Some(v) => v,
        None => {
            return Err(
                ChatError::new(
                    ChatErrorKind::ProtocolParseFailure,
                    "No role in the response message",
                ),
            );
        },
    };
    let content = match read_string_or_null(response, "/choices/0/message/content") {
        Ok(v) => v,
        Err(()) => {
            return Err(
                ChatError::new(
                    ChatErrorKind::ProtocolParseFailure,
                    "Invalid content in the response message",
                ),
            );
        },
    };
    let name = match read_string_or_null(response, "/choices/0/message/name") {
        Ok(v) => v,
        Err(()) => {
            return Err(
                ChatError::new(
                    ChatErrorKind::ProtocolParseFailure,
                    "Invalid name in the response message",
                ),
            );
        },
    };
    let tool_call_id = match read_string_or_null(response, "/choices/0/message/tool_call_id") {
        Ok(v) => v,
        Err(()) => {
            return Err(
                ChatError::new(
                    ChatErrorKind::ProtocolParseFailure,
                    "Invalid tool_call_id in the response message",
                ),
            );
        },
    };
    let tool_calls: Option<Vec<ToolCall>> = match json_kind_at(
        response,
        "/choices/0/message/tool_calls",
    ) {
        None => None,
        Some(JsonKind::Null) => None,
        Some(JsonKind::Array) => {
            let n = match json_len_at(response, "/choices/0/message/tool_calls") {
                Some(n) => n,
                None => {
                    return Err(
                        ChatError::new(
                            ChatErrorKind::ProtocolParseFailure,
                            "Invalid tool_calls in the response message",
                        ),
                    );
                },
            };
            match read_tool_calls(response, n) {
                Some(ts) => Some(ts),
                None => {
                    return Err(
                        ChatError::new(
                            ChatErrorKind::ProtocolParseFailure,
                            "Invalid tool call in the response message",
                        ),
                    );
                },
            }
        },
        Some(_) => {
            return Err(
                ChatError::new(
                    ChatErrorKind::ProtocolParseFailure,
                    "Invalid tool_calls in the response message",
                ),
            );
        },
    };
    let m = Message { role, content: match content {
        Some(t) => Some(MessageContent::Simple(t)),
        None => None,
    }, name, tool_call_id, tool_calls };
    Ok(m)
}

/// A failed tool call keeps the whole list from parsing.
proof fn lemma_parse_tool_calls_none(doc: Seq<char>, i: nat, n: nat)
    requires
        i < n,
        spec_parse_tool_call(doc, i) is None,
    ensures
        spec_parse_tool_calls(doc, n) is None,
    decreases n,
{
    if n == i + 1 {
    } else {
        lemma_parse_tool_calls_none(doc, i, (n - 1) as nat);
    }
}


/// The standard base64 alphabet, in value order.
pub open spec fn b64_alphabet() -> Seq<char> {
    "ABCDEFGHIJKLMNOPQRSTUVWXYZabcdefghijklmnopqrstuvwxyz0123456789+/"@
}

/// The alphabet character of a six-bit value.
pub open spec fn b64_char(v: int) -> char {
    b64_alphabet()[v]
}

/// Standard base64 with padding: three bytes become four alphabet
/// characters; a final pair or single byte is padded with `=`.
pub open spec fn spec_base64(bytes: Seq<u8>) -> Seq<char>
    decreases bytes.len(),
{
    if bytes.len() == 0 {
        Seq::empty()
    } else if bytes.len() == 1 {
        let a = bytes[0] as int;
        seq![b64_char(a / 4), b64_char((a % 4) * 16), '=', '=']
    } else if bytes.len() == 2 {
        let a = bytes[0] as int;
        let b = bytes[1] as int;
        seq![b64_char(a / 4), b64_char((a % 4) * 16 + b / 16), b64_char((b % 16) * 4), '=']
    } else {
        let a = bytes[0] as int;
        let b = bytes[1] as int;
        let c = bytes[2] as int;
        seq![
            b64_char(a / 4),
            b64_char((a % 4) * 16 + b / 16),
            b64_char((b % 16) * 4 + c / 64),
            b64_char(c % 64),
        ] + spec_base64(bytes.skip(3))
    }
}

/// Relies on the base64 crate's standard engine: encodes with the standard
/// alphabet, three bytes to four characters, `=`-padded.
#[verifier::external_body]
fn base64_encode(bytes: &Vec<u8>) -> (r: String)
    ensures
        r@ == spec_base64(bytes@),
{
    base64::engine::general_purpose::STANDARD.encode(bytes)
}

/// An image content part carrying the bytes as a base64 data address.
pub fn image_part(png: bool, bytes: &Vec<u8>) -> (r: ContentPart)
    ensures
        r@ == ContentPartV::ImageUrl(
            (if png {
                "data:image/png;base64,"@
            } else {
                "data:image/jpeg;base64,"@
            }) + spec_base64(bytes@),
        ),
{
    let mut url = String::new();
    if png {
        url.append("data:image/png;base64,");
    } else {
        url.append("data:image/jpeg;base64,");
    }
    let encoded = base64_encode(bytes);
    url.append(encoded.as_str());
    ContentPart::ImageUrl { image_url: ImageUrlContent { url } }
}

/// Whether `s` ends with the given suffix.
pub open spec fn spec_ends_with(s: Seq<char>, suffix: Seq<char>) -> bool {
    s.len() >= suffix.len() && s.skip(s.len() - suffix.len()) == suffix
}

fn ends_with(s: &Vec<char>, suffix: &str) -> (r: bool)
    ensures
        r == spec_ends_with(s@, suffix@),
{
    let m = suffix.unicode_len();
    let n = s.len();
    if n < m {
        return false;
    }
    let mut j: usize = 0;
    while j < m
        invariant
            j <= m,
            m == suffix@.len(),
            m <= n,
            n == s@.len(),
            forall|k: int| 0 <= k < j ==> s@[n - m + k] == suffix@[k],
        decreases m - j,
    {
        if s[n - m + j] != suffix.get_char(j) {
            proof {
                assert(s@.skip(n - m as int)[j as int] != suffix@[j as int]);
            }
            return false;
        }
        j = j + 1;
    }
    proof {
        assert(s@.skip(n - m as int) =~= suffix@);
    }
    true
}

/// What a command-line message argument stands for.
pub enum MessageSource {
    ImageFile { filename: String, png: bool },
    TextFile { filename: String },
    Stdin,
    Empty,
    Plain,
}

/// Mathematical image of a `MessageSource`.
pub ghost enum MessageSourceV {
    ImageFile { filename: Seq<char>, png: bool },
    TextFile { filename: Seq<char> },
    Stdin,
    Empty,
    Plain,
}

impl View for MessageSource {
    type V = MessageSourceV;

    open spec fn view(&self) -> MessageSourceV {
        match self {
            MessageSource::ImageFile { filename, png } => MessageSourceV::ImageFile {
                filename: filename@,
                png: *png,
            },
            MessageSource::TextFile { filename } => MessageSourceV::TextFile {
                filename: filename@,
            },
            MessageSource::Stdin => MessageSourceV::Stdin,
            MessageSource::Empty => MessageSourceV::Empty,
            MessageSource::Plain => MessageSourceV::Plain,
        }
    }
}

/// How one message argument is taken: a leading `@` names a file — an image
/// when the name ends in a known image suffix, text otherwise — a lone dash
/// is standard input, an empty argument an empty text, and anything else
/// the text itself.
pub open spec fn spec_classify_message(message: Seq<char>) -> MessageSourceV {
    if message.len() >= 1 && message[0] == '@' {
        let filename = message.skip(1);
        if spec_ends_with(filename, "png"@) {
            MessageSourceV::ImageFile { filename, png: true }
        } else if spec_ends_with(filename, "jpg"@) {
            MessageSourceV::ImageFile { filename, png: false }
        } else {
            MessageSourceV::TextFile { filename }
        }
    } else if message == "-"@ {
        MessageSourceV::Stdin
    } else if message.len() == 0 {
        MessageSourceV::Empty
    } else {
        MessageSourceV::Plain
    }
}

/// Decides how a command-line message argument is taken; reading the file
/// or standard input it may name is the caller's side.
pub fn classify_message(message: &str) -> (r: MessageSource)
    ensures
        r@ == spec_classify_message(message@),
{
    let chars = str_chars(message);
    let n = chars.len();
    if n >= 1 && chars[0] == '@' {
        let fname = crate::strutil::slice_range(&chars, 1, n);
        proof {
            assert(fname@ =~= message@.skip(1));
        }
        if ends_with(&fname, "png") {
            return MessageSource::ImageFile { filename: chars_to_string(&fname), png: true };
        }
        if ends_with(&fname, "jpg") {
            return MessageSource::ImageFile { filename: chars_to_string(&fname), png: false };
        }
        return MessageSource::TextFile { filename: chars_to_string(&fname) };
    }
    if str_equal(message, "-") {
        return MessageSource::Stdin;
    }
    if n == 0 {
        proof {
            assert(message@ =~= Seq::<char>::empty());
            reveal_strlit("-");
            assert(message@ != "-"@);
        }
        return MessageSource::Empty;
    }
    MessageSource::Plain
}

/// One gathered part becomes plain content when it is a lone text; anything
/// else stays a part list — the documented normalization at the wire
/// boundary.
pub fn collapse_parts(parts: Vec<ContentPart>) -> (r: MessageContent)
    ensures
        r@ == (if parts@.len() == 1 && parts@[0] is Text {
            MessageContentV::Simple(parts@[0]->Text_text@)
        } else {
            MessageContentV::Multi(parts@.map_values(|p: ContentPart| p@))
        }),
{
    if parts.len() == 1 {
        let is_text = match &parts[0] {
            ContentPart::Text { .. } => true,
            ContentPart::ImageUrl { .. } => false,
        };
        if is_text {
            let mut parts = parts;
            let only = parts.remove(0);
            match only {
                ContentPart::Text { text } => {
                    return MessageContent::Simple(text);
                },
                ContentPart::ImageUrl { .. } => {
                    return MessageContent::Multi(parts);
                },
            }
        }
    }
    MessageContent::Multi(parts)
}

} // verus!
