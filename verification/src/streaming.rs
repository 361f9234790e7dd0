//! Reconstruction of one assistant turn from a streamed response body: the
//! newline-separated `data:` frames are split out, each frame's incremental
//! delta is read, text fragments are appended to the turn's content, and
//! tool-call fragments are merged into the in-progress tool call until a
//! finish reason completes it. A second completed tool call in one turn is a
//! protocol violation and refuses the turn.

use vstd::prelude::*;
use vstd::string::StrSliceExecFns;

use crate::json::{json_kind_at, json_str_at, spec_json_kind_at, spec_json_str_at};
use crate::openaiapi::{
    ChatError, ChatErrorKind, FunctionCall, FunctionCallV, Message, MessageContent,
    MessageContentV, MessageV, ToolCall, ToolCallV,
};
use crate::strutil::{
    chars_to_string, chunks_view, find_first, lemma_chunks_view_push, push_str_chars, slice_range,
    spec_split_lines, split_lines, str_chars, str_equal, strip_cr,
};

verus! {

/// The text with leading spaces removed.
pub open spec fn trim_lead_spaces(s: Seq<char>) -> Seq<char>
    decreases s.len(),
{
    if s.len() > 0 && s[0] == ' ' {
        trim_lead_spaces(s.drop_first())
    } else {
        s
    }
}

/// The payload a protocol line carries: the text after a `data:` prefix with
/// surrounding blanks removed — and nothing for other lines, empty payloads,
/// and the terminator frame.
pub open spec fn spec_payload_of_line(line: Seq<char>) -> Option<Seq<char>> {
    let l = strip_cr(line);
    if l.len() >= 5 && l.take(5) == "data:"@ {
        let p = trim_lead_spaces(l.skip(5));
        if p.len() == 0 || p == "[DONE]"@ {
            None
        } else {
            Some(p)
        }
    } else {
        None
    }
}

/// The payloads of a sequence of protocol lines, in order.
pub open spec fn spec_payloads(lines: Seq<Seq<char>>) -> Seq<Seq<char>>
    decreases lines.len(),
{
    if lines.len() == 0 {
        Seq::empty()
    } else {
        spec_payloads(lines.drop_last()) + (match spec_payload_of_line(lines.last()) {
            Some(p) => seq![p],
            None => Seq::empty(),
        })
    }
}

/// The incremental fields one streamed frame may carry for the first choice.
pub struct DeltaFrame {
    pub content: Option<String>,
    pub tool_id: Option<String>,
    pub tool_type: Option<String>,
    pub fn_name: Option<String>,
    pub fn_args: Option<String>,
    pub finish_reason: Option<String>,
}

/// Mathematical image of a `DeltaFrame`.
pub ghost struct DeltaFrameV {
    pub content: Option<Seq<char>>,
    pub tool_id: Option<Seq<char>>,
    pub tool_type: Option<Seq<char>>,
    pub fn_name: Option<Seq<char>>,
    pub fn_args: Option<Seq<char>>,
    pub finish_reason: Option<Seq<char>>,
}

impl View for DeltaFrame {
    type V = DeltaFrameV;

    open spec fn view(&self) -> DeltaFrameV {
        DeltaFrameV {
            content: match &self.content {
                Some(s) => Some(s@),
                None => None,
            },
            tool_id: match &self.tool_id {
                Some(s) => Some(s@),
                None => None,
            },
            tool_type: match &self.tool_type {
                Some(s) => Some(s@),
                None => None,
            },
            fn_name: match &self.fn_name {
                Some(s) => Some(s@),
                None => None,
            },
            fn_args: match &self.fn_args {
                Some(s) => Some(s@),
                None => None,
            },
            finish_reason: match &self.finish_reason {
                Some(s) => Some(s@),
                None => None,
            },
        }
    }
}

/// What a parsed frame holds, read at the fixed paths of the wire protocol.
pub open spec fn spec_delta_of(s: Seq<char>) -> DeltaFrameV {
    DeltaFrameV {
        content: spec_json_str_at(s, "/choices/0/delta/content"@),
        tool_id: spec_json_str_at(s, "/choices/0/delta/tool_calls/0/id"@),
        tool_type: spec_json_str_at(s, "/choices/0/delta/tool_calls/0/type"@),
        fn_name: spec_json_str_at(s, "/choices/0/delta/tool_calls/0/function/name"@),
        fn_args: spec_json_str_at(s, "/choices/0/delta/tool_calls/0/function/arguments"@),
        finish_reason: spec_json_str_at(s, "/choices/0/finish_reason"@),
    }
}

/// Whether a frame payload is JSON at all.
pub open spec fn spec_frame_parses(s: Seq<char>) -> bool {
    spec_json_kind_at(s, ""@) is Some
}

/// Reads one frame payload; a payload that is not JSON reads as nothing.
fn read_delta(payload: &str) -> (r: Option<DeltaFrame>)
    ensures
        r is Some <==> spec_frame_parses(payload@),
        r matches Some(d) ==> d@ == spec_delta_of(payload@),
{
    if json_kind_at(payload, "").is_none() {
        return None;
    }
    Some(
        DeltaFrame {
            content: json_str_at(payload, "/choices/0/delta/content"),
            tool_id: json_str_at(payload, "/choices/0/delta/tool_calls/0/id"),
            tool_type: json_str_at(payload, "/choices/0/delta/tool_calls/0/type"),
            fn_name: json_str_at(payload, "/choices/0/delta/tool_calls/0/function/name"),
            fn_args: json_str_at(payload, "/choices/0/delta/tool_calls/0/function/arguments"),
            finish_reason: json_str_at(payload, "/choices/0/finish_reason"),
        },
    )
}

/// The state of a turn under reconstruction: the accumulated text, the
/// in-progress tool call's fields, and the completed tool calls.
pub struct TurnAccum {
    pub text: Vec<char>,
    pub cur_id: Option<String>,
    pub cur_type: Option<String>,
    pub cur_name: Option<String>,
    pub cur_args: Vec<char>,
    pub done: Vec<ToolCall>,
}

/// Mathematical image of a `TurnAccum`.
pub ghost struct TurnAccumV {
    pub text: Seq<char>,
    pub cur_id: Option<Seq<char>>,
    pub cur_type: Option<Seq<char>>,
    pub cur_name: Option<Seq<char>>,
    pub cur_args: Seq<char>,
    pub done: Seq<ToolCallV>,
}

impl View for TurnAccum {
    type V = TurnAccumV;

    open spec fn view(&self) -> TurnAccumV {
        TurnAccumV {
            text: self.text@,
            cur_id: match &self.cur_id {
                Some(s) => Some(s@),
                None => None,
            },
            cur_type: match &self.cur_type {
                Some(s) => Some(s@),
                None => None,
            },
            cur_name: match &self.cur_name {
                Some(s) => Some(s@),
                None => None,
            },
            cur_args: self.cur_args@,
            done: self.done@.map_values(|t: ToolCall| t@),
        }
    }
}

/// The reconstruction state before any frame.
pub open spec fn empty_accum() -> TurnAccumV {
    TurnAccumV {
        text: Seq::empty(),
        cur_id: None,
        cur_type: None,
        cur_name: None,
        cur_args: Seq::empty(),
        done: Seq::empty(),
    }
}

/// A fragment overrides the field it names and leaves the others standing.
pub open spec fn merge_field(new: Option<Seq<char>>, cur: Option<Seq<char>>) -> Option<
    Seq<char>,
> {
    if new is Some {
        new
    } else {
        cur
    }
}

/// The in-progress tool call, completed: absent fields default — the id and
/// name to empty strings, the type to the one type the protocol knows.
pub open spec fn finalize_call(a: TurnAccumV) -> ToolCallV {
    ToolCallV {
        id: match a.cur_id {
            Some(s) => s,
            None => Seq::empty(),
        },
        tool_type: match a.cur_type {
            Some(s) => s,
            None => "function"@,
        },
        function: FunctionCallV {
            name: match a.cur_name {
                Some(s) => s,
                None => Seq::empty(),
            },
            arguments: a.cur_args,
        },
    }
}

/// One frame applied to the reconstruction state: text and argument
/// fragments are appended, id, type and name fragments merged, and a
/// `tool_calls` finish reason completes the in-progress call — at most once
/// per turn; a second completion yields nothing.
pub open spec fn spec_step(a: TurnAccumV, d: DeltaFrameV) -> Option<TurnAccumV> {
    let merged = TurnAccumV {
        text: a.text + (match d.content {
            Some(c) => c,
            None => Seq::empty(),
        }),
        cur_id: merge_field(d.tool_id, a.cur_id),
        cur_type: merge_field(d.tool_type, a.cur_type),
        cur_name: merge_field(d.fn_name, a.cur_name),
        cur_args: a.cur_args + (match d.fn_args {
            Some(c) => c,
            None => Seq::empty(),
        }),
        done: a.done,
    };
    if d.finish_reason == Some("tool_calls"@) {
        if merged.done.len() >= 1 {
            None
        } else {
            Some(
                TurnAccumV {
                    text: merged.text,
                    cur_id: None,
                    cur_type: None,
                    cur_name: None,
                    cur_args: Seq::empty(),
                    done: merged.done.push(finalize_call(merged)),
                },
            )
        }
    } else {
        Some(merged)
    }
}

/// What reconstruction leaves behind: the final state, or which of the two
/// protocol violations stopped it.
pub ghost enum RunOutcome {
    Done(TurnAccumV),
    BadFrame,
    TooManyCalls,
}

/// The reconstruction state after a sequence of frame payloads.
pub open spec fn spec_run(ps: Seq<Seq<char>>) -> RunOutcome
    decreases ps.len(),
{
    if ps.len() == 0 {
        RunOutcome::Done(empty_accum())
    } else {
        match spec_run(ps.drop_last()) {
            RunOutcome::Done(a) => {
                if !spec_frame_parses(ps.last()) {
                    RunOutcome::BadFrame
                } else {
                    match spec_step(a, spec_delta_of(ps.last())) {
                        Some(a2) => RunOutcome::Done(a2),
                        None => RunOutcome::TooManyCalls,
                    }
                }
            },
            RunOutcome::BadFrame => RunOutcome::BadFrame,
            RunOutcome::TooManyCalls => RunOutcome::TooManyCalls,
        }
    }
}

/// The assistant message a finished reconstruction yields: the text when any
/// accumulated, the completed tool calls when any.
pub open spec fn spec_finish_message(a: TurnAccumV) -> MessageV {
    MessageV {
        role: "assistant"@,
        content: if a.text.len() > 0 {
            Some(MessageContentV::Simple(a.text))
        } else {
            None
        },
        name: None,
        tool_call_id: None,
        tool_calls: if a.done.len() > 0 {
            Some(a.done)
        } else {
            None
        },
    }
}


/// The text fragments of a frame sequence, in order.
pub open spec fn concat_contents(ps: Seq<Seq<char>>) -> Seq<char>
    decreases ps.len(),
{
    if ps.len() == 0 {
        Seq::empty()
    } else {
        concat_contents(ps.drop_last()) + (match spec_delta_of(ps.last()).content {
            Some(c) => c,
            None => Seq::empty(),
        })
    }
}

/// Whether a frame carries text at most: no tool-call fragment and no
/// tool-call finish.
pub open spec fn text_only_frame(p: Seq<char>) -> bool {
    let d = spec_delta_of(p);
    &&& spec_frame_parses(p)
    &&& d.tool_id is None
    &&& d.tool_type is None
    &&& d.fn_name is None
    &&& d.fn_args is None
    &&& d.finish_reason != Some("tool_calls"@)
}

/// A stream of well-formed, text-only frames always reconstructs, to the
/// concatenation of its text fragments and no tool call.
pub proof fn lemma_text_only_stream(ps: Seq<Seq<char>>)
    requires
        forall|i: int| 0 <= i < ps.len() ==> text_only_frame(#[trigger] ps[i]),
    ensures
        spec_run(ps) matches RunOutcome::Done(a) && a.done.len() == 0 && a.text
            == concat_contents(ps),
    decreases ps.len(),
{
    if ps.len() > 0 {
        let h = ps.drop_last();
        assert(forall|i: int| 0 <= i < h.len() ==> #[trigger] h[i] == ps[i]);
        lemma_text_only_stream(h);
        assert(ps.last() == ps[ps.len() - 1]);
    }
}

/// Once reconstruction fails, later frames do not revive it.
proof fn lemma_run_sticky(ps: Seq<Seq<char>>, i: int)
    requires
        0 <= i <= ps.len(),
        !(spec_run(ps.take(i)) is Done),
    ensures
        spec_run(ps) == spec_run(ps.take(i)),
    decreases ps.len() - i,
{
    if i == ps.len() {
        assert(ps.take(i) =~= ps);
    } else {
        assert(ps.take(i + 1).drop_last() =~= ps.take(i));
        lemma_run_sticky(ps, i + 1);
    }
}

/// Applies one frame to the state; the result says whether the one-call
/// budget of the turn held.
fn step(acc: &mut TurnAccum, d: DeltaFrame) -> (r: bool)
    ensures
        match spec_step(old(acc)@, d@) {
            Some(a) => r == true && final(acc)@ == a,
            None => r == false,
        },
{
    if let Some(c) = &d.content {
        push_str_chars(&mut acc.text, c.as_str());
    }
    if d.tool_id.is_some() {
        acc.cur_id = d.tool_id;
    }
    if d.tool_type.is_some() {
        acc.cur_type = d.tool_type;
    }
    if d.fn_name.is_some() {
        acc.cur_name = d.fn_name;
    }
    if let Some(c) = &d.fn_args {
        push_str_chars(&mut acc.cur_args, c.as_str());
    }
    proof {
        assert(acc@.text =~= old(acc)@.text + (match d@.content {
            Some(c) => c,
            None => Seq::<char>::empty(),
        }));
        assert(acc@.cur_args =~= old(acc)@.cur_args + (match d@.fn_args {
            Some(c) => c,
            None => Seq::<char>::empty(),
        }));
    }
    let mut finish = false;
    if let Some(fr) = &d.finish_reason {
        if str_equal(fr.as_str(), "tool_calls") {
            finish = true;
        }
    }
    if finish {
        if acc.done.len() >= 1 {
            return false;
        }
        let id = match &acc.cur_id {
            Some(s) => s.clone(),
            None => String::new(),
        };
        let tool_type = match &acc.cur_type {
            Some(s) => s.clone(),
            None => "function".to_owned(),
        };
        let name = match &acc.cur_name {
            Some(s) => s.clone(),
            None => String::new(),
        };
        let arguments = chars_to_string(&acc.cur_args);
        let ghost merged = acc@;
        acc.done.push(ToolCall { id, tool_type, function: FunctionCall { name, arguments } });
        acc.cur_id = None;
        acc.cur_type = None;
        acc.cur_name = None;
        acc.cur_args = Vec::new();
        proof {
            assert(acc@.done =~= merged.done.push(finalize_call(merged)));
        }
    }
    true
}

/// The payload of one protocol line, when it carries one.
fn payload_of_line(line: &Vec<char>) -> (r: Option<Vec<char>>)
    ensures
        r is Some <==> spec_payload_of_line(line@) is Some,
        r matches Some(p) ==> spec_payload_of_line(line@) == Some(p@),
{
    proof {
        reveal_strlit("data:");
    }
    let mut end = line.len();
    if end > 0 && line[end - 1] == '\r' {
        end = end - 1;
    }
    proof {
        assert(line@.subrange(0, end as int) =~= strip_cr(line@));
    }
    if end < 5 {
        return None;
    }
    if !(line[0] == 'd' && line[1] == 'a' && line[2] == 't' && line[3] == 'a' && line[4]
        == ':') {
        proof {
            let l = strip_cr(line@);
            assert(l.take(5) != "data:"@) by {
                if l.take(5) == "data:"@ {
                    assert(l.take(5)[0] == 'd' && l.take(5)[1] == 'a' && l.take(5)[2] == 't'
                        && l.take(5)[3] == 'a' && l.take(5)[4] == ':');
                }
            }
        }
        return None;
    }
    proof {
        assert(strip_cr(line@).take(5) =~= "data:"@);
    }
    let ghost l = strip_cr(line@);
    let mut j: usize = 5;
    proof {
        assert(l.skip(5) =~= l.skip(5));
    }
    while j < end && line[j] == ' '
        invariant
            5 <= j <= end,
            end <= line@.len(),
            l == strip_cr(line@),
            l.len() == end,
            forall|k: int| 0 <= k < l.len() ==> l[k] == line@[k],
            trim_lead_spaces(l.skip(5)) == trim_lead_spaces(l.skip(j as int)),
        decreases end - j,
    {
        proof {
            assert(l.skip(j as int)[0] == ' ');
            assert(l.skip(j as int).drop_first() =~= l.skip(j + 1));
        }
        j = j + 1;
    }
    proof {
        if j < end {
            assert(l.skip(j as int)[0] != ' ');
            assert(trim_lead_spaces(l.skip(j as int)) == l.skip(j as int));
        } else {
            assert(l.skip(j as int).len() == 0);
            assert(trim_lead_spaces(l.skip(j as int)) == l.skip(j as int));
        }
    }
    let p = slice_range(line, j, end);
    assert(p@ =~= l.skip(j as int));
    if p.len() == 0 {
        return None;
    }
    let ps = chars_to_string(&p);
    if str_equal(ps.as_str(), "[DONE]") {
        return None;
    }
    Some(p)
}

/// Collects the frame payloads of a streamed body's lines.
fn collect_payloads(lines: &Vec<Vec<char>>) -> (r: Vec<Vec<char>>)
    ensures
        chunks_view(r@) == spec_payloads(chunks_view(lines@)),
{
    let ghost lv = chunks_view(lines@);
    let mut out: Vec<Vec<char>> = Vec::new();
    let n = lines.len();
    let mut i: usize = 0;
    proof {
        assert(lv.take(0) =~= Seq::<Seq<char>>::empty());
        assert(chunks_view(out@) =~= spec_payloads(lv.take(0)));
    }
    while i < n
        invariant
            i <= n,
            n == lines@.len(),
            lv == chunks_view(lines@),
            lv.len() == n,
            chunks_view(out@) == spec_payloads(lv.take(i as int)),
        decreases n - i,
    {
        assert(lv[i as int] == lines@[i as int]@);
        proof {
            assert(lv.take(i + 1).drop_last() =~= lv.take(i as int));
            assert(lv.take(i + 1).last() == lv[i as int]);
        }
        if let Some(p) = payload_of_line(&lines[i]) {
            let ghost prev = out@;
            let ghost pv = p@;
            out.push(p);
            proof {
                lemma_chunks_view_push(prev, out@[prev.len() as int]);
                assert(chunks_view(out@) =~= spec_payloads(lv.take(i + 1)));
            }
        } else {
            proof {
                assert(spec_payloads(lv.take(i + 1)) =~= spec_payloads(lv.take(i as int)));
            }
        }
        i = i + 1;
    }
    proof {
        assert(lv.take(n as int) =~= lv);
    }
    out
}

/// Reconstructs one assistant turn from a streamed response body. A frame
/// that is not JSON, or a second completed tool call in the same turn, is a
/// protocol violation and refuses the whole turn.
pub fn reconstruct_streaming(body: &str) -> (r: Result<Message, ChatError>)
    ensures
        match spec_run(spec_payloads(spec_split_lines(body@))) {
            RunOutcome::Done(a) => r matches Ok(m) && m@ == spec_finish_message(a),
            RunOutcome::BadFrame => r matches Err(e) && e.kind
                == ChatErrorKind::ProtocolParseFailure && e.message@
                == "Invalid streaming frame"@,
            RunOutcome::TooManyCalls => r matches Err(e) && e.kind
                == ChatErrorKind::ProtocolParseFailure && e.message@
                == "More than one tool call in one streamed turn"@,
        },
{
    let chars = str_chars(body);
    let lines = split_lines(&chars);
    let payloads = collect_payloads(&lines);
    let ghost pv = chunks_view(payloads@);
    let mut acc = TurnAccum {
        text: Vec::new(),
        cur_id: None,
        cur_type: None,
        cur_name: None,
        cur_args: Vec::new(),
        done: Vec::new(),
    };
    let n = payloads.len();
    let mut i: usize = 0;
    proof {
        assert(pv.take(0) =~= Seq::<Seq<char>>::empty());
        assert(acc@.done =~= Seq::<ToolCallV>::empty());
        assert(acc@ == empty_accum());
    }
    while i < n
        invariant
            i <= n,
            n == payloads@.len(),
            pv == chunks_view(payloads@),
            pv == spec_payloads(spec_split_lines(body@)),
            pv.len() == n,
            spec_run(pv.take(i as int)) == RunOutcome::Done(acc@),
        decreases n - i,
    {
        assert(pv[i as int] == payloads@[i as int]@);
        proof {
            assert(pv.take(i + 1).drop_last() =~= pv.take(i as int));
            assert(pv.take(i + 1).last() == pv[i as int]);
        }
        let ps = chars_to_string(&payloads[i]);
        let d = match read_delta(ps.as_str()) {
            Some(d) => d,
            None => {
                proof {
                    assert(spec_run(pv.take(i + 1)) == RunOutcome::BadFrame);
                    lemma_run_sticky(pv, i + 1);
                }
                return Err(
                    ChatError::new(
                        ChatErrorKind::ProtocolParseFailure,
                        "Invalid streaming frame",
                    ),
                );
            },
        };
        if !step(&mut acc, d) {
            proof {
                assert(spec_run(pv.take(i + 1)) == RunOutcome::TooManyCalls);
                lemma_run_sticky(pv, i + 1);
            }
            return Err(
                ChatError::new(
                    ChatErrorKind::ProtocolParseFailure,
                    "More than one tool call in one streamed turn",
                ),
            );
        }
        i = i + 1;
    }
    proof {
        assert(pv.take(n as int) =~= pv);
    }
    let content = if acc.text.len() > 0 {
        Some(MessageContent::Simple(chars_to_string(&acc.text)))
    } else {
        None
    };
    let tool_calls = if acc.done.len() > 0 {
        Some(acc.done)
    } else {
        None
    };
    Ok(
        Message {
            role: "assistant".to_owned(),
            content,
            name: None,
            tool_call_id: None,
            tool_calls,
        },
    )
}

/// Whether a response body is a streamed one: it holds both a `data: `
/// prefix and the terminator marker.
pub open spec fn spec_is_streaming(s: Seq<char>) -> bool {
    find_first(s, "data: "@) is Some && find_first(s, "[DONE]"@) is Some
}

/// Detects a streamed response body.
pub fn is_streaming_body(body: &str) -> (r: bool)
    ensures
        r == spec_is_streaming(body@),
{
    let chars = str_chars(body);
    let data_marker = str_chars("data: ");
    let done_marker = str_chars("[DONE]");
    let a = crate::strutil::find_sub(&chars, &data_marker);
    let b = crate::strutil::find_sub(&chars, &done_marker);
    a.is_some() && b.is_some()
}

/// Parses what the endpoint sent back, whichever form it took: a streamed
/// body is reconstructed frame by frame, any other body is taken as one
/// complete response object.
pub fn parse_api_response(body: &str) -> (r: Result<Message, ChatError>)
    ensures
        spec_is_streaming(body@) ==> (match spec_run(
            spec_payloads(spec_split_lines(body@)),
        ) {
            RunOutcome::Done(a) => r matches Ok(m) && m@ == spec_finish_message(a),
            RunOutcome::BadFrame => r matches Err(e) && e.kind
                == ChatErrorKind::ProtocolParseFailure,
            RunOutcome::TooManyCalls => r matches Err(e) && e.kind
                == ChatErrorKind::ProtocolParseFailure,
        }),
        !spec_is_streaming(body@) ==> (match crate::openaiapi::spec_parse_response(body@) {
            Ok(mv) => r matches Ok(m) && m@ == mv,
            Err(msg) => r matches Err(e) && e.kind == ChatErrorKind::ProtocolParseFailure
                && e.message@ == msg,
        }),
{
    if is_streaming_body(body) {
        reconstruct_streaming(body)
    } else {
        crate::openaiapi::parse_response(body)
    }
}

} // verus!
