//! The transcript in the shape of OpenAI-compatible chat completions, and the
//! reading of their replies.
use vstd::prelude::*;
use vstd::string::*;
use serde_json::Value;
use crate::inference::llm::{
    Role, ContentBlock, Message, ToolCall, BlockView, blocks_view, texts_of, joined, Tool,
    LlmResponse, tool_use_view,
};
use crate::inference::error::InferenceError;
use crate::inference::json::{json_text, json_parse_or_null, json_rendering, json_value_or_null};
use crate::text::{utf8, chars_in, str_slice, lemma_cut_at_ascii, lemma_cut_at_end};

verus! {

/// The length of the first `n` bytes of `b` without the `/` bytes that end
/// them.
pub open spec fn trailing_slash_cut(b: Seq<u8>, n: int) -> int
    decreases n,
{
    if n > 0 && n <= b.len() && b[n - 1] == 0x2f {
        trailing_slash_cut(b, n - 1)
    } else {
        n
    }
}

/// `s` without the slashes that end it.
pub open spec fn without_trailing_slashes(s: Seq<char>) -> Seq<char> {
    chars_in(utf8(s), 0, trailing_slash_cut(utf8(s), utf8(s).len() as int))
}

/// `s` without the slashes that end it (`s.trim_end_matches('/')`).
pub fn trim_trailing_slashes(s: &str) -> (r: &str)
    ensures
        r@ == without_trailing_slashes(s@),
{
    let b = s.as_bytes();
    let ghost bs = b@;
    let mut end: usize = b.len();
    while end > 0 && b[end - 1] == 0x2f
        invariant
            end <= bs.len(),
            bs == b@,
            bs == utf8(s@),
            trailing_slash_cut(bs, bs.len() as int) == trailing_slash_cut(bs, end as int),
            end < bs.len() ==> bs[end as int] == 0x2f,
        decreases end,
    {
        end = end - 1;
    }
    proof {
        vstd::utf8::encode_utf8_valid_utf8(s@);
        lemma_cut_at_end(bs);
        if end < bs.len() {
            lemma_cut_at_ascii(bs, end as int);
        }
    }
    str_slice(s, 0, end)
}

/// Backend for any OpenAI-compatible `/v1/chat/completions` endpoint: its
/// base URL, kept without trailing slashes, and the API key.  The HTTP
/// client is the caller's.
#[derive(Debug, Clone)]
pub struct OpenAiCompatBackend {
    pub base_url: String,
    pub api_key: String,
}

impl OpenAiCompatBackend {
    pub fn new(base_url: &str, api_key: &str) -> (b: Self)
        ensures
            b.base_url@ == without_trailing_slashes(base_url@),
            b.api_key@ == api_key@,
    {
        Self { base_url: trim_trailing_slashes(base_url).to_owned(), api_key: api_key.to_owned() }
    }

    /// The endpoint requests are posted to.
    pub fn completions_url(&self) -> (r: String)
        ensures
            r@ == self.base_url@ + "/chat/completions"@,
    {
        let mut r = self.base_url.clone();
        r.append("/chat/completions");
        r
    }

    /// The value of the `Authorization` header.
    pub fn authorization(&self) -> (r: String)
        ensures
            r@ == "Bearer "@ + self.api_key@,
    {
        let mut r = String::new();
        r.append("Bearer ");
        r.append(self.api_key.as_str());
        r
    }
}

/// One chat message on the wire.
pub struct ChatMessage {
    pub role: &'static str,
    pub content: Option<String>,
    pub tool_calls: Option<Vec<ChatToolCall>>,
    pub tool_call_id: Option<String>,
}

pub struct ChatToolCall {
    pub id: String,
    pub kind: &'static str,
    pub function: ChatFunctionCall,
}

pub struct ChatFunctionCall {
    pub name: String,
    /// JSON-encoded argument object, per the OpenAI schema.
    pub arguments: String,
}

/// A wire tool call as characters; the argument text is serde_json's
/// rendering of the call's input.
pub struct ToolCallView {
    pub id: Seq<char>,
    pub kind: Seq<char>,
    pub name: Seq<char>,
    pub arguments: Seq<char>,
}

/// A wire message as characters.
pub struct ChatMessageView {
    pub role: Seq<char>,
    pub content: Option<Seq<char>>,
    pub tool_calls: Option<Seq<ToolCallView>>,
    pub tool_call_id: Option<Seq<char>>,
}

pub open spec fn opt_chars(o: Option<String>) -> Option<Seq<char>> {
    match o {
        Some(s) => Some(s@),
        None => None,
    }
}

pub open spec fn call_view(c: ChatToolCall) -> ToolCallView {
    ToolCallView { id: c.id@, kind: c.kind@, name: c.function.name@, arguments: c.function.arguments@ }
}

pub open spec fn message_view(m: ChatMessage) -> ChatMessageView {
    ChatMessageView {
        role: m.role@,
        content: opt_chars(m.content),
        tool_calls: match m.tool_calls {
            Some(cs) => Some(cs@.map_values(|c: ChatToolCall| call_view(c))),
            None => None,
        },
        tool_call_id: opt_chars(m.tool_call_id),
    }
}

pub open spec fn messages_view(ms: Seq<ChatMessage>) -> Seq<ChatMessageView> {
    ms.map_values(|m: ChatMessage| message_view(m))
}

pub open spec fn role_name(r: Role) -> Seq<char> {
    match r {
        Role::System => "system"@,
        Role::User => "user"@,
        Role::Assistant => "assistant"@,
    }
}

/// The `role: "tool"` messages that the tool results among `bs` expand into.
pub open spec fn tool_messages(bs: Seq<BlockView>) -> Seq<ChatMessageView>
    decreases bs.len(),
{
    if bs.len() == 0 {
        Seq::empty()
    } else {
        tool_messages(bs.drop_last()) + match bs.last() {
            BlockView::ToolResult { tool_use_id, content, .. } => seq![
                ChatMessageView {
                    role: "tool"@,
                    content: Some(content),
                    tool_calls: None,
                    tool_call_id: Some(tool_use_id),
                },
            ],
            _ => Seq::empty(),
        }
    }
}

/// The wire tool calls that the tool uses among `bs` become.
pub open spec fn tool_uses(bs: Seq<BlockView>) -> Seq<ToolCallView>
    decreases bs.len(),
{
    if bs.len() == 0 {
        Seq::empty()
    } else {
        tool_uses(bs.drop_last()) + match bs.last() {
            BlockView::ToolUse { id, name, input } => seq![
                ToolCallView { id, kind: "function"@, name, arguments: json_rendering(input) },
            ],
            _ => Seq::empty(),
        }
    }
}

/// What one transcript message becomes: its tool results as `tool`
/// messages, then, when it has text or tool calls, one message for its role
/// with the text joined and the calls listed.
pub open spec fn message_out(role: Role, bs: Seq<BlockView>) -> Seq<ChatMessageView> {
    let texts = texts_of(bs);
    let uses = tool_uses(bs);
    tool_messages(bs) + if texts.len() == 0 && uses.len() == 0 {
        Seq::empty()
    } else {
        seq![
            ChatMessageView {
                role: role_name(role),
                content: if texts.len() > 0 {
                    Some(joined(texts))
                } else {
                    None
                },
                tool_calls: if uses.len() > 0 {
                    Some(uses)
                } else {
                    None
                },
                tool_call_id: None,
            },
        ]
    }
}

/// What a transcript becomes, message by message.
pub open spec fn build_spec(ms: Seq<Message>) -> Seq<ChatMessageView>
    decreases ms.len(),
{
    if ms.len() == 0 {
        Seq::empty()
    } else {
        build_spec(ms.drop_last()) + message_out(ms.last().role, blocks_view(ms.last().content@))
    }
}

fn role_str(r: Role) -> (s: &'static str)
    ensures
        s@ == role_name(r),
{
    match r {
        Role::System => "system",
        Role::User => "user",
        Role::Assistant => "assistant",
    }
}

/// Join string slices end to end.
fn concat_parts(parts: &Vec<&str>) -> (r: String)
    ensures
        r@ == joined(parts@.map_values(|p: &str| p@)),
{
    let mut out = String::new();
    let mut i: usize = 0;
    while i < parts.len()
        invariant
            i <= parts.len(),
            out@ == joined(parts@.subrange(0, i as int).map_values(|p: &str| p@)),
        decreases parts.len() - i,
    {
        let ghost pre = parts@.subrange(0, i as int).map_values(|p: &str| p@);
        let ghost post = parts@.subrange(0, i + 1).map_values(|p: &str| p@);
        assert(post.drop_last() =~= pre);
        out.append(parts[i]);
        i = i + 1;
    }
    assert(parts@.subrange(0, i as int) =~= parts@);
    out
}

/// Translate the provider-neutral transcript into OpenAI chat messages.
///
/// Tool results expand into their own `role: "tool"` messages (keyed by
/// `tool_call_id`); text and tool calls collapse into a single message for the
/// originating role.
pub fn build_messages(messages: &[Message]) -> (r: Vec<ChatMessage>)
    ensures
        messages_view(r@) == build_spec(messages@),
{
    let mut out: Vec<ChatMessage> = Vec::new();
    let mut i: usize = 0;
    while i < messages.len()
        invariant
            i <= messages.len(),
            messages_view(out@) == build_spec(messages@.subrange(0, i as int)),
        decreases messages.len() - i,
    {
        let msg = &messages[i];
        let ghost bs = blocks_view(msg.content@);
        let ghost start = messages_view(out@);
        let mut text_parts: Vec<&str> = Vec::new();
        let mut tool_calls: Vec<ChatToolCall> = Vec::new();
        let mut j: usize = 0;
        while j < msg.content.len()
            invariant
                j <= msg.content.len(),
                bs == blocks_view(msg.content@),
                messages_view(out@) == start + tool_messages(bs.subrange(0, j as int)),
                text_parts@.map_values(|p: &str| p@) == texts_of(bs.subrange(0, j as int)),
                tool_calls@.map_values(|c: ChatToolCall| call_view(c)) == tool_uses(bs.subrange(0, j as int)),
            decreases msg.content.len() - j,
        {
            let ghost pre = bs.subrange(0, j as int);
            let ghost post = bs.subrange(0, j + 1);
            assert(post.drop_last() =~= pre);
            assert(post.last() == msg.content@[j as int]@);
            let ghost out0 = messages_view(out@);
            let ghost parts0 = text_parts@.map_values(|p: &str| p@);
            let ghost calls0 = tool_calls@.map_values(|c: ChatToolCall| call_view(c));
            match &msg.content[j] {
                ContentBlock::Text { text } => {
                    text_parts.push(text.as_str());
                    assert(text_parts@.map_values(|p: &str| p@) =~= parts0.push(text@));
                    assert(messages_view(out@) =~= start + tool_messages(post));
                },
                ContentBlock::ToolUse { id, name, input } => {
                    let call = ChatToolCall {
                        id: id.clone(),
                        kind: "function",
                        function: ChatFunctionCall { name: name.clone(), arguments: json_text(input) },
                    };
                    proof {
                        reveal_strlit("function");
                    }
                    tool_calls.push(call);
                    assert(tool_calls@.map_values(|c: ChatToolCall| call_view(c)) =~= calls0.push(
                        ToolCallView {
                            id: id@,
                            kind: "function"@,
                            name: name@,
                            arguments: json_rendering(*input),
                        },
                    ));
                    assert(messages_view(out@) =~= start + tool_messages(post));
                    assert(text_parts@.map_values(|p: &str| p@) =~= texts_of(post));
                },
                ContentBlock::ToolResult { tool_use_id, content, .. } => {
                    let m = ChatMessage {
                        role: "tool",
                        content: Some(content.clone()),
                        tool_calls: None,
                        tool_call_id: Some(tool_use_id.clone()),
                    };
                    out.push(m);
                    assert(messages_view(out@) =~= out0.push(message_view(m)));
                    assert(messages_view(out@) =~= start + tool_messages(post));
                    assert(text_parts@.map_values(|p: &str| p@) =~= texts_of(post));
                    assert(tool_calls@.map_values(|c: ChatToolCall| call_view(c)) =~= tool_uses(post));
                },
            }
            j = j + 1;
        }
        assert(bs.subrange(0, j as int) =~= bs);
        let ghost pre_msgs = messages@.subrange(0, i as int);
        let ghost post_msgs = messages@.subrange(0, i + 1);
        assert(post_msgs.drop_last() =~= pre_msgs);
        assert(post_msgs.last() == *msg);
        if text_parts.len() == 0 && tool_calls.len() == 0 {
            // The message held only tool results, already emitted above.
            assert(messages_view(out@) =~= build_spec(post_msgs));
        } else {
            let ghost out0 = messages_view(out@);
            let content = if text_parts.len() > 0 {
                Some(concat_parts(&text_parts))
            } else {
                None
            };
            let calls = if tool_calls.len() > 0 {
                Some(tool_calls)
            } else {
                None
            };
            let m = ChatMessage { role: role_str(msg.role), content, tool_calls: calls, tool_call_id: None };
            out.push(m);
            assert(messages_view(out@) =~= out0.push(message_view(m)));
            assert(messages_view(out@) =~= build_spec(post_msgs));
        }
        i = i + 1;
    }
    assert(messages@.subrange(0, i as int) =~= messages@);
    out
}

/// A tool call as the reply lists it.
pub struct RespToolCall {
    pub id: String,
    pub name: String,
    /// The JSON-encoded arguments.
    pub arguments: String,
}

/// The first choice of a reply.
pub struct ChoiceMessage {
    pub content: Option<String>,
    pub tool_calls: Vec<RespToolCall>,
}

/// The text and tool calls of a reply: those of its first choice, or none.
/// Each call's input is its argument text read as JSON (`null` when it is
/// not JSON).
pub fn reply_parts(message: Option<ChoiceMessage>) -> (r: (String, Vec<ToolCall>))
    ensures
        r.0@ == match message {
            Some(m) => match m.content {
                Some(c) => c@,
                None => Seq::empty(),
            },
            None => Seq::empty(),
        },
        r.1.len() == match message {
            Some(m) => m.tool_calls.len(),
            None => 0,
        },
        message matches Some(m) ==> forall|i: int|
            0 <= i < r.1.len() ==> (#[trigger] r.1@[i]).id@ == m.tool_calls@[i].id@ && r.1@[i].name@
                == m.tool_calls@[i].name@ && r.1@[i].input == json_value_or_null(
                m.tool_calls@[i].arguments@,
            ),
{
    match message {
        Some(m) => {
            let text = match m.content {
                Some(c) => c,
                None => String::new(),
            };
            let mut calls: Vec<ToolCall> = Vec::new();
            let mut i: usize = 0;
            while i < m.tool_calls.len()
                invariant
                    i <= m.tool_calls.len(),
                    calls.len() == i,
                    forall|k: int|
                        0 <= k < i ==> (#[trigger] calls@[k]).id@ == m.tool_calls@[k].id@
                            && calls@[k].name@ == m.tool_calls@[k].name@ && calls@[k].input
                            == json_value_or_null(m.tool_calls@[k].arguments@),
                decreases m.tool_calls.len() - i,
            {
                let c = &m.tool_calls[i];
                calls.push(
                    ToolCall {
                        id: c.id.clone(),
                        name: c.name.clone(),
                        input: json_parse_or_null(c.arguments.as_str()),
                    },
                );
                i = i + 1;
            }
            (text, calls)
        },
        None => (String::new(), Vec::new()),
    }
}

// ── What each transcript message becomes ───────────────────────────────────

/// Which blocks are text.
pub open spec fn text_view() -> spec_fn(BlockView) -> bool {
    |b: BlockView| b is Text
}

/// The text of a text block.
pub open spec fn text_of_block(b: BlockView) -> Seq<char> {
    match b {
        BlockView::Text { text } => text,
        _ => Seq::empty(),
    }
}

/// Which blocks are tool results.
pub open spec fn result_view() -> spec_fn(BlockView) -> bool {
    |b: BlockView| b is ToolResult
}

/// The `role: "tool"` message of a `tool_result` block: its content, keyed
/// by the call it answers.
pub open spec fn tool_message(b: BlockView) -> ChatMessageView {
    match b {
        BlockView::ToolResult { tool_use_id, content, .. } => ChatMessageView {
            role: "tool"@,
            content: Some(content),
            tool_calls: None,
            tool_call_id: Some(tool_use_id),
        },
        _ => ChatMessageView { role: Seq::empty(), content: None, tool_calls: None, tool_call_id: None },
    }
}

/// The wire call of a `tool_use` block.
pub open spec fn wire_call(b: BlockView) -> ToolCallView {
    match b {
        BlockView::ToolUse { id, name, input } => ToolCallView {
            id,
            kind: "function"@,
            name,
            arguments: json_rendering(input),
        },
        _ => ToolCallView { id: Seq::empty(), kind: Seq::empty(), name: Seq::empty(), arguments: Seq::empty() },
    }
}

proof fn lemma_texts_and_uses(bs: Seq<BlockView>)
    ensures
        texts_of(bs) == bs.filter(text_view()).map_values(|b: BlockView| text_of_block(b)),
        tool_uses(bs) == bs.filter(tool_use_view()).map_values(|b: BlockView| wire_call(b)),
        tool_messages(bs) == bs.filter(result_view()).map_values(|b: BlockView| tool_message(b)),
    decreases bs.len(),
{
    reveal(Seq::filter);
    if bs.len() > 0 {
        let pre = bs.drop_last();
        lemma_texts_and_uses(pre);
        let l = bs.last();
        if l is Text {
            assert(bs.filter(text_view()) == pre.filter(text_view()).push(l));
            assert(bs.filter(text_view()).map_values(|b: BlockView| text_of_block(b)) =~= pre.filter(
                text_view(),
            ).map_values(|b: BlockView| text_of_block(b)).push(text_of_block(l)));
        } else {
            assert(bs.filter(text_view()) == pre.filter(text_view()));
        }
        if l is ToolUse {
            assert(bs.filter(tool_use_view()) == pre.filter(tool_use_view()).push(l));
            assert(bs.filter(tool_use_view()).map_values(|b: BlockView| wire_call(b)) =~= pre.filter(
                tool_use_view(),
            ).map_values(|b: BlockView| wire_call(b)).push(wire_call(l)));
        } else {
            assert(bs.filter(tool_use_view()) == pre.filter(tool_use_view()));
        }
        if l is ToolResult {
            assert(bs.filter(result_view()) == pre.filter(result_view()).push(l));
            assert(bs.filter(result_view()).map_values(|b: BlockView| tool_message(b)) =~= pre.filter(
                result_view(),
            ).map_values(|b: BlockView| tool_message(b)).push(tool_message(l)));
        } else {
            assert(bs.filter(result_view()) == pre.filter(result_view()));
        }
    }
}

proof fn lemma_build_prefix(ms: Seq<Message>, k: int)
    requires
        0 <= k <= ms.len(),
    ensures
        build_spec(ms.subrange(0, k)).len() <= build_spec(ms).len(),
        build_spec(ms).subrange(0, build_spec(ms.subrange(0, k)).len() as int) == build_spec(
            ms.subrange(0, k),
        ),
    decreases ms.len(),
{
    if k == ms.len() {
        assert(ms.subrange(0, k) =~= ms);
    } else {
        let pre = ms.drop_last();
        lemma_build_prefix(pre, k);
        assert(pre.subrange(0, k) =~= ms.subrange(0, k));
        let a = build_spec(pre);
        let n = build_spec(ms.subrange(0, k)).len() as int;
        assert(build_spec(ms).subrange(0, n) =~= a.subrange(0, n));
    }
}

/// Each message of the transcript is sent after those before it, as its
/// tool results, every one in order, each a `tool` message keyed by the call
/// it answers, and then, when it has text or tool calls, one chat message
/// for its role: its content is all of its text blocks joined, whenever it
/// has any (tool calls or not), and its tool calls are its `tool_use`
/// blocks, every one in order.
pub proof fn law_chat_message_keeps_text_and_calls(ms: Seq<Message>, i: int)
    requires
        0 <= i < ms.len(),
    ensures
        ({
            let bs = blocks_view(ms[i].content@);
            let texts = bs.filter(text_view()).map_values(|b: BlockView| text_of_block(b));
            let uses = bs.filter(tool_use_view());
            let upto = build_spec(ms.subrange(0, i + 1));
            let before = build_spec(ms.subrange(0, i));
            let results = bs.filter(result_view());
            &&& upto.len() == before.len() + results.len() + (if texts.len() > 0 || uses.len() > 0 {
                1int
            } else {
                0int
            })
            &&& upto.subrange(0, before.len() as int) == before
            &&& upto.subrange(before.len() as int, (before.len() + results.len()) as int) == results.map_values(
                |b: BlockView| tool_message(b),
            )
            &&& upto.len() <= build_spec(ms).len()
            &&& build_spec(ms).subrange(0, upto.len() as int) == upto
            &&& (texts.len() > 0 || uses.len() > 0) ==> {
                &&& upto.last().role == role_name(ms[i].role)
                &&& upto.last().content == (if texts.len() > 0 {
                    Some(joined(texts))
                } else {
                    None
                })
                &&& upto.last().tool_calls == (if uses.len() > 0 {
                    Some(uses.map_values(|b: BlockView| wire_call(b)))
                } else {
                    None
                })
                &&& upto.last().tool_call_id is None
            }
        }),
{
    let bs = blocks_view(ms[i].content@);
    lemma_texts_and_uses(bs);
    lemma_build_prefix(ms, i + 1);
    let sub = ms.subrange(0, i + 1);
    assert(sub.drop_last() =~= ms.subrange(0, i));
    assert(sub.last() == ms[i]);
    let before = build_spec(ms.subrange(0, i));
    assert(build_spec(sub) == before + message_out(ms[i].role, bs));
    let results = bs.filter(result_view());
    assert(build_spec(sub).subrange(0, before.len() as int) =~= before);
    assert(build_spec(sub).subrange(before.len() as int, (before.len() + results.len()) as int) =~= tool_messages(bs));
}

// ── The tools on offer, and the outcome of a request ──────────────────────

/// A tool as chat completions list it: a `function` with its parameters'
/// schema.
pub struct ChatTool {
    /// Always `function`.
    pub kind: String,
    pub name: String,
    pub description: String,
    pub parameters: Value,
}

/// The tools of a request, one for one and in order, as chat completions
/// list them.
pub fn chat_tools(tools: &[Tool]) -> (r: Vec<ChatTool>)
    ensures
        r.len() == tools.len(),
        forall|i: int|
            0 <= i < tools.len() ==> (#[trigger] r@[i]).kind@ == "function"@ && r@[i].name@
                == tools@[i].name@ && r@[i].description@ == tools@[i].description@
                && r@[i].parameters == tools@[i].input_schema,
{
    let mut r: Vec<ChatTool> = Vec::new();
    let mut i: usize = 0;
    while i < tools.len()
        invariant
            i <= tools.len(),
            r.len() == i,
            forall|j: int|
                0 <= j < i ==> (#[trigger] r@[j]).kind@ == "function"@ && r@[j].name@
                    == tools@[j].name@ && r@[j].description@ == tools@[j].description@
                    && r@[j].parameters == tools@[j].input_schema,
        decreases tools.len() - i,
    {
        let t = &tools[i];
        r.push(
            ChatTool {
                kind: "function".to_owned(),
                name: t.name.clone(),
                description: t.description.clone(),
                parameters: t.input_schema.clone(),
            },
        );
        i = i + 1;
    }
    r
}

/// A successful reply, as read from its JSON body: its first choice's
/// message, its model and its token usage (prompt, completion), each when
/// the reply has one.
pub struct ChatReply {
    pub message: Option<ChoiceMessage>,
    pub model: Option<String>,
    pub usage: Option<(u32, u32)>,
}

/// `text` and `calls` are what the first choice `message` holds.
pub open spec fn choice_parts(message: Option<ChoiceMessage>, text: Seq<char>, calls: Seq<ToolCall>) -> bool {
    &&& text == match message {
        Some(m) => match m.content {
            Some(c) => c@,
            None => Seq::empty(),
        },
        None => Seq::empty(),
    }
    &&& calls.len() == match message {
        Some(m) => m.tool_calls.len(),
        None => 0,
    }
    &&& message matches Some(m) ==> forall|i: int|
        0 <= i < calls.len() ==> (#[trigger] calls[i]).id@ == m.tool_calls@[i].id@ && calls[i].name@
            == m.tool_calls@[i].name@ && calls[i].input == json_value_or_null(
            m.tool_calls@[i].arguments@,
        )
}

/// What a request for `request_model` comes to, from the reply's HTTP
/// status, its body, and the body read as a reply (its error text when it
/// cannot be): any status but 200 is the provider's error with the body as
/// its message; on 200 a body that cannot be read is an HTTP error, and one
/// that can gives its first choice's text and tool calls, its model (the
/// requested one when it names none) and its token counts (0 without
/// usage).
pub fn reply_outcome(
    status: u16,
    body: String,
    request_model: &str,
    reply: Result<ChatReply, String>,
) -> (r: Result<LlmResponse, InferenceError>)
    ensures
        status != 200 ==> (r matches Err(InferenceError::Llm { status: s, message: m }) && s
            == status && m@ == body@),
        status == 200 ==> match reply {
            Err(e) => r matches Err(InferenceError::Http(m)) && m@ == e@,
            Ok(c) => r matches Ok(resp) && choice_parts(c.message, resp.text@, resp.tool_calls@)
                && resp.model@ == match c.model {
                Some(m) => m@,
                None => request_model@,
            } && resp.input_tokens == match c.usage {
                Some(u) => u.0,
                None => 0,
            } && resp.output_tokens == match c.usage {
                Some(u) => u.1,
                None => 0,
            },
        },
{
    if status != 200 {
        return Err(InferenceError::Llm { status, message: body });
    }
    match reply {
        Err(e) => Err(InferenceError::Http(e)),
        Ok(c) => {
            let (text, tool_calls) = reply_parts(c.message);
            let model = match c.model {
                Some(m) => m,
                None => request_model.to_owned(),
            };
            let (input_tokens, output_tokens) = match c.usage {
                Some(u) => u,
                None => (0, 0),
            };
            Ok(LlmResponse { text, tool_calls, model, input_tokens, output_tokens })
        },
    }
}

} // verus!
