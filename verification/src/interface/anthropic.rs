//! The transcript in the shape of Anthropic's Messages API, and the reading
//! of its replies.
use vstd::prelude::*;
use vstd::string::*;
use serde_json::Value;
use crate::inference::llm::{
    Role, ContentBlock, Message, ToolCall, BlockView, blocks_view, texts_of, joined, Tool,
    LlmResponse,
};
use crate::inference::error::InferenceError;

verus! {

/// The Messages API endpoint.
pub const MESSAGES_URL: &'static str = "https://api.anthropic.com/v1/messages";

/// The API revision sent in the `anthropic-version` header.
pub const ANTHROPIC_VERSION: &'static str = "2023-06-01";

/// Backend for Anthropic's Messages API: the API key sent in the
/// `x-api-key` header.  The HTTP client is the caller's.
#[derive(Debug, Clone)]
pub struct AnthropicBackend {
    pub api_key: String,
}

impl AnthropicBackend {
    pub fn new(api_key: &str) -> (b: Self)
        ensures
            b.api_key@ == api_key@,
    {
        Self { api_key: api_key.to_owned() }
    }
}

/// Outgoing content blocks, in the shape the Messages API expects.
pub enum ApiContentBlock {
    Text { text: String },
    ToolUse { id: String, name: String, input: Value },
    ToolResult { tool_use_id: String, content: String, is_error: bool },
}

pub open spec fn api_block_view(b: ApiContentBlock) -> BlockView {
    match b {
        ApiContentBlock::Text { text } => BlockView::Text { text: text@ },
        ApiContentBlock::ToolUse { id, name, input } => BlockView::ToolUse {
            id: id@,
            name: name@,
            input,
        },
        ApiContentBlock::ToolResult { tool_use_id, content, is_error } => BlockView::ToolResult {
            tool_use_id: tool_use_id@,
            content: content@,
            is_error,
        },
    }
}

pub struct ApiMessage {
    pub role: &'static str,
    pub content: Vec<ApiContentBlock>,
}

/// An outgoing message: its role and its blocks.
pub struct ApiMessageView {
    pub role: Seq<char>,
    pub content: Seq<BlockView>,
}

pub open spec fn api_message_view(m: ApiMessage) -> ApiMessageView {
    ApiMessageView {
        role: m.role@,
        content: m.content@.map_values(|b: ApiContentBlock| api_block_view(b)),
    }
}

/// Concatenate the text blocks of a message.
pub fn concat_text(blocks: &[ContentBlock]) -> (r: String)
    ensures
        r@ == joined(texts_of(blocks_view(blocks@))),
{
    let mut out = String::new();
    let mut i: usize = 0;
    while i < blocks.len()
        invariant
            i <= blocks.len(),
            out@ == joined(texts_of(blocks_view(blocks@.subrange(0, i as int)))),
        decreases blocks.len() - i,
    {
        let ghost pre = blocks_view(blocks@.subrange(0, i as int));
        let ghost post = blocks_view(blocks@.subrange(0, i + 1));
        assert(post.drop_last() =~= pre);
        assert(post.last() == blocks@[i as int]@);
        match &blocks[i] {
            ContentBlock::Text { text } => {
                out.append(text.as_str());
                assert(texts_of(post) == texts_of(pre).push(text@));
                assert(texts_of(pre).push(text@).drop_last() =~= texts_of(pre));
            },
            _ => {
                assert(texts_of(post) =~= texts_of(pre));
            },
        }
        i = i + 1;
    }
    assert(blocks@.subrange(0, i as int) =~= blocks@);
    out
}

fn to_api_block(block: &ContentBlock) -> (r: ApiContentBlock)
    ensures
        api_block_view(r) == block@,
{
    match block {
        ContentBlock::Text { text } => ApiContentBlock::Text { text: text.clone() },
        ContentBlock::ToolUse { id, name, input } => ApiContentBlock::ToolUse {
            id: id.clone(),
            name: name.clone(),
            input: input.clone(),
        },
        ContentBlock::ToolResult { tool_use_id, content, is_error } => ApiContentBlock::ToolResult {
            tool_use_id: tool_use_id.clone(),
            content: content.clone(),
            is_error: *is_error,
        },
    }
}

/// The system prompt that a transcript carries: the text of its last system
/// message, if any.
pub open spec fn system_of(ms: Seq<Message>) -> Option<Seq<char>>
    decreases ms.len(),
{
    if ms.len() == 0 {
        None
    } else if ms.last().role == Role::System {
        Some(joined(texts_of(blocks_view(ms.last().content@))))
    } else {
        system_of(ms.drop_last())
    }
}

/// The outgoing messages of a transcript: every message but the system ones,
/// with its role and blocks.
pub open spec fn api_messages_of(ms: Seq<Message>) -> Seq<ApiMessageView>
    decreases ms.len(),
{
    if ms.len() == 0 {
        Seq::empty()
    } else if ms.last().role == Role::System {
        api_messages_of(ms.drop_last())
    } else {
        api_messages_of(ms.drop_last()).push(
            ApiMessageView {
                role: if ms.last().role == Role::User {
                    "user"@
                } else {
                    "assistant"@
                },
                content: blocks_view(ms.last().content@),
            },
        )
    }
}

/// Split a transcript for the Messages API, which carries the system prompt
/// as a top-level field rather than as a message.
pub fn request_parts(messages: &[Message]) -> (r: (Option<String>, Vec<ApiMessage>))
    ensures
        match r.0 {
            Some(s) => Some(s@),
            None => None::<Seq<char>>,
        } == system_of(messages@),
        r.1@.map_values(|m: ApiMessage| api_message_view(m)) == api_messages_of(messages@),
{
    let mut system: Option<String> = None;
    let mut out: Vec<ApiMessage> = Vec::new();
    let mut i: usize = 0;
    while i < messages.len()
        invariant
            i <= messages.len(),
            match system {
                Some(s) => Some(s@),
                None => None::<Seq<char>>,
            } == system_of(messages@.subrange(0, i as int)),
            out@.map_values(|m: ApiMessage| api_message_view(m)) == api_messages_of(
                messages@.subrange(0, i as int),
            ),
        decreases messages.len() - i,
    {
        let msg = &messages[i];
        let ghost pre = messages@.subrange(0, i as int);
        let ghost post = messages@.subrange(0, i + 1);
        assert(post.drop_last() =~= pre);
        assert(post.last() == *msg);
        if msg.role == Role::System {
            system = Some(concat_text(msg.content.as_slice()));
        } else {
            let role = match msg.role {
                Role::User => "user",
                _ => "assistant",
            };
            let mut blocks: Vec<ApiContentBlock> = Vec::new();
            let mut j: usize = 0;
            while j < msg.content.len()
                invariant
                    j <= msg.content.len(),
                    blocks@.map_values(|b: ApiContentBlock| api_block_view(b)) == blocks_view(
                        msg.content@.subrange(0, j as int),
                    ),
                decreases msg.content.len() - j,
            {
                let ghost before = blocks@.map_values(|b: ApiContentBlock| api_block_view(b));
                let b = to_api_block(&msg.content[j]);
                blocks.push(b);
                assert(blocks@.map_values(|b: ApiContentBlock| api_block_view(b)) =~= before.push(
                    msg.content@[j as int]@,
                ));
                assert(blocks_view(msg.content@.subrange(0, j + 1)) =~= blocks_view(
                    msg.content@.subrange(0, j as int),
                ).push(msg.content@[j as int]@));
                j = j + 1;
            }
            assert(msg.content@.subrange(0, j as int) =~= msg.content@);
            let ghost out0 = out@.map_values(|m: ApiMessage| api_message_view(m));
            let m = ApiMessage { role, content: blocks };
            out.push(m);
            assert(out@.map_values(|m: ApiMessage| api_message_view(m)) =~= out0.push(api_message_view(m)));
        }
        i = i + 1;
    }
    assert(messages@.subrange(0, i as int) =~= messages@);
    (system, out)
}

/// Incoming content blocks. Unknown block types are kept as `Other` and
/// ignored.
pub enum RespBlock {
    Text { text: String },
    ToolUse { id: String, name: String, input: Value },
    Other,
}

/// The texts of the text blocks of a reply, in order.
pub open spec fn reply_texts(bs: Seq<RespBlock>) -> Seq<Seq<char>>
    decreases bs.len(),
{
    if bs.len() == 0 {
        Seq::empty()
    } else {
        reply_texts(bs.drop_last()) + match bs.last() {
            RespBlock::Text { text } => seq![text@],
            _ => Seq::empty(),
        }
    }
}

/// The tool calls of a reply, in order, as (id, name, input).
pub open spec fn reply_calls(bs: Seq<RespBlock>) -> Seq<(Seq<char>, Seq<char>, Value)>
    decreases bs.len(),
{
    if bs.len() == 0 {
        Seq::empty()
    } else {
        reply_calls(bs.drop_last()) + match bs.last() {
            RespBlock::ToolUse { id, name, input } => seq![(id@, name@, input)],
            _ => Seq::empty(),
        }
    }
}

pub open spec fn call_triple(c: ToolCall) -> (Seq<char>, Seq<char>, Value) {
    (c.id@, c.name@, c.input)
}

/// The text (all text blocks joined) and the tool calls of a reply.
pub fn reply_parts(blocks: Vec<RespBlock>) -> (r: (String, Vec<ToolCall>))
    ensures
        r.0@ == joined(reply_texts(blocks@)),
        r.1@.map_values(|c: ToolCall| call_triple(c)) == reply_calls(blocks@),
        r.1.len() == blocks@.filter(tool_use_block()).len(),
        forall|i: int|
            0 <= i < r.1.len() ==> ((#[trigger] blocks@.filter(tool_use_block())[i]) matches RespBlock::ToolUse {
                id,
                name,
                input,
            } && r.1@[i].id@ == id@ && r.1@[i].name@ == name@ && r.1@[i].input == input),
{
    let ghost bs = blocks@;
    let mut text = String::new();
    let mut tool_calls: Vec<ToolCall> = Vec::new();
    let mut i: usize = 0;
    while i < blocks.len()
        invariant
            i <= blocks.len(),
            bs == blocks@,
            text@ == joined(reply_texts(bs.subrange(0, i as int))),
            tool_calls@.map_values(|c: ToolCall| call_triple(c)) == reply_calls(bs.subrange(0, i as int)),
        decreases blocks.len() - i,
    {
        let ghost pre = bs.subrange(0, i as int);
        let ghost post = bs.subrange(0, i + 1);
        assert(post.drop_last() =~= pre);
        let ghost calls0 = tool_calls@.map_values(|c: ToolCall| call_triple(c));
        match &blocks[i] {
            RespBlock::Text { text: t } => {
                text.append(t.as_str());
                assert(reply_texts(post) == reply_texts(pre).push(t@));
                assert(reply_texts(pre).push(t@).drop_last() =~= reply_texts(pre));
                assert(reply_calls(post) =~= reply_calls(pre));
            },
            RespBlock::ToolUse { id, name, input } => {
                let c = ToolCall { id: id.clone(), name: name.clone(), input: input.clone() };
                tool_calls.push(c);
                assert(tool_calls@.map_values(|c: ToolCall| call_triple(c)) =~= calls0.push(call_triple(c)));
                assert(reply_texts(post) =~= reply_texts(pre));
            },
            RespBlock::Other => {
                assert(reply_texts(post) =~= reply_texts(pre));
                assert(reply_calls(post) =~= reply_calls(pre));
            },
        }
        i = i + 1;
    }
    assert(bs.subrange(0, i as int) =~= bs);
    proof {
        law_reply_reads_every_block(bs);
        let cs = tool_calls@.map_values(|c: ToolCall| call_triple(c));
        assert(cs.len() == tool_calls@.len());
        assert forall|k: int| 0 <= k < tool_calls.len() implies ((#[trigger] bs.filter(
            tool_use_block(),
        )[k]) matches RespBlock::ToolUse { id, name, input } && tool_calls@[k].id@ == id@
            && tool_calls@[k].name@ == name@ && tool_calls@[k].input == input) by {
            assert(cs[k] == call_triple(tool_calls@[k]));
        }
    }
    (text, tool_calls)
}

// ── What a reply holds ─────────────────────────────────────────────────────

/// Which reply blocks are tool calls.
pub open spec fn tool_use_block() -> spec_fn(RespBlock) -> bool {
    |b: RespBlock| b is ToolUse
}

/// Which reply blocks are text.
pub open spec fn text_block() -> spec_fn(RespBlock) -> bool {
    |b: RespBlock| b is Text
}

/// The tool calls read from a reply are its `tool_use` blocks, every one of
/// them and nothing else, in the order they come: one call per block, with
/// that block's id, name and input.  Likewise its texts are the text of
/// each of its text blocks, in order.
pub proof fn law_reply_reads_every_block(bs: Seq<RespBlock>)
    ensures
        reply_calls(bs).len() == bs.filter(tool_use_block()).len(),
        forall|i: int|
            0 <= i < reply_calls(bs).len() ==> ((#[trigger] bs.filter(tool_use_block())[i]) matches RespBlock::ToolUse {
                id,
                name,
                input,
            } && reply_calls(bs)[i] == (id@, name@, input)),
        reply_texts(bs).len() == bs.filter(text_block()).len(),
        forall|i: int|
            0 <= i < reply_texts(bs).len() ==> ((#[trigger] bs.filter(text_block())[i]) matches RespBlock::Text {
                text,
            } && reply_texts(bs)[i] == text@),
    decreases bs.len(),
{
    reveal(Seq::filter);
    if bs.len() > 0 {
        let pre = bs.drop_last();
        law_reply_reads_every_block(pre);
        let uses = bs.filter(tool_use_block());
        let texts = bs.filter(text_block());
        assert(uses == if tool_use_block()(bs.last()) {
            pre.filter(tool_use_block()).push(bs.last())
        } else {
            pre.filter(tool_use_block())
        });
        assert(texts == if text_block()(bs.last()) {
            pre.filter(text_block()).push(bs.last())
        } else {
            pre.filter(text_block())
        });
        assert forall|i: int|
            0 <= i < reply_calls(bs).len() implies ((#[trigger] bs.filter(tool_use_block())[i]) matches RespBlock::ToolUse {
            id,
            name,
            input,
        } && reply_calls(bs)[i] == (id@, name@, input)) by {
            if i < reply_calls(pre).len() {
                assert(pre.filter(tool_use_block())[i] == uses[i]);
            }
        }
        assert forall|i: int|
            0 <= i < reply_texts(bs).len() implies ((#[trigger] bs.filter(text_block())[i]) matches RespBlock::Text {
            text,
        } && reply_texts(bs)[i] == text@) by {
            if i < reply_texts(pre).len() {
                assert(pre.filter(text_block())[i] == texts[i]);
            }
        }
    }
}

// ── The tools on offer, and the outcome of a request ──────────────────────

/// A tool as the Messages API lists it.
pub struct ApiTool {
    pub name: String,
    pub description: String,
    pub input_schema: Value,
}

/// The tools of a request, one for one and in order, as the Messages API
/// lists them.
pub fn api_tools(tools: &[Tool]) -> (r: Vec<ApiTool>)
    ensures
        r.len() == tools.len(),
        forall|i: int|
            0 <= i < tools.len() ==> (#[trigger] r@[i]).name@ == tools@[i].name@ && r@[i].description@
                == tools@[i].description@ && r@[i].input_schema == tools@[i].input_schema,
{
    let mut r: Vec<ApiTool> = Vec::new();
    let mut i: usize = 0;
    while i < tools.len()
        invariant
            i <= tools.len(),
            r.len() == i,
            forall|j: int|
                0 <= j < i ==> (#[trigger] r@[j]).name@ == tools@[j].name@ && r@[j].description@
                    == tools@[j].description@ && r@[j].input_schema == tools@[j].input_schema,
        decreases tools.len() - i,
    {
        let t = &tools[i];
        r.push(
            ApiTool {
                name: t.name.clone(),
                description: t.description.clone(),
                input_schema: t.input_schema.clone(),
            },
        );
        i = i + 1;
    }
    r
}

/// A successful reply, as read from its JSON body.
pub struct ApiReply {
    pub content: Vec<RespBlock>,
    pub model: String,
    pub input_tokens: u32,
    pub output_tokens: u32,
}

/// `text` and `calls` are what the blocks `bs` of a reply hold.
pub open spec fn parts_of(bs: Seq<RespBlock>, text: Seq<char>, calls: Seq<ToolCall>) -> bool {
    &&& text == joined(reply_texts(bs))
    &&& calls.map_values(|c: ToolCall| call_triple(c)) == reply_calls(bs)
}

/// What a request comes to, from the reply's HTTP status, its body, and
/// the body read as a reply (its error text when it cannot be): any status
/// but 200 is the provider's error with the body as its message; on 200 a
/// body that cannot be read is an HTTP error, and one that can gives the
/// text, tool calls, model and token counts it holds.
pub fn reply_outcome(status: u16, body: String, reply: Result<ApiReply, String>) -> (r: Result<
    LlmResponse,
    InferenceError,
>)
    ensures
        status != 200 ==> (r matches Err(InferenceError::Llm { status: s, message: m }) && s
            == status && m@ == body@),
        status == 200 ==> match reply {
            Err(e) => r matches Err(InferenceError::Http(m)) && m@ == e@,
            Ok(a) => r matches Ok(resp) && parts_of(a.content@, resp.text@, resp.tool_calls@)
                && resp.model@ == a.model@ && resp.input_tokens == a.input_tokens
                && resp.output_tokens == a.output_tokens,
        },
{
    if status != 200 {
        return Err(InferenceError::Llm { status, message: body });
    }
    match reply {
        Err(e) => Err(InferenceError::Http(e)),
        Ok(a) => {
            let (text, tool_calls) = reply_parts(a.content);
            Ok(
                LlmResponse {
                    text,
                    tool_calls,
                    model: a.model,
                    input_tokens: a.input_tokens,
                    output_tokens: a.output_tokens,
                },
            )
        },
    }
}

} // verus!
