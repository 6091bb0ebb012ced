//! The provider-neutral transcript that the inference engine keeps with a
//! model: roles, content blocks, messages, tool calls and their results.
use vstd::prelude::*;
use vstd::string::*;
use serde_json::Value;
use crate::inference::json::{json_as_str, json_text, json_str, json_rendering, json_string};

verus! {

#[derive(Debug, Clone, Copy, PartialEq, Eq, Structural)]
pub enum Role {
    System,
    User,
    Assistant,
}

/// A single block of message content. Tool calls and tool results are
/// first-class content rather than JSON smuggled through text, which gives
/// the model a hard structural boundary between harness tools and the
/// Clojure code it reads and writes.
#[derive(Debug, Clone)]
pub enum ContentBlock {
    /// Natural-language text.
    Text { text: String },
    /// A tool invocation requested by the assistant.
    ToolUse { id: String, name: String, input: Value },
    /// The result of a tool invocation, sent back to the assistant.
    ToolResult { tool_use_id: String, content: String, is_error: bool },
}

/// A content block with its strings as characters.
pub enum BlockView {
    Text { text: Seq<char> },
    ToolUse { id: Seq<char>, name: Seq<char>, input: Value },
    ToolResult { tool_use_id: Seq<char>, content: Seq<char>, is_error: bool },
}

impl View for ContentBlock {
    type V = BlockView;

    open spec fn view(&self) -> BlockView {
        match self {
            ContentBlock::Text { text } => BlockView::Text { text: text@ },
            ContentBlock::ToolUse { id, name, input } => BlockView::ToolUse {
                id: id@,
                name: name@,
                input: *input,
            },
            ContentBlock::ToolResult { tool_use_id, content, is_error } => BlockView::ToolResult {
                tool_use_id: tool_use_id@,
                content: content@,
                is_error: *is_error,
            },
        }
    }
}

pub open spec fn blocks_view(bs: Seq<ContentBlock>) -> Seq<BlockView> {
    bs.map_values(|b: ContentBlock| b@)
}

#[derive(Debug, Clone)]
pub struct Message {
    pub role: Role,
    pub content: Vec<ContentBlock>,
}

/// A tool invocation requested by the model.
#[derive(Debug, Clone)]
pub struct ToolCall {
    pub id: String,
    pub name: String,
    pub input: Value,
}

/// The result of executing a tool.
#[derive(Debug, Clone)]
pub struct ToolResult {
    pub call_id: String,
    pub output: Value,
    pub is_error: bool,
}

impl ToolResult {
    /// A successful result of the call `call_id`, carrying `output`.
    pub fn ok(call_id: &str, output: Value) -> (r: Self)
        ensures
            r.call_id@ == call_id@,
            r.output == output,
            !r.is_error,
    {
        ToolResult { call_id: call_id.to_owned(), output, is_error: false }
    }

    /// A failed result of the call `call_id`, carrying the error text as a
    /// JSON string.
    pub fn err(call_id: &str, message: String) -> (r: Self)
        ensures
            r.call_id@ == call_id@,
            json_str(r.output) == Some(message@),
            r.is_error,
    {
        ToolResult { call_id: call_id.to_owned(), output: json_string(message), is_error: true }
    }
}

/// Descriptor for a tool the model may invoke.
#[derive(Debug, Clone)]
pub struct Tool {
    pub name: String,
    pub description: String,
    pub input_schema: Value,
}

/// A request to the model: the transcript, the tools on offer, the model
/// and the most tokens it may answer with.  The sampling temperature, a
/// float, is the caller's to add.
#[derive(Debug, Clone)]
pub struct LlmRequest {
    pub messages: Vec<Message>,
    pub tools: Vec<Tool>,
    pub model: String,
    pub max_tokens: u32,
}

/// A copy of the block `b`.
pub fn copy_block(b: &ContentBlock) -> (r: ContentBlock)
    ensures
        r@ == b@,
{
    match b {
        ContentBlock::Text { text } => ContentBlock::Text { text: text.clone() },
        ContentBlock::ToolUse { id, name, input } => ContentBlock::ToolUse {
            id: id.clone(),
            name: name.clone(),
            input: input.clone(),
        },
        ContentBlock::ToolResult { tool_use_id, content, is_error } => ContentBlock::ToolResult {
            tool_use_id: tool_use_id.clone(),
            content: content.clone(),
            is_error: *is_error,
        },
    }
}

/// A copy of the message `m`: its role, and a copy of each block.
pub fn copy_message(m: &Message) -> (r: Message)
    ensures
        r.role == m.role,
        blocks_view(r.content@) == blocks_view(m.content@),
{
    let mut content: Vec<ContentBlock> = Vec::new();
    let mut i: usize = 0;
    while i < m.content.len()
        invariant
            i <= m.content.len(),
            blocks_view(content@) == blocks_view(m.content@.subrange(0, i as int)),
        decreases m.content.len() - i,
    {
        let ghost pre = content@;
        let c = copy_block(&m.content[i]);
        content.push(c);
        assert(blocks_view(content@) =~= blocks_view(pre).push(c@));
        assert(blocks_view(m.content@.subrange(0, i + 1)) =~= blocks_view(
            m.content@.subrange(0, i as int),
        ).push(m.content@[i as int]@));
        i = i + 1;
    }
    assert(m.content@.subrange(0, i as int) =~= m.content@);
    Message { role: m.role, content }
}

/// What the model answered in one turn.
#[derive(Debug, Clone)]
pub struct LlmResponse {
    /// Assistant text for this turn; may be empty when the turn is a pure tool
    /// call.
    pub text: String,
    /// Tool calls the model requested this turn. An empty vec means the turn is
    /// final and `text` is the answer.
    pub tool_calls: Vec<ToolCall>,
    pub model: String,
    pub input_tokens: u32,
    pub output_tokens: u32,
}

/// The `tool_use` block that a tool call becomes.
pub open spec fn call_block(c: ToolCall) -> BlockView {
    BlockView::ToolUse { id: c.id@, name: c.name@, input: c.input }
}

/// The blocks of an assistant turn: its text when there is any, then one
/// `tool_use` block per call.
pub open spec fn assistant_turn_blocks(text: Seq<char>, calls: Seq<ToolCall>) -> Seq<BlockView> {
    (if text.len() > 0 {
        seq![BlockView::Text { text }]
    } else {
        Seq::empty()
    }) + calls.map_values(|c: ToolCall| call_block(c))
}

/// Which blocks are tool calls.
pub open spec fn tool_use_view() -> spec_fn(BlockView) -> bool {
    |b: BlockView| b is ToolUse
}

/// Keeping the elements that satisfy `pred` keeps all of a sequence whose
/// elements all do.
pub proof fn lemma_filter_keeps_all<A>(s: Seq<A>, pred: spec_fn(A) -> bool)
    requires
        forall|i: int| 0 <= i < s.len() ==> pred(#[trigger] s[i]),
    ensures
        s.filter(pred) == s,
    decreases s.len(),
{
    reveal(Seq::filter);
    if s.len() > 0 {
        lemma_filter_keeps_all(s.drop_last(), pred);
        assert(s.drop_last().push(s.last()) =~= s);
    }
}

/// The assistant's turn holds every tool call of the reply: one `tool_use`
/// block per call, with the call's id, name and input, in the order of the
/// calls, after the reply's text (a block of its own when there is any);
/// nothing else.
pub proof fn law_assistant_turn_holds_every_call(text: Seq<char>, calls: Seq<ToolCall>)
    ensures
        assistant_turn_blocks(text, calls).len() == (if text.len() > 0 {
            1int
        } else {
            0int
        }) + calls.len(),
        text.len() > 0 ==> assistant_turn_blocks(text, calls)[0] == (BlockView::Text { text }),
        assistant_turn_blocks(text, calls).filter(tool_use_view()).len() == calls.len(),
        forall|i: int|
            0 <= i < calls.len() ==> #[trigger] assistant_turn_blocks(text, calls).filter(
                tool_use_view(),
            )[i] == (BlockView::ToolUse {
                id: calls[i].id@,
                name: calls[i].name@,
                input: calls[i].input,
            }),
{
    reveal(Seq::filter);
    let head = if text.len() > 0 {
        seq![BlockView::Text { text }]
    } else {
        Seq::<BlockView>::empty()
    };
    let uses = calls.map_values(|c: ToolCall| call_block(c));
    assert(assistant_turn_blocks(text, calls) == head + uses);
    Seq::filter_distributes_over_add(head, uses, tool_use_view());
    lemma_filter_keeps_all(uses, tool_use_view());
    if text.len() > 0 {
        assert(head.drop_last() =~= Seq::<BlockView>::empty());
        assert(Seq::<BlockView>::empty().filter(tool_use_view()) =~= Seq::<BlockView>::empty());
        assert(!tool_use_view()(head.last()));
        assert(head.filter(tool_use_view()) =~= Seq::<BlockView>::empty());
    } else {
        assert(head.filter(tool_use_view()) =~= Seq::<BlockView>::empty());
    }
    assert(head.filter(tool_use_view()) + uses =~= uses);
}

/// `b` is the `tool_result` block for `r`: it carries `r`'s call id and error
/// flag.
pub open spec fn answers(b: BlockView, r: ToolResult) -> bool {
    b matches BlockView::ToolResult { tool_use_id, content, is_error } && tool_use_id == r.call_id@
        && content == result_text(r.output) && is_error == r.is_error
}

/// The text a tool result is sent as: a JSON string's own text, unquoted;
/// any other value's JSON rendering.
pub open spec fn result_text(output: Value) -> Seq<char> {
    match json_str(output) {
        Some(s) => s,
        None => json_rendering(output),
    }
}

impl Message {
    fn text(role: Role, text: &str) -> (r: Self)
        ensures
            r.role == role,
            blocks_view(r.content@) == seq![BlockView::Text { text: text@ }],
    {
        let r = Self { role, content: vec![ContentBlock::Text { text: text.to_owned() }] };
        assert(blocks_view(r.content@) =~= seq![BlockView::Text { text: text@ }]);
        r
    }

    pub fn system(text: &str) -> (r: Self)
        ensures
            r.role == Role::System,
            blocks_view(r.content@) == seq![BlockView::Text { text: text@ }],
    {
        Self::text(Role::System, text)
    }

    pub fn user(text: &str) -> (r: Self)
        ensures
            r.role == Role::User,
            blocks_view(r.content@) == seq![BlockView::Text { text: text@ }],
    {
        Self::text(Role::User, text)
    }

    pub fn assistant(text: &str) -> (r: Self)
        ensures
            r.role == Role::Assistant,
            blocks_view(r.content@) == seq![BlockView::Text { text: text@ }],
    {
        Self::text(Role::Assistant, text)
    }

    /// Reconstruct an assistant turn from a model response: any leading text
    /// followed by the `tool_use` blocks the model emitted. Appending this to
    /// the running transcript keeps the follow-up `tool_result` blocks aligned
    /// to their call ids.
    pub fn assistant_turn(text: &str, tool_calls: &[ToolCall]) -> (r: Self)
        ensures
            r.role == Role::Assistant,
            blocks_view(r.content@) == assistant_turn_blocks(text@, tool_calls@),
            r.content.len() == (if text@.len() > 0 {
                1int
            } else {
                0int
            }) + tool_calls.len(),
            blocks_view(r.content@).filter(tool_use_view()).len() == tool_calls.len(),
            forall|i: int|
                0 <= i < tool_calls.len() ==> #[trigger] blocks_view(r.content@).filter(
                    tool_use_view(),
                )[i] == (BlockView::ToolUse {
                    id: tool_calls@[i].id@,
                    name: tool_calls@[i].name@,
                    input: tool_calls@[i].input,
                }),
    {
        let mut content: Vec<ContentBlock> = Vec::new();
        if !text.is_empty() {
            content.push(ContentBlock::Text { text: text.to_owned() });
        }
        let ghost head = blocks_view(content@);
        let mut i: usize = 0;
        while i < tool_calls.len()
            invariant
                i <= tool_calls.len(),
                head == (if text@.len() > 0 {
                    seq![BlockView::Text { text: text@ }]
                } else {
                    Seq::<BlockView>::empty()
                }),
                blocks_view(content@) == head + tool_calls@.subrange(0, i as int).map_values(
                    |c: ToolCall| call_block(c),
                ),
            decreases tool_calls.len() - i,
        {
            let call = &tool_calls[i];
            let ghost before = content@;
            let id = call.id.clone();
            let name = call.name.clone();
            let input = call.input.clone();
            assert(input == call.input);
            let block = ContentBlock::ToolUse { id, name, input };
            assert(block@ == call_block(*call));
            content.push(block);
            assert(blocks_view(content@) =~= blocks_view(before).push(call_block(*call)));
            assert(tool_calls@.subrange(0, i + 1).map_values(|c: ToolCall| call_block(c))
                =~= tool_calls@.subrange(0, i as int).map_values(|c: ToolCall| call_block(c)).push(
                call_block(*call),
            ));
            assert(blocks_view(content@) =~= head + tool_calls@.subrange(0, i + 1).map_values(
                |c: ToolCall| call_block(c),
            ));
            i = i + 1;
        }
        assert(tool_calls@.subrange(0, i as int) =~= tool_calls@);
        proof {
            law_assistant_turn_holds_every_call(text@, tool_calls@);
            assert(blocks_view(content@).len() == content@.len());
        }
        Self { role: Role::Assistant, content }
    }

    /// A user turn carrying the results of the tool calls just executed, one
    /// `tool_result` block per result, in order.
    pub fn tool_results(results: &[ToolResult]) -> (r: Self)
        ensures
            r.role == Role::User,
            r.content.len() == results.len(),
            forall|i: int|
                0 <= i < results.len() ==> answers(#[trigger] r.content@[i]@, results@[i]),
    {
        let mut content: Vec<ContentBlock> = Vec::new();
        let mut i: usize = 0;
        while i < results.len()
            invariant
                i <= results.len(),
                content.len() == i,
                forall|k: int| 0 <= k < i ==> answers(#[trigger] content@[k]@, results@[k]),
            decreases results.len() - i,
        {
            let r = &results[i];
            content.push(
                ContentBlock::ToolResult {
                    tool_use_id: r.call_id.clone(),
                    content: tool_result_text(&r.output),
                    is_error: r.is_error,
                },
            );
            i = i + 1;
        }
        Self { role: Role::User, content }
    }
}

/// Render a tool-result payload as the string body providers expect: JSON
/// strings pass through unquoted, everything else is serialized.
fn tool_result_text(output: &Value) -> (r: String)
    ensures
        r@ == result_text(*output),
{
    match json_as_str(output) {
        Some(s) => s.to_owned(),
        None => json_text(output),
    }
}

/// The texts of the text blocks, in order.
pub open spec fn texts_of(bs: Seq<BlockView>) -> Seq<Seq<char>>
    decreases bs.len(),
{
    if bs.len() == 0 {
        Seq::empty()
    } else {
        texts_of(bs.drop_last()) + match bs.last() {
            BlockView::Text { text } => seq![text],
            _ => Seq::empty(),
        }
    }
}

/// The texts joined end to end.
pub open spec fn joined(ts: Seq<Seq<char>>) -> Seq<char>
    decreases ts.len(),
{
    if ts.len() == 0 {
        Seq::empty()
    } else {
        joined(ts.drop_last()) + ts.last()
    }
}

} // verus!
