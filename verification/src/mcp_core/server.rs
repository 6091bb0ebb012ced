//! MCP request routing for a tools-only server: the `initialize` handshake
//! with protocol-version negotiation, `ping`, `tools/list` and `tools/call`.
//!
//! A line is read here and a request is routed to a [`Reply`]; the caller
//! gives a request its serde form, runs the tool that a `tools/call` names,
//! and writes replies out.
use vstd::prelude::*;
use vstd::string::*;
use serde_json::Value;
use crate::text::{str_eq, trim, trim_spec};
use crate::inference::json::{
    json_as_str, json_empty_object, json_value_or_null, json_get, json_parse, json_member, json_parse_outcome,
    member_str,
};

verus! {

/// JSON-RPC: the message is not JSON.
pub const PARSE_ERROR: i64 = -32700;

/// JSON-RPC: no such method.
pub const METHOD_NOT_FOUND: i64 = -32601;

/// JSON-RPC: the parameters do not fit the method.
pub const INVALID_PARAMS: i64 = -32602;

/// JSON-RPC: the server failed inside.
pub const INTERNAL_ERROR: i64 = -32603;

/// The newest protocol revision the server speaks.
pub const LATEST_PROTOCOL_VERSION: &'static str = "2025-06-18";

/// The protocol revisions the server speaks.
pub open spec fn supported_version(v: Seq<char>) -> bool {
    v == "2025-06-18"@ || v == "2025-03-26"@ || v == "2024-11-05"@
}

/// Whether the server speaks protocol revision `v`.
pub fn is_supported_version(v: &str) -> (b: bool)
    ensures
        b == supported_version(v@),
{
    str_eq(v, "2025-06-18") || str_eq(v, "2025-03-26") || str_eq(v, "2024-11-05")
}

/// The revision answered to a client that asks for `requested`: the one it
/// asks for when the server speaks it, else the newest.
pub open spec fn negotiated(requested: Option<Seq<char>>) -> Seq<char> {
    match requested {
        Some(v) => if supported_version(v) {
            v
        } else {
            LATEST_PROTOCOL_VERSION@
        },
        None => LATEST_PROTOCOL_VERSION@,
    }
}

pub open spec fn opt_view(o: Option<String>) -> Option<Seq<char>> {
    match o {
        Some(s) => Some(s@),
        None => None,
    }
}

/// Negotiate the protocol revision.
pub fn negotiate_version(requested: Option<&str>) -> (r: String)
    ensures
        r@ == negotiated(
            match requested {
                Some(v) => Some(v@),
                None => None,
            },
        ),
{
    match requested {
        Some(v) => if is_supported_version(v) {
            v.to_owned()
        } else {
            LATEST_PROTOCOL_VERSION.to_owned()
        },
        None => LATEST_PROTOCOL_VERSION.to_owned(),
    }
}

/// A server as mathematical values: its name and version, its instructions,
/// and the names of its tools in registration order.
pub struct ServerView {
    pub name: Seq<char>,
    pub version: Seq<char>,
    pub instructions: Option<Seq<char>>,
    pub tools: Seq<Seq<char>>,
}

/// An MCP server: its identity, optional usage instructions, and the names
/// of its tools, in the order in which they were registered.  The tools
/// themselves are run by the caller, which keeps them in the same order.
pub struct McpServer {
    name: String,
    version: String,
    instructions: Option<String>,
    tools: Vec<String>,
}

pub open spec fn names_view(v: Seq<String>) -> Seq<Seq<char>> {
    v.map_values(|s: String| s@)
}

impl View for McpServer {
    type V = ServerView;

    closed spec fn view(&self) -> ServerView {
        ServerView {
            name: self.name@,
            version: self.version@,
            instructions: opt_view(self.instructions),
            tools: names_view(self.tools@),
        }
    }
}

impl McpServer {
    /// A server with no instructions and no tools.
    pub fn new(name: &str, version: &str) -> (s: McpServer)
        ensures
            s@ == (ServerView {
                name: name@,
                version: version@,
                instructions: None,
                tools: Seq::empty(),
            }),
    {
        let s = McpServer {
            name: name.to_owned(),
            version: version.to_owned(),
            instructions: None,
            tools: Vec::new(),
        };
        assert(names_view(s.tools@) =~= Seq::empty());
        s
    }

    /// Set the instructions returned from `initialize`.
    pub fn instructions(self, text: &str) -> (s: McpServer)
        ensures
            s@ == (ServerView { instructions: Some(text@), ..self@ }),
    {
        McpServer { instructions: Some(text.to_owned()), ..self }
    }

    /// Register a tool by its name (builder style).
    pub fn tool(self, name: &str) -> (s: McpServer)
        ensures
            s@ == (ServerView { tools: self@.tools.push(name@), ..self@ }),
    {
        let mut s = self;
        s.add_tool(name);
        s
    }

    /// Register a tool by its name.
    pub fn add_tool(&mut self, name: &str)
        ensures
            final(self)@ == (ServerView { tools: old(self)@.tools.push(name@), ..old(self)@ }),
    {
        let ghost before = self.tools@;
        self.tools.push(name.to_owned());
        assert(names_view(self.tools@) =~= names_view(before).push(name@));
    }

    /// The position of the first tool named `name`.
    fn find_tool(&self, name: &str) -> (r: Option<usize>)
        ensures
            r matches Some(i) ==> first_index_of(self@.tools, name@, i as int),
            r is None ==> !self@.tools.contains(name@),
    {
        let mut i: usize = 0;
        while i < self.tools.len()
            invariant
                i <= self.tools@.len(),
                forall|j: int| 0 <= j < i ==> #[trigger] self.tools@[j]@ != name@,
            decreases self.tools.len() - i,
        {
            if str_eq(self.tools[i].as_str(), name) {
                return Some(i);
            }
            i = i + 1;
        }
        proof {
            if self@.tools.contains(name@) {
                let k = choose|k: int| 0 <= k < self@.tools.len() && self@.tools[k] == name@;
                assert(self.tools@[k]@ == name@);
            }
        }
        None
    }
}

/// `i` is the first position of `name` in `tools`.
pub open spec fn first_index_of(tools: Seq<Seq<char>>, name: Seq<char>, i: int) -> bool {
    0 <= i < tools.len() && tools[i] == name && forall|j: int| 0 <= j < i ==> tools[j] != name
}

/// A JSON-RPC request: its id (absent for a notification), its method and
/// its parameters.
#[derive(Debug)]
pub struct Request {
    pub id: Option<Value>,
    pub method: String,
    pub params: Option<Value>,
}

/// What routing reads of a request's parameters: the protocol revision the
/// client asks for, the name of the tool to call, and its arguments.
#[derive(Debug)]
pub struct ParamFields {
    pub protocol_version: Option<String>,
    pub name: Option<String>,
    pub arguments: Option<Value>,
}

/// The reply due to a request.
#[derive(Debug)]
pub enum Reply {
    /// The answer to `initialize`.
    Initialize {
        id: Value,
        protocol_version: String,
        server_name: String,
        server_version: String,
        instructions: Option<String>,
    },
    /// The (empty) answer to `ping`.
    Pong { id: Value },
    /// The descriptors of all tools, in registration order.
    ToolList { id: Value },
    /// Run the tool at this position with these arguments and answer with
    /// what it returns.
    CallTool { id: Value, tool: usize, arguments: Value },
    /// A JSON-RPC error; a null id when `id` is `None`.
    Error { id: Option<Value>, code: i64, message: String },
}

/// `reply` is the JSON-RPC error `code` with `message` for request `id`.
pub open spec fn is_error(reply: Reply, id: Option<Value>, code: i64, message: Seq<char>) -> bool {
    reply matches Reply::Error { id: i, code: c, message: m } && i == id && c == code && m@
        == message
}

/// What a server answers to a request with id `id`, method `method`,
/// parameters present or not, and these readings of the parameters.
pub open spec fn routed(
    s: ServerView,
    id: Value,
    method: Seq<char>,
    has_params: bool,
    version: Option<Seq<char>>,
    name: Option<Seq<char>>,
    arguments: Option<Value>,
    reply: Reply,
) -> bool {
    if method == "initialize"@ {
        reply matches Reply::Initialize {
            id: i,
            protocol_version: pv,
            server_name: sn,
            server_version: sv,
            instructions: ins,
        } && i == id && pv@ == negotiated(version) && sn@ == s.name && sv@ == s.version
            && opt_view(ins) == s.instructions
    } else if method == "ping"@ {
        reply matches Reply::Pong { id: i } && i == id
    } else if method == "tools/list"@ {
        reply matches Reply::ToolList { id: i } && i == id
    } else if method == "tools/call"@ {
        if !has_params {
            is_error(reply, Some(id), INVALID_PARAMS, "missing params"@)
        } else {
            match name {
                None => is_error(reply, Some(id), INVALID_PARAMS, "missing tool name"@),
                Some(n) => if !s.tools.contains(n) {
                    is_error(reply, Some(id), INVALID_PARAMS, "unknown tool: "@ + n)
                } else {
                    reply matches Reply::CallTool { id: i, tool: t, arguments: a } && i == id
                        && first_index_of(s.tools, n, t as int) && (arguments matches Some(x)
                        ==> a == x) && (arguments is None ==> a == json_value_or_null(
                        seq!['{', '}'],
                    ))
                },
            }
        }
    } else {
        is_error(reply, Some(id), METHOD_NOT_FOUND, "method not found: "@ + method)
    }
}

/// The text `prefix` followed by `detail`.
fn joined(prefix: &str, detail: &str) -> (r: String)
    ensures
        r@ == prefix@ + detail@,
{
    let mut out = String::new();
    out.append(prefix);
    out.append(detail);
    out
}

/// The string member `key` of the parameters, if any.
pub open spec fn param_str(params: Option<Value>, key: Seq<char>) -> Option<Seq<char>> {
    match params {
        Some(p) => member_str(p, key),
        None => None,
    }
}

/// The member `arguments` of the parameters, if any.
pub open spec fn param_arguments(params: Option<Value>) -> Option<Value> {
    match params {
        Some(p) => json_member(p, "arguments"@),
        None => None,
    }
}

/// Read the parameters that routing needs: `protocolVersion` and `name` as
/// strings, and `arguments`.  Nothing is read when there are none.
pub fn param_fields(params: &Option<Value>) -> (f: ParamFields)
    ensures
        opt_view(f.protocol_version) == param_str(*params, "protocolVersion"@),
        opt_view(f.name) == param_str(*params, "name"@),
        f.arguments == param_arguments(*params),
{
    match params {
        None => ParamFields { protocol_version: None, name: None, arguments: None },
        Some(p) => {
            let protocol_version = match json_get(p, "protocolVersion") {
                Some(v) => match json_as_str(v) {
                    Some(s) => Some(s.to_owned()),
                    None => None,
                },
                None => None,
            };
            let name = match json_get(p, "name") {
                Some(v) => match json_as_str(v) {
                    Some(s) => Some(s.to_owned()),
                    None => None,
                },
                None => None,
            };
            let arguments = match json_get(p, "arguments") {
                Some(v) => Some(v.clone()),
                None => None,
            };
            ParamFields { protocol_version, name, arguments }
        },
    }
}

impl McpServer {
    /// Route a request, given the readings of its parameters: no reply to a
    /// notification; otherwise the reply that [`routed`] describes.
    pub fn route(&self, req: Request, fields: ParamFields) -> (r: Option<Reply>)
        ensures
            req.id is None ==> r is None,
            req.id matches Some(id) ==> (r matches Some(reply) && routed(
                self@,
                id,
                req.method@,
                req.params is Some,
                opt_view(fields.protocol_version),
                opt_view(fields.name),
                fields.arguments,
                reply,
            )),
    {
        let id = match req.id {
            None => {
                return None;
            },
            Some(id) => id,
        };
        let method = req.method.as_str();
        if str_eq(method, "initialize") {
            let protocol_version = match &fields.protocol_version {
                Some(v) => negotiate_version(Some(v.as_str())),
                None => negotiate_version(None),
            };
            Some(
                Reply::Initialize {
                    id,
                    protocol_version,
                    server_name: self.name.clone(),
                    server_version: self.version.clone(),
                    instructions: match &self.instructions {
                        Some(t) => Some(t.clone()),
                        None => None,
                    },
                },
            )
        } else if str_eq(method, "ping") {
            Some(Reply::Pong { id })
        } else if str_eq(method, "tools/list") {
            Some(Reply::ToolList { id })
        } else if str_eq(method, "tools/call") {
            if req.params.is_none() {
                return Some(
                    Reply::Error {
                        id: Some(id),
                        code: INVALID_PARAMS,
                        message: "missing params".to_owned(),
                    },
                );
            }
            match fields.name {
                None => Some(
                    Reply::Error {
                        id: Some(id),
                        code: INVALID_PARAMS,
                        message: "missing tool name".to_owned(),
                    },
                ),
                Some(n) => match self.find_tool(n.as_str()) {
                    None => Some(
                        Reply::Error {
                            id: Some(id),
                            code: INVALID_PARAMS,
                            message: joined("unknown tool: ", n.as_str()),
                        },
                    ),
                    Some(tool) => {
                        let arguments = match fields.arguments {
                            Some(a) => a,
                            None => json_empty_object(),
                        };
                        Some(Reply::CallTool { id, tool, arguments })
                    },
                },
            }
        } else {
            Some(
                Reply::Error {
                    id: Some(id),
                    code: METHOD_NOT_FOUND,
                    message: joined("method not found: ", method),
                },
            )
        }
    }

    /// Route a request: no reply to a notification; otherwise the reply that
    /// [`routed`] describes for the `protocolVersion`, `name` and
    /// `arguments` members of its parameters.
    pub fn handle_request(&self, req: Request) -> (r: Option<Reply>)
        ensures
            req.id is None ==> r is None,
            req.id matches Some(id) ==> (r matches Some(reply) && routed(
                self@,
                id,
                req.method@,
                req.params is Some,
                param_str(req.params, "protocolVersion"@),
                param_str(req.params, "name"@),
                param_arguments(req.params),
                reply,
            )),
    {
        let fields = param_fields(&req.params);
        self.route(req, fields)
    }
}

/// A registered tool is the one a call reaches: after a tool of a new name
/// is registered, a `tools/call` that names it is dispatched to it, at the
/// position it was registered at, with the arguments the call carries.
pub proof fn law_call_reaches_registered_tool(
    s: ServerView,
    name: Seq<char>,
    id: Value,
    version: Option<Seq<char>>,
    arguments: Value,
    reply: Reply,
)
    requires
        !s.tools.contains(name),
        routed(
            ServerView { tools: s.tools.push(name), ..s },
            id,
            "tools/call"@,
            true,
            version,
            Some(name),
            Some(arguments),
            reply,
        ),
    ensures
        reply matches Reply::CallTool { id: i, tool: t, arguments: a } && i == id && t
            == s.tools.len() && a == arguments,
{
    reveal_strlit("initialize");
    reveal_strlit("ping");
    reveal_strlit("tools/list");
    reveal_strlit("tools/call");
    let tools = s.tools.push(name);
    let sv = ServerView { tools: tools, ..s };
    assert("tools/call"@[0] != "initialize"@[0]);
    assert("tools/call"@.len() != "ping"@.len());
    assert("tools/call"@[6] != "tools/list"@[6]);
    assert(tools[s.tools.len() as int] == name);
    assert(sv.tools.contains(name));
    if let Reply::CallTool { id: i, tool: t, arguments: a } = reply {
        if t < s.tools.len() {
            assert(tools[t as int] == s.tools[t as int]);
            assert(s.tools.contains(name));
        }
    }
}

/// What an inbound line is.
#[derive(Debug)]
pub enum Inbound {
    /// Not JSON: answer with this parse error.
    Garbage(Reply),
    /// A blank line, or a message without a method (a response to a request
    /// the server never sends): no reply.
    Ignore,
    /// A message with a method, to be read as a request.
    Message(Value),
}

/// What a line is, given how serde_json read it (the value, or its account
/// of the failure) and, when it read, whether the value has a `method`
/// member: a parse error with a null id for text that is not JSON, nothing
/// to answer for a value without a method, and the value otherwise.
pub fn classify_line(parsed: Result<Value, String>, has_method: bool) -> (r: Inbound)
    ensures
        match parsed {
            Err(detail) => r matches Inbound::Garbage(reply) && is_error(
                reply,
                None,
                PARSE_ERROR,
                "parse error: "@ + detail@,
            ),
            Ok(v) => if has_method {
                r == Inbound::Message(v)
            } else {
                r is Ignore
            },
        },
{
    match parsed {
        Err(detail) => {
            let message = joined("parse error: ", detail.as_str());
            Inbound::Garbage(Reply::Error { id: None, code: PARSE_ERROR, message })
        },
        Ok(v) => if has_method {
            Inbound::Message(v)
        } else {
            Inbound::Ignore
        },
    }
}

/// What a line that is not blank is, given how serde_json reads it.
pub open spec fn line_outcome(line: Seq<char>, r: Inbound) -> bool {
    match json_parse_outcome(line) {
        Err(detail) => r matches Inbound::Garbage(reply) && is_error(
            reply,
            None,
            PARSE_ERROR,
            "parse error: "@ + detail,
        ),
        Ok(v) => if json_member(v, "method"@) is Some {
            r == Inbound::Message(v)
        } else {
            r is Ignore
        },
    }
}

/// Read one inbound line: a blank line is ignored; otherwise serde_json
/// reads it, and [`classify_line`] says what it is.
pub fn read_line(line: &str) -> (r: Inbound)
    ensures
        trim_spec(line@).len() == 0 ==> r is Ignore,
        trim_spec(line@).len() != 0 ==> line_outcome(line@, r),
{
    if trim(line).is_empty() {
        return Inbound::Ignore;
    }
    let parsed = json_parse(line);
    let has_method = match &parsed {
        Ok(v) => json_get(v, "method").is_some(),
        Err(_) => false,
    };
    classify_line(parsed, has_method)
}

/// The reply to a message that has a method but is not a request.
pub fn malformed_request(detail: &str) -> (r: Reply)
    ensures
        is_error(r, None, PARSE_ERROR, "malformed request: "@ + detail@),
{
    Reply::Error { id: None, code: PARSE_ERROR, message: joined("malformed request: ", detail) }
}

/// The reply when a response cannot be serialized.
pub fn serialization_failed(id: Option<Value>, detail: &str) -> (r: Reply)
    ensures
        is_error(r, id, INTERNAL_ERROR, "serialization error: "@ + detail@),
{
    Reply::Error { id, code: INTERNAL_ERROR, message: joined("serialization error: ", detail) }
}

} // verus!
