//! The client side of the Model Context Protocol: the JSON-RPC requests a
//! client sends, how it reads the replies, and the decisions of the node that
//! calls tools on a server.

use vstd::prelude::*;
use crate::errors::FlowError;
use crate::json::{
    JsonModel, JsonNumber, JsonValue, entry_models_of, lemma_entry_models_of, lemma_models_of,
    model_get, model_get_str, models_of,
};
use crate::sync::base_node::Shared;
use crate::strmap::StrMap;

verus! {

/// How a client connects to a server, and how it introduces itself.
#[derive(Debug)]
pub struct MCPClientConfig {
    /// The server to connect to.
    pub server_name: Option<String>,
    /// The command that launches the server.
    pub server_command: Option<String>,
    /// The arguments of that command.
    pub server_args: Vec<String>,
    /// The name the client introduces itself with.
    pub client_name: String,
    /// The version the client introduces itself with.
    pub client_version: String,
}

impl MCPClientConfig {
    /// A configuration with no server, for a client of the given name and
    /// version.
    pub fn new(client_name: &str, client_version: &str) -> (c: Self)
        ensures
            c.server_name is None,
            c.server_command is None,
            c.server_args@.len() == 0,
            c.client_name@ == client_name@,
            c.client_version@ == client_version@,
    {
        MCPClientConfig {
            server_name: None,
            server_command: None,
            server_args: Vec::new(),
            client_name: client_name.to_owned(),
            client_version: client_version.to_owned(),
        }
    }

    /// The configuration with the given server name.
    pub fn with_server_name(self, server_name: &str) -> (c: Self)
        ensures
            c.server_name matches Some(n) && n@ == server_name@,
            c.server_command == self.server_command,
            c.server_args == self.server_args,
            c.client_name == self.client_name,
            c.client_version == self.client_version,
    {
        MCPClientConfig { server_name: Some(server_name.to_owned()), ..self }
    }

    /// The configuration that launches the server with `command` and `args`.
    pub fn with_server_command(self, command: &str, args: Vec<String>) -> (c: Self)
        ensures
            c.server_command matches Some(n) && n@ == command@,
            c.server_args == args,
            c.server_name == self.server_name,
            c.client_name == self.client_name,
            c.client_version == self.client_version,
    {
        MCPClientConfig { server_command: Some(command.to_owned()), server_args: args, ..self }
    }
}

impl Clone for MCPClientConfig {
    fn clone(&self) -> (c: Self)
        ensures
            c.server_name == self.server_name,
            c.server_command == self.server_command,
            c.server_args@ == self.server_args@,
            c.client_name == self.client_name,
            c.client_version == self.client_version,
    {
        let server_name = match &self.server_name {
            Some(n) => Some(n.clone()),
            None => None,
        };
        let server_command = match &self.server_command {
            Some(n) => Some(n.clone()),
            None => None,
        };
        let mut server_args: Vec<String> = Vec::new();
        let mut i: usize = 0;
        while i < self.server_args.len()
            invariant
                i <= self.server_args@.len(),
                server_args@ == self.server_args@.take(i as int),
            decreases self.server_args@.len() - i,
        {
            server_args.push(self.server_args[i].clone());
            proof {
                assert(server_args@ =~= self.server_args@.take(i + 1));
            }
            i = i + 1;
        }
        proof {
            assert(server_args@ =~= self.server_args@);
        }
        MCPClientConfig {
            server_name,
            server_command,
            server_args,
            client_name: self.client_name.clone(),
            client_version: self.client_version.clone(),
        }
    }
}

/// The error for a client that has lost, or never had, its connection.
pub fn server_conn_error(msg: &str) -> (e: FlowError)
    ensures
        e matches FlowError::MCPServer(t) && t@ == msg@,
{
    FlowError::MCPServer(msg.to_owned())
}

impl Default for MCPClientConfig {
    /// No server; the library's own client name and version.
    fn default() -> (c: Self)
        ensures
            c.server_name is None,
            c.server_command is None,
            c.server_args@.len() == 0,
            c.client_name@ == "RPocketFlow MCP Client"@,
            c.client_version@ == "0.1.0"@,
    {
        MCPClientConfig::new("RPocketFlow MCP Client", "0.1.0")
    }
}

/// What a server's reply carries.
#[derive(Debug)]
pub enum RpcReply {
    /// The "result" member.
    Success(JsonValue),
    /// The "error" member, when there is no result.
    Failure(JsonValue),
    /// Neither.
    Malformed,
}

/// Reads a reply: its result if it has one, else its error, else nothing.
pub fn classify_reply(response: &JsonValue) -> (r: RpcReply)
    ensures
        match model_get(response@, "result"@) {
            Some(x) => r matches RpcReply::Success(v) && v@ == x,
            None => match model_get(response@, "error"@) {
                Some(e) => r matches RpcReply::Failure(v) && v@ == e,
                None => r is Malformed,
            },
        },
{
    match response.get("result") {
        Some(x) => RpcReply::Success(x.deep_clone()),
        None => match response.get("error") {
            Some(e) => RpcReply::Failure(e.deep_clone()),
            None => RpcReply::Malformed,
        },
    }
}

/// The protocol error that reports a server's error: `context`, a colon,
/// and the error's text.
pub fn protocol_failure(context: &str, error_text: &str) -> (e: FlowError)
    ensures
        e matches FlowError::Protocol(t) && t@ == context@ + ": "@ + error_text@,
{
    let mut t = String::from_str(context);
    t.append(": ");
    t.append(error_text);
    FlowError::Protocol(t)
}

/// The protocol error for a reply with neither a result nor an error.
pub fn malformed_reply() -> (e: FlowError)
    ensures
        e matches FlowError::Protocol(t) && t@ == "Invalid response format"@,
{
    FlowError::Protocol(String::from_str("Invalid response format"))
}

/// What a reply gives the call that it answers: its result, or, for an
/// error, the protocol error that reports `error_text` (the text of its
/// "error" member) after `context`, or, for neither, a malformed reply.
pub open spec fn reply_outcome(
    response: JsonModel,
    context: Seq<char>,
    error_text: Seq<char>,
    r: Result<JsonValue, FlowError>,
) -> bool {
    match model_get(response, "result"@) {
        Some(x) => r matches Ok(v) && v@ == x,
        None => match model_get(response, "error"@) {
            Some(_) => r matches Err(FlowError::Protocol(t)) && t@ == context + ": "@ + error_text,
            None => r matches Err(FlowError::Protocol(t)) && t@ == "Invalid response format"@,
        },
    }
}

/// The outcome of a reply under `context`.
fn reply_result(response: &JsonValue, context: &str, error_text: &str) -> (r: Result<
    JsonValue,
    FlowError,
>)
    ensures
        reply_outcome(response@, context@, error_text@, r),
{
    match classify_reply(response) {
        RpcReply::Success(v) => Ok(v),
        RpcReply::Failure(_) => Err(protocol_failure(context, error_text)),
        RpcReply::Malformed => Err(malformed_reply()),
    }
}

/// What the reply to the initialization request gives: the server's
/// answer, or an "Initialization error" that reports `error_text`, the text
/// of the reply's "error" member.
pub fn initialization_result(response: &JsonValue, error_text: &str) -> (r: Result<
    JsonValue,
    FlowError,
>)
    ensures
        reply_outcome(response@, "Initialization error"@, error_text@, r),
{
    reply_result(response, "Initialization error", error_text)
}

/// What the reply to a tool call gives: the tool's result, or a "Tool call
/// error" that reports `error_text`, the text of the reply's "error" member.
pub fn tool_call_result(response: &JsonValue, error_text: &str) -> (r: Result<JsonValue, FlowError>)
    ensures
        reply_outcome(response@, "Tool call error"@, error_text@, r),
{
    reply_result(response, "Tool call error", error_text)
}

/// A JSON-RPC request.
pub open spec fn request_json(id: u64, method: Seq<char>, params: JsonModel) -> JsonModel {
    JsonModel::Object(
        seq![
            ("jsonrpc"@, JsonModel::Str("2.0"@)),
            ("id"@, JsonModel::Number(JsonNumber::PosInt(id))),
            ("method"@, JsonModel::Str(method)),
            ("params"@, params),
        ],
    )
}

/// A request holds "2.0" under "jsonrpc", its id under "id", its method
/// under "method" and its parameters under "params".
pub proof fn lemma_request_json_members(id: u64, method: Seq<char>, params: JsonModel)
    ensures
        model_get(request_json(id, method, params), "jsonrpc"@) == Some(JsonModel::Str("2.0"@)),
        model_get(request_json(id, method, params), "id"@) == Some(
            JsonModel::Number(JsonNumber::PosInt(id)),
        ),
        model_get(request_json(id, method, params), "method"@) == Some(JsonModel::Str(method)),
        model_get(request_json(id, method, params), "params"@) == Some(params),
{
    reveal_strlit("jsonrpc");
    reveal_strlit("id");
    reveal_strlit("method");
    reveal_strlit("params");
    assert("method"@[0] != "params"@[0]);
    let e = request_json(id, method, params)->Object_0;
    assert(e[0].0 == "jsonrpc"@);
    assert("jsonrpc"@ != "id"@);
    assert(e[0].0 != e[1].0 && e[0].0 != e[2].0 && e[0].0 != e[3].0);
    assert(e[1].0 != e[2].0 && e[1].0 != e[3].0 && e[2].0 != e[3].0);
    crate::json::lemma_object_members(e);
    assert(model_get(request_json(id, method, params), e[0].0) == Some(e[0].1));
    assert(model_get(request_json(id, method, params), e[1].0) == Some(e[1].1));
    assert(model_get(request_json(id, method, params), e[2].0) == Some(e[2].1));
    assert(model_get(request_json(id, method, params), e[3].0) == Some(e[3].1));
}

/// The parameters of an initialization request.
pub open spec fn initialize_params_json(client_name: Seq<char>, client_version: Seq<char>) -> JsonModel {
    JsonModel::Object(
        seq![
            ("clientName"@, JsonModel::Str(client_name)),
            ("clientVersion"@, JsonModel::Str(client_version)),
            ("capabilities"@, JsonModel::Object(Seq::empty())),
        ],
    )
}

/// The tools that the "tools" array of a listing names, by name, with their
/// descriptions; entries without a string name and description are skipped,
/// and a later entry wins over an earlier one of the same name.
pub open spec fn listing_entries(items: Seq<JsonModel>) -> Map<Seq<char>, Seq<char>>
    decreases items.len(),
{
    if items.len() == 0 {
        Map::empty()
    } else {
        let m = listing_entries(items.drop_last());
        match (model_get_str(items.last(), "name"@), model_get_str(items.last(), "description"@)) {
            (Some(n), Some(d)) => m.insert(n, d),
            _ => m,
        }
    }
}

/// The parameters of an initialization request hold the client's name under
/// "clientName", its version under "clientVersion", and an empty object
/// under "capabilities".
pub proof fn lemma_initialize_params_members(client_name: Seq<char>, client_version: Seq<char>)
    ensures
        initialize_params_json(client_name, client_version) is Object,
        model_get(initialize_params_json(client_name, client_version), "clientName"@) == Some(JsonModel::Str(client_name)),
        model_get(initialize_params_json(client_name, client_version), "clientVersion"@) == Some(JsonModel::Str(client_version)),
        model_get(initialize_params_json(client_name, client_version), "capabilities"@) == Some(JsonModel::Object(Seq::empty())),
{
    reveal_strlit("clientName");
    reveal_strlit("clientVersion");
    reveal_strlit("capabilities");
    let e = initialize_params_json(client_name, client_version)->Object_0;
    assert(e[0].0 == "clientName"@);
    assert(e[1].0 == "clientVersion"@);
    assert(e[2].0 == "capabilities"@);
    assert("clientName"@ != "clientVersion"@);
    assert("clientName"@ != "capabilities"@);
    assert("clientVersion"@ != "capabilities"@);
    crate::json::lemma_object_members(e);
    assert(model_get(initialize_params_json(client_name, client_version), e[0].0) == Some(e[0].1));
    assert(model_get(initialize_params_json(client_name, client_version), e[1].0) == Some(e[1].1));
    assert(model_get(initialize_params_json(client_name, client_version), e[2].0) == Some(e[2].1));
}

/// A tool call that the protocol node prepares holds the tool's name under
/// "tool_name" and the parameters under "params".
pub proof fn lemma_call_request_members(name: Seq<char>, params: JsonModel)
    ensures
        call_request_json(name, params) is Object,
        model_get(call_request_json(name, params), "tool_name"@) == Some(JsonModel::Str(name)),
        model_get(call_request_json(name, params), "params"@) == Some(params),
{
    reveal_strlit("tool_name");
    reveal_strlit("params");
    let e = call_request_json(name, params)->Object_0;
    assert(e[0].0 == "tool_name"@);
    assert(e[1].0 == "params"@);
    assert("tool_name"@ != "params"@);
    crate::json::lemma_object_members(e);
    assert(model_get(call_request_json(name, params), e[0].0) == Some(e[0].1));
    assert(model_get(call_request_json(name, params), e[1].0) == Some(e[1].1));
}

/// The report of a successful call holds the tool's name under "tool_name",
/// the result under "result" and "success" under "status".
pub proof fn lemma_success_report_members(name: Seq<char>, result: JsonModel)
    ensures
        success_report_json(name, result) is Object,
        model_get(success_report_json(name, result), "tool_name"@) == Some(JsonModel::Str(name)),
        model_get(success_report_json(name, result), "result"@) == Some(result),
        model_get(success_report_json(name, result), "status"@) == Some(JsonModel::Str("success"@)),
{
    reveal_strlit("tool_name");
    reveal_strlit("result");
    reveal_strlit("status");
    let e = success_report_json(name, result)->Object_0;
    assert(e[0].0 == "tool_name"@);
    assert(e[1].0 == "result"@);
    assert(e[2].0 == "status"@);
    assert("tool_name"@ != "result"@);
    assert("tool_name"@ != "status"@);
    assert("result"@[0] != "status"@[0]);
    assert("result"@ != "status"@);
    crate::json::lemma_object_members(e);
    assert(model_get(success_report_json(name, result), e[0].0) == Some(e[0].1));
    assert(model_get(success_report_json(name, result), e[1].0) == Some(e[1].1));
    assert(model_get(success_report_json(name, result), e[2].0) == Some(e[2].1));
}

/// The report of a failed call holds the tool's name under "tool_name", the
/// error's text under "error" and "error" under "status".
pub proof fn lemma_error_report_members(name: Seq<char>, error: Seq<char>)
    ensures
        error_report_json(name, error) is Object,
        model_get(error_report_json(name, error), "tool_name"@) == Some(JsonModel::Str(name)),
        model_get(error_report_json(name, error), "error"@) == Some(JsonModel::Str(error)),
        model_get(error_report_json(name, error), "status"@) == Some(JsonModel::Str("error"@)),
{
    reveal_strlit("tool_name");
    reveal_strlit("error");
    reveal_strlit("status");
    let e = error_report_json(name, error)->Object_0;
    assert(e[0].0 == "tool_name"@);
    assert(e[1].0 == "error"@);
    assert(e[2].0 == "status"@);
    assert("tool_name"@ != "error"@);
    assert("tool_name"@ != "status"@);
    assert("error"@ != "status"@);
    crate::json::lemma_object_members(e);
    assert(model_get(error_report_json(name, error), e[0].0) == Some(e[0].1));
    assert(model_get(error_report_json(name, error), e[1].0) == Some(e[1].1));
    assert(model_get(error_report_json(name, error), e[2].0) == Some(e[2].1));
}

/// The tools that a listing names.
pub open spec fn listed_tools(listing: JsonModel) -> Map<Seq<char>, Seq<char>> {
    match model_get(listing, "tools"@) {
        Some(JsonModel::Array(items)) => listing_entries(items),
        _ => Map::empty(),
    }
}

/// Whether the `i`-th entry of a listing names the tool `n`, with a string
/// description.
pub open spec fn lists_tool(items: Seq<JsonModel>, i: int, n: Seq<char>) -> bool {
    0 <= i < items.len() && model_get_str(items[i], "name"@) == Some(n) && model_get_str(
        items[i],
        "description"@,
    ) is Some
}

/// The `i`-th entry of a listing without its last entry is the `i`-th entry
/// of the listing.
proof fn lemma_lists_tool_prefix(items: Seq<JsonModel>, i: int, n: Seq<char>)
    requires
        items.len() > 0,
        0 <= i < items.len() - 1,
    ensures
        lists_tool(items.drop_last(), i, n) == lists_tool(items, i, n),
{
    assert(items.drop_last()[i] == items[i]);
}

/// Learning tools from a listing's entries: a name is learnt exactly when
/// some entry has it as a string "name" and has a string "description".
pub proof fn lemma_listing_entries_keys(items: Seq<JsonModel>, n: Seq<char>)
    ensures
        listing_entries(items).contains_key(n) <==> exists|i: int| #[trigger] lists_tool(items, i, n),
    decreases items.len(),
{
    if items.len() > 0 {
        let p = items.drop_last();
        let l = items.len() - 1;
        lemma_listing_entries_keys(p, n);
        if listing_entries(items).contains_key(n) && !lists_tool(items, l, n) {
            let i = choose|i: int| #[trigger] lists_tool(p, i, n);
            lemma_lists_tool_prefix(items, i, n);
            assert(lists_tool(items, i, n));
        }
        if exists|i: int| #[trigger] lists_tool(items, i, n) {
            let i = choose|i: int| #[trigger] lists_tool(items, i, n);
            if i < l {
                lemma_lists_tool_prefix(items, i, n);
                assert(lists_tool(p, i, n));
            }
        }
    }
}

/// Learning tools from a listing's entries: the description learnt for a
/// name is that of the last entry that lists it.
pub proof fn lemma_listing_entries_value(items: Seq<JsonModel>, i: int, n: Seq<char>)
    requires
        lists_tool(items, i, n),
        forall|j: int| i < j < items.len() ==> !#[trigger] lists_tool(items, j, n),
    ensures
        listing_entries(items).contains_key(n),
        Some(listing_entries(items)[n]) == model_get_str(items[i], "description"@),
    decreases items.len(),
{
    let p = items.drop_last();
    let l = items.len() - 1;
    if i < l {
        assert(!lists_tool(items, l, n));
        lemma_lists_tool_prefix(items, i, n);
        assert forall|j: int| i < j < p.len() implies !#[trigger] lists_tool(p, j, n) by {
            lemma_lists_tool_prefix(items, j, n);
        }
        lemma_listing_entries_value(p, i, n);
    }
}

/// Learning tools from a listing: when its "tools" member is an array, a
/// name is learnt exactly when some entry of the array has it as a string
/// "name" and has a string "description", and its description is that of
/// the last such entry; without such an array no tool is learnt.
pub proof fn lemma_listed_tools(listing: JsonModel)
    ensures
        !(model_get(listing, "tools"@) matches Some(JsonModel::Array(_))) ==> listed_tools(listing)
            == Map::<Seq<char>, Seq<char>>::empty(),
        model_get(listing, "tools"@) matches Some(JsonModel::Array(items)) ==> {
            &&& forall|n: Seq<char>|
                #![trigger listed_tools(listing).contains_key(n)]
                listed_tools(listing).contains_key(n) <==> exists|i: int| #[trigger] lists_tool(items, i, n)
            &&& forall|i: int, n: Seq<char>|
                #[trigger] lists_tool(items, i, n) && (forall|j: int|
                    i < j < items.len() ==> !lists_tool(items, j, n)) ==> Some(listed_tools(listing)[n])
                    == model_get_str(items[i], "description"@)
        },
{
    if let Some(JsonModel::Array(items)) = model_get(listing, "tools"@) {
        assert forall|n: Seq<char>|
            #![trigger listed_tools(listing).contains_key(n)]
            listed_tools(listing).contains_key(n) <==> exists|i: int| #[trigger] lists_tool(items, i, n) by {
            lemma_listing_entries_keys(items, n);
        }
        assert forall|i: int, n: Seq<char>|
            #[trigger] lists_tool(items, i, n) && (forall|j: int|
                i < j < items.len() ==> !lists_tool(items, j, n)) implies Some(listed_tools(listing)[n])
                == model_get_str(items[i], "description"@) by {
            lemma_listing_entries_value(items, i, n);
        }
    }
}

/// The texts of a map of strings.
pub open spec fn texts(m: Map<Seq<char>, String>) -> Map<Seq<char>, Seq<char>> {
    m.map_values(|s: String| s@)
}

/// An empty object.
fn empty_object() -> (v: JsonValue)
    ensures
        v@ == JsonModel::Object(Seq::empty()),
{
    let e: Vec<(String, JsonValue)> = Vec::new();
    proof {
        assert(entry_models_of(e@) =~= Seq::<(Seq<char>, JsonModel)>::empty());
    }
    JsonValue::Object(e)
}

/// What a client keeps of its exchange with a server: its configuration, the
/// tools it learnt of, the last result, and the id of its next request.
pub struct ProtocolState {
    pub config: MCPClientConfig,
    pub available_tools: StrMap<String>,
    pub last_result: Option<JsonValue>,
    pub next_id: u64,
}

impl ProtocolState {
    /// The state before any request: ids start at 1.
    pub fn new(config: MCPClientConfig) -> (s: Self)
        ensures
            s.config == config,
            s.available_tools@ == Map::<Seq<char>, String>::empty(),
            s.last_result is None,
            s.next_id == 1,
    {
        ProtocolState { config, available_tools: StrMap::new(), last_result: None, next_id: 1 }
    }

    /// The command that launches the server and its arguments; without one
    /// the client cannot start.
    pub fn server_launch(&self) -> (r: Result<(&String, &Vec<String>), FlowError>)
        ensures
            match self.config.server_command {
                Some(c) => r matches Ok((x, a)) && *x == c && *a == self.config.server_args,
                None => r matches Err(FlowError::MCPServer(t)) && t@
                    == "No server command specified"@,
            },
    {
        match &self.config.server_command {
            Some(c) => Ok((c, &self.config.server_args)),
            None => Err(FlowError::MCPServer(String::from_str("No server command specified"))),
        }
    }

    /// The next request, for `method` with `params`; each request takes the
    /// next id.
    pub fn request(&mut self, method: &str, params: JsonValue) -> (r: JsonValue)
        requires
            old(self).next_id < u64::MAX,
        ensures
            r@ == request_json(old(self).next_id, method@, params@),
            final(self).next_id == old(self).next_id + 1,
            final(self).config == old(self).config,
            final(self).available_tools == old(self).available_tools,
            final(self).last_result == old(self).last_result,
    {
        let mut e: Vec<(String, JsonValue)> = Vec::new();
        e.push((String::from_str("jsonrpc"), JsonValue::from_text("2.0")));
        e.push((String::from_str("id"), JsonValue::Number(JsonNumber::PosInt(self.next_id))));
        e.push((String::from_str("method"), JsonValue::from_text(method)));
        e.push((String::from_str("params"), params));
        proof {
            lemma_entry_models_of(e@);
            assert(entry_models_of(e@) =~= request_json(self.next_id, method@, e@[3].1@)->Object_0);
        }
        self.next_id = self.next_id + 1;
        JsonValue::Object(e)
    }

    /// The initialization request: the client's name and version, and no
    /// capabilities.
    pub fn initialize_request(&mut self) -> (r: JsonValue)
        requires
            old(self).next_id < u64::MAX,
        ensures
            r@ == request_json(
                old(self).next_id,
                "initialize"@,
                initialize_params_json(old(self).config.client_name@, old(self).config.client_version@),
            ),
            final(self).next_id == old(self).next_id + 1,
            final(self).config == old(self).config,
    {
        let mut e: Vec<(String, JsonValue)> = Vec::new();
        e.push((String::from_str("clientName"), JsonValue::String(self.config.client_name.clone())));
        e.push(
            (String::from_str("clientVersion"), JsonValue::String(self.config.client_version.clone())),
        );
        e.push((String::from_str("capabilities"), empty_object()));
        proof {
            lemma_entry_models_of(e@);
            assert(entry_models_of(e@) =~= initialize_params_json(
                self.config.client_name@,
                self.config.client_version@,
            )->Object_0);
        }
        self.request("initialize", JsonValue::Object(e))
    }

    /// The shutdown request, without parameters.
    pub fn shutdown_request(&mut self) -> (r: JsonValue)
        requires
            old(self).next_id < u64::MAX,
        ensures
            r@ == request_json(old(self).next_id, "shutdown"@, JsonModel::Object(Seq::empty())),
            final(self).next_id == old(self).next_id + 1,
            final(self).config == old(self).config,
    {
        self.request("shutdown", empty_object())
    }

    /// Learns the tools that a listing names, and hands them back.
    pub fn record_tools(&mut self, listing: &JsonValue) -> (r: StrMap<String>)
        ensures
            texts(r@) == listed_tools(listing@),
            texts(final(self).available_tools@) == listed_tools(listing@),
            final(self).config == old(self).config,
            final(self).next_id == old(self).next_id,
            final(self).last_result == old(self).last_result,
    {
        let mut mine: StrMap<String> = StrMap::new();
        let mut out: StrMap<String> = StrMap::new();
        match listing.get("tools") {
            Some(t) => match t.as_array() {
                Some(items) => {
                    let ghost ms = models_of(items@);
                    proof {
                        lemma_models_of(items@);
                        assert(ms.take(0) =~= Seq::<JsonModel>::empty());
                        assert(texts(mine@) =~= listing_entries(ms.take(0)));
                    }
                    let mut i: usize = 0;
                    while i < items.len()
                        invariant
                            ms == models_of(items@),
                            ms.len() == items@.len(),
                            forall|j: int| 0 <= j < items@.len() ==> #[trigger] ms[j] == items@[j]@,
                            i <= items@.len(),
                            texts(mine@) == listing_entries(ms.take(i as int)),
                            texts(out@) == listing_entries(ms.take(i as int)),
                        decreases items@.len() - i,
                    {
                        let item = &items[i];
                        proof {
                            assert(ms.take(i + 1).drop_last() =~= ms.take(i as int));
                            assert(ms.take(i + 1).last() == item@);
                        }
                        match (item.get_str("name"), item.get_str("description")) {
                            (Some(n), Some(d)) => {
                                let ghost before_mine = mine@;
                                let ghost before_out = out@;
                                mine.insert(n.to_owned(), d.to_owned());
                                out.insert(n.to_owned(), d.to_owned());
                                proof {
                                    assert(texts(mine@) =~= texts(before_mine).insert(n@, d@));
                                    assert(texts(out@) =~= texts(before_out).insert(n@, d@));
                                }
                            },
                            _ => {},
                        }
                        i = i + 1;
                    }
                    proof {
                        assert(ms.take(items@.len() as int) =~= ms);
                    }
                },
                None => {
                    assert(texts(mine@) =~= Map::<Seq<char>, Seq<char>>::empty());
                    assert(texts(out@) =~= Map::<Seq<char>, Seq<char>>::empty());
                },
            },
            None => {
                assert(texts(mine@) =~= Map::<Seq<char>, Seq<char>>::empty());
                assert(texts(out@) =~= Map::<Seq<char>, Seq<char>>::empty());
            },
        }
        self.available_tools = mine;
        out
    }

    /// Keeps the result of the last successful tool call.
    pub fn record_result(&mut self, result: &JsonValue)
        ensures
            final(self).last_result matches Some(r) && r@ == result@,
            final(self).config == old(self).config,
            final(self).next_id == old(self).next_id,
            final(self).available_tools == old(self).available_tools,
    {
        self.last_result = Some(result.deep_clone());
    }
}

/// The name of the tool that the protocol node calls, by the shared state:
/// the "tool_name" of "mcp_tool_call", else "mcp_default_tool", else
/// "tools/list".
pub open spec fn chosen_tool_name(shared: Map<Seq<char>, JsonValue>) -> Seq<char> {
    let from_call = if shared.contains_key("mcp_tool_call"@) {
        model_get_str(shared["mcp_tool_call"@]@, "tool_name"@)
    } else {
        None
    };
    match from_call {
        Some(n) => n,
        None => if shared.contains_key("mcp_default_tool"@) && crate::json::model_str(
            shared["mcp_default_tool"@]@,
        ) is Some {
            crate::json::model_str(shared["mcp_default_tool"@]@).unwrap()
        } else {
            "tools/list"@
        },
    }
}

/// The tool that the protocol node calls: the string "tool_name" of
/// "mcp_tool_call" when there is one, else the string "mcp_default_tool"
/// when there is one, else "tools/list".
pub proof fn lemma_chosen_tool_name(shared: Map<Seq<char>, JsonValue>)
    ensures
        shared.contains_key("mcp_tool_call"@) ==> (model_get_str(shared["mcp_tool_call"@]@, "tool_name"@)
            matches Some(n) ==> chosen_tool_name(shared) == n),
        !(shared.contains_key("mcp_tool_call"@) && model_get_str(
            shared["mcp_tool_call"@]@,
            "tool_name"@,
        ) is Some) && shared.contains_key("mcp_default_tool"@) ==> (crate::json::model_str(
            shared["mcp_default_tool"@]@,
        ) matches Some(d) ==> chosen_tool_name(shared) == d),
        !(shared.contains_key("mcp_tool_call"@) && model_get_str(
            shared["mcp_tool_call"@]@,
            "tool_name"@,
        ) is Some) && !(shared.contains_key("mcp_default_tool"@) && crate::json::model_str(
            shared["mcp_default_tool"@]@,
        ) is Some) ==> chosen_tool_name(shared) == "tools/list"@,
{
}

/// The parameters of that call: the "params" of "mcp_tool_call", else none.
pub open spec fn chosen_params(shared: Map<Seq<char>, JsonValue>) -> JsonModel {
    if shared.contains_key("mcp_tool_call"@) && model_get(shared["mcp_tool_call"@]@, "params"@) is Some {
        model_get(shared["mcp_tool_call"@]@, "params"@).unwrap()
    } else {
        JsonModel::Object(Seq::empty())
    }
}

/// `{"tool_name": name, "params": params}`.
pub open spec fn call_request_json(name: Seq<char>, params: JsonModel) -> JsonModel {
    JsonModel::Object(seq![("tool_name"@, JsonModel::Str(name)), ("params"@, params)])
}

/// The report of a successful call.
pub open spec fn success_report_json(name: Seq<char>, result: JsonModel) -> JsonModel {
    JsonModel::Object(
        seq![
            ("tool_name"@, JsonModel::Str(name)),
            ("result"@, result),
            ("status"@, JsonModel::Str("success"@)),
        ],
    )
}

/// The report of a failed call.
pub open spec fn error_report_json(name: Seq<char>, error: Seq<char>) -> JsonModel {
    JsonModel::Object(
        seq![
            ("tool_name"@, JsonModel::Str(name)),
            ("error"@, JsonModel::Str(error)),
            ("status"@, JsonModel::Str("error"@)),
        ],
    )
}

/// Which tool to call, and with what, by the shared state.
pub fn select_tool_call(shared: &Shared) -> (r: JsonValue)
    ensures
        r@ == call_request_json(chosen_tool_name(shared@), chosen_params(shared@)),
{
    let call = shared.get("mcp_tool_call");
    let mut name: Option<&str> = match call {
        Some(c) => c.get_str("tool_name"),
        None => None,
    };
    if name.is_none() {
        name = match shared.get("mcp_default_tool") {
            Some(d) => d.as_str(),
            None => None,
        };
    }
    let name_value = match name {
        Some(n) => JsonValue::from_text(n),
        None => JsonValue::from_text("tools/list"),
    };
    let params = match call {
        Some(c) => match c.get("params") {
            Some(p) => p.deep_clone(),
            None => empty_object(),
        },
        None => empty_object(),
    };
    let mut e: Vec<(String, JsonValue)> = Vec::new();
    e.push((String::from_str("tool_name"), name_value));
    e.push((String::from_str("params"), params));
    proof {
        lemma_entry_models_of(e@);
        assert(entry_models_of(e@) =~= call_request_json(
            chosen_tool_name(shared@),
            chosen_params(shared@),
        )->Object_0);
    }
    JsonValue::Object(e)
}

/// The tool and parameters that a prepared request names; a request without
/// a tool name is an error, and one without parameters has none.
pub fn requested_call(prep_res: &JsonValue) -> (r: Result<(String, JsonValue), FlowError>)
    ensures
        match model_get_str(prep_res@, "tool_name"@) {
            Some(n) => r matches Ok((name, params)) && name@ == n && params@ == (match model_get(
                prep_res@,
                "params"@,
            ) {
                Some(p) => p,
                None => JsonModel::Object(Seq::empty()),
            }),
            None => r matches Err(FlowError::NodeExecution(t)) && t@
                == "No tool_name specified in prep_res"@,
        },
{
    match prep_res.get_str("tool_name") {
        Some(n) => {
            let params = match prep_res.get("params") {
                Some(p) => p.deep_clone(),
                None => empty_object(),
            };
            Ok((n.to_owned(), params))
        },
        None => Err(FlowError::NodeExecution(String::from_str("No tool_name specified in prep_res"))),
    }
}

/// The report of a tool call: its result and "success", or its error's text
/// and "error".
pub fn call_report(tool_name: &str, outcome: Result<JsonValue, FlowError>) -> (r: JsonValue)
    ensures
        match outcome {
            Ok(v) => r@ == success_report_json(tool_name@, v@),
            Err(e) => exists|text: Seq<char>|
                #[trigger] crate::errors::reads_as(e, text) && r@ == error_report_json(tool_name@, text),
        },
{
    let mut e: Vec<(String, JsonValue)> = Vec::new();
    e.push((String::from_str("tool_name"), JsonValue::from_text(tool_name)));
    match outcome {
        Ok(v) => {
            e.push((String::from_str("result"), v));
            e.push((String::from_str("status"), JsonValue::from_text("success")));
            proof {
                lemma_entry_models_of(e@);
                assert(entry_models_of(e@) =~= success_report_json(tool_name@, e@[1].1@)->Object_0);
            }
        },
        Err(err) => {
            let t = err.to_string();
            e.push((String::from_str("error"), JsonValue::String(t)));
            e.push((String::from_str("status"), JsonValue::from_text("error")));
            proof {
                lemma_entry_models_of(e@);
                assert(entry_models_of(e@) =~= error_report_json(tool_name@, e@[1].1@->Str_0)->Object_0);
                assert(crate::errors::reads_as(err, e@[1].1@->Str_0));
            }
        },
    }
    JsonValue::Object(e)
}

/// Whether a report says that the call succeeded.
pub open spec fn report_succeeded(report: JsonModel) -> bool {
    model_get_str(report, "status"@) == Some("success"@)
}

/// Keeps a tool call's report in the shared state under "mcp_exec_result",
/// and chooses the next action: "success" or "error".
pub fn store_call_report(shared: &mut Shared, exec_res: &JsonValue) -> (action: JsonValue)
    ensures
        final(shared)@.dom() == old(shared)@.dom().insert("mcp_exec_result"@),
        final(shared)@["mcp_exec_result"@]@ == exec_res@,
        forall|k: Seq<char>|
            k != "mcp_exec_result"@ && old(shared)@.contains_key(k) ==> final(shared)@[k]
                == old(shared)@[k],
        report_succeeded(exec_res@) ==> action@ == JsonModel::Str("success"@),
        !report_succeeded(exec_res@) ==> action@ == JsonModel::Str("error"@),
{
    shared.insert(String::from_str("mcp_exec_result"), exec_res.deep_clone());
    let ok = match exec_res.get_str("status") {
        Some(s) => crate::json::text_eq(s, "success"),
        None => false,
    };
    if ok {
        JsonValue::from_text("success")
    } else {
        JsonValue::from_text("error")
    }
}

/// The tools that a client learnt of, as an object of their descriptions.
pub open spec fn tools_model(tools: StrMap<String>) -> JsonModel {
    JsonModel::Object(tools.key_order().map_values(|k: Seq<char>| (k, JsonModel::Str(tools@[k]@))))
}

/// The tools that a client learnt of, as an object of their descriptions.
pub fn tools_json(tools: &StrMap<String>) -> (r: JsonValue)
    ensures
        r@ == tools_model(*tools),
{
    let n = tools.len();
    let mut e: Vec<(String, JsonValue)> = Vec::new();
    let mut i: usize = 0;
    while i < n
        invariant
            n == tools.key_order().len(),
            i <= n,
            e@.len() == i,
            forall|j: int|
                0 <= j < i ==> (#[trigger] e@[j]).0@ == tools.key_order()[j] && e@[j].1@
                    == JsonModel::Str(tools@[tools.key_order()[j]]@),
        decreases n - i,
    {
        let (k, v) = tools.entry_at(i);
        e.push((k.clone(), JsonValue::String(v.clone())));
        i = i + 1;
    }
    proof {
        lemma_entry_models_of(e@);
        assert(entry_models_of(e@) =~= tools.key_order().map_values(
            |k: Seq<char>| (k, JsonModel::Str(tools@[k]@)),
        ));
    }
    JsonValue::Object(e)
}

/// Leaves the outcome of a client's initialization in the shared state: the
/// server's answer under "mcp_init_result" and, when the tools could be
/// listed, the tools under "mcp_tools".  A failed initialization changes
/// nothing and is reported as a client error.
pub fn store_initialization(
    shared: &mut Shared,
    init: Result<JsonValue, FlowError>,
    tools: Option<&StrMap<String>>,
) -> (r: Result<(), FlowError>)
    ensures
        init is Err ==> final(shared)@ == old(shared)@,
        init matches Err(e) ==> (r matches Err(FlowError::MCPClient(t)) && exists|text: Seq<char>|
            #[trigger] crate::errors::reads_as(e, text) && t@ == "Failed to initialize MCP client: "@
                + text),
        init is Ok ==> r is Ok,
        init matches Ok(v) ==> final(shared)@["mcp_init_result"@] == v,
        init is Ok ==> final(shared)@.dom() == (match tools {
            Some(_) => old(shared)@.dom().insert("mcp_tools"@).insert("mcp_init_result"@),
            None => old(shared)@.dom().insert("mcp_init_result"@),
        }),
        init is Ok ==> (tools matches Some(t) ==> final(shared)@["mcp_tools"@]@ == tools_model(*t)),
        init is Ok ==> forall|k: Seq<char>|
            k != "mcp_tools"@ && k != "mcp_init_result"@ && old(shared)@.contains_key(k)
                ==> final(shared)@[k] == old(shared)@[k],
{
    match init {
        Ok(v) => {
            match tools {
                Some(t) => {
                    shared.insert(String::from_str("mcp_tools"), tools_json(t));
                },
                None => {},
            }
            proof {
                reveal_strlit("mcp_tools");
                reveal_strlit("mcp_init_result");
                assert("mcp_tools"@.len() != "mcp_init_result"@.len());
            }
            shared.insert(String::from_str("mcp_init_result"), v);
            Ok(())
        },
        Err(e) => {
            let mut t = String::from_str("Failed to initialize MCP client: ");
            let text = e.to_string();
            t.append(text.as_str());
            assert(crate::errors::reads_as(e, text@));
            Err(FlowError::MCPClient(t))
        },
    }
}

} // verus!
