//! The errors of the library and the text that each of them reads as.

use vstd::prelude::*;

verus! {

#[verifier::external_type_specification]
#[verifier::external_body]
pub struct ExIoError(std::io::Error);

/// What can go wrong while nodes and flows run.
#[derive(Debug)]
pub enum FlowError {
    Io(std::io::Error),
    NodeExecution(String),
    FlowOrchestration(String),
    InvalidConfig(String),
    Serialization(String),
    Mcp(String),
    MCPServer(String),
    MCPClient(String),
    Protocol(String),
}

/// Results of the library's operations.
pub type FlowResult<T> = Result<T, FlowError>;

/// The text of an I/O error, as its `Display` writes it.  Nothing is stated
/// of it: the text comes from the operating system and std.
#[verifier::external_body]
fn io_error_text(e: &std::io::Error) -> String {
    format!("{}", e)
}

/// The leading words of each kind of error's text.
pub open spec fn error_prefix(e: FlowError) -> Seq<char> {
    match e {
        FlowError::Io(_) => "I/O error: "@,
        FlowError::NodeExecution(_) => "Node execution error: "@,
        FlowError::FlowOrchestration(_) => "Flow orchestration error: "@,
        FlowError::InvalidConfig(_) => "Invalid configuration: "@,
        FlowError::Serialization(_) => "Serialization error: "@,
        FlowError::Mcp(_) => "MCP error: "@,
        FlowError::MCPServer(_) => "MCP server error: "@,
        FlowError::MCPClient(_) => "MCP client error: "@,
        FlowError::Protocol(_) => "Protocol error: "@,
    }
}

/// The detail that an error carries as text, when it carries text.
pub open spec fn error_detail(e: FlowError) -> Option<Seq<char>> {
    match e {
        FlowError::Io(_) => None,
        FlowError::NodeExecution(s) => Some(s@),
        FlowError::FlowOrchestration(s) => Some(s@),
        FlowError::InvalidConfig(s) => Some(s@),
        FlowError::Serialization(s) => Some(s@),
        FlowError::Mcp(s) => Some(s@),
        FlowError::MCPServer(s) => Some(s@),
        FlowError::MCPClient(s) => Some(s@),
        FlowError::Protocol(s) => Some(s@),
    }
}

/// Whether `text` reads as the error `e`: it starts with the words of the
/// error's kind, and is those words and the error's detail when the error
/// carries its detail as text.
pub open spec fn reads_as(e: FlowError, text: Seq<char>) -> bool {
    &&& text.len() >= error_prefix(e).len()
    &&& text.subrange(0, error_prefix(e).len() as int) == error_prefix(e)
    &&& error_detail(e) matches Some(d) ==> text == error_prefix(e) + d
}

/// The text of an error that carries its detail as text is the words of its
/// kind, then the detail; the words are those of each kind.
pub proof fn lemma_error_texts(s: String)
    ensures
        error_prefix(FlowError::NodeExecution(s)) == "Node execution error: "@,
        error_prefix(FlowError::FlowOrchestration(s)) == "Flow orchestration error: "@,
        error_prefix(FlowError::InvalidConfig(s)) == "Invalid configuration: "@,
        error_prefix(FlowError::Serialization(s)) == "Serialization error: "@,
        error_prefix(FlowError::Mcp(s)) == "MCP error: "@,
        error_prefix(FlowError::MCPServer(s)) == "MCP server error: "@,
        error_prefix(FlowError::MCPClient(s)) == "MCP client error: "@,
        error_prefix(FlowError::Protocol(s)) == "Protocol error: "@,
        reads_as(FlowError::NodeExecution(s), "Node execution error: "@ + s@),
        reads_as(FlowError::Mcp(s), "MCP error: "@ + s@),
        forall|e: FlowError, t: Seq<char>|
            #[trigger] reads_as(e, t) && error_detail(e) is Some ==> t == error_prefix(e)
                + error_detail(e).unwrap(),
{
    assert(("Node execution error: "@ + s@).subrange(0, "Node execution error: "@.len() as int)
        =~= "Node execution error: "@);
    assert(("MCP error: "@ + s@).subrange(0, "MCP error: "@.len() as int) =~= "MCP error: "@);
}

impl FlowError {
    /// The error's text: the words of its kind, then its detail.
    pub fn to_string(&self) -> (r: String)
        ensures
            reads_as(*self, r@),
    {
        let (prefix, detail): (&str, &String) = match self {
            FlowError::Io(e) => {
                let mut r = String::from_str("I/O error: ");
                let t = io_error_text(e);
                r.append(t.as_str());
                proof {
                    assert(r@.subrange(0, error_prefix(*self).len() as int) =~= error_prefix(*self));
                }
                return r;
            },
            FlowError::NodeExecution(s) => ("Node execution error: ", s),
            FlowError::FlowOrchestration(s) => ("Flow orchestration error: ", s),
            FlowError::InvalidConfig(s) => ("Invalid configuration: ", s),
            FlowError::Serialization(s) => ("Serialization error: ", s),
            FlowError::Mcp(s) => ("MCP error: ", s),
            FlowError::MCPServer(s) => ("MCP server error: ", s),
            FlowError::MCPClient(s) => ("MCP client error: ", s),
            FlowError::Protocol(s) => ("Protocol error: ", s),
        };
        let mut r = String::from_str(prefix);
        r.append(detail.as_str());
        proof {
            assert(r@.subrange(0, error_prefix(*self).len() as int) =~= error_prefix(*self));
        }
        r
    }
}

} // verus!
