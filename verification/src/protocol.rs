//! The command/response vocabulary exchanged with extensions, and the
//! description of tabular results.

use vstd::prelude::*;

use crate::json::{JVal, Json};

verus! {

/// View of an optional string as an optional character sequence.
pub open spec fn osv(o: Option<String>) -> Option<Seq<char>> {
    match o {
        Some(s) => Some(s@),
        None => None,
    }
}

/// Column definition for tabular results.
#[derive(Debug, Clone, PartialEq)]
pub struct ColumnDef {
    /// Original column name from the data source.
    pub name: String,
    /// Output column identifier.
    pub alias: String,
    /// Data type name, such as "string", "number" or "date".
    pub dtype: String,
}

/// Mathematical view of a column definition.
pub struct ColumnDefV {
    pub name: Seq<char>,
    pub alias: Seq<char>,
    pub dtype: Seq<char>,
}

impl View for ColumnDef {
    type V = ColumnDefV;

    open spec fn view(&self) -> ColumnDefV {
        ColumnDefV { name: self.name@, alias: self.alias@, dtype: self.dtype@ }
    }
}

/// Schema definition: an ordered sequence of column definitions.
pub type Schema = Vec<ColumnDef>;

pub type Id = String;

/// A command sent to an extension.
#[derive(Debug, PartialEq)]
pub enum Command {
    /// List all available tools the extension provides.
    ListTools { correlation_id: Option<String> },
    /// Get detailed information about a specific tool.
    GetToolDetails { tool_id: String, correlation_id: Option<String> },
    /// Execute a tool with the provided input.
    ExecuteTool { tool_id: String, params: Json, correlation_id: Option<String> },
    /// Any custom command.
    Custom { command: String, correlation_id: Option<String> },
}

#[verifier::ext_equal]
pub enum CommandV {
    ListTools { correlation_id: Option<Seq<char>> },
    GetToolDetails { tool_id: Seq<char>, correlation_id: Option<Seq<char>> },
    ExecuteTool { tool_id: Seq<char>, params: JVal, correlation_id: Option<Seq<char>> },
    Custom { command: Seq<char>, correlation_id: Option<Seq<char>> },
}

impl View for Command {
    type V = CommandV;

    open spec fn view(&self) -> CommandV {
        match self {
            Command::ListTools { correlation_id } => (CommandV::ListTools {
                correlation_id: osv(*correlation_id),
            }),
            Command::GetToolDetails { tool_id, correlation_id } => (CommandV::GetToolDetails {
                tool_id: tool_id@,
                correlation_id: osv(*correlation_id),
            }),
            Command::ExecuteTool { tool_id, params, correlation_id } => (CommandV::ExecuteTool {
                tool_id: tool_id@,
                params: params@,
                correlation_id: osv(*correlation_id),
            }),
            Command::Custom { command, correlation_id } => (CommandV::Custom {
                command: command@,
                correlation_id: osv(*correlation_id),
            }),
        }
    }
}

impl Command {
    /// Create a ListTools command with optional correlation ID.
    pub fn list_tools(correlation_id: Option<String>) -> (r: Self)
        ensures
            r@ == (CommandV::ListTools { correlation_id: osv(correlation_id) }),
    {
        Command::ListTools { correlation_id }
    }

    /// Create a GetToolDetails command with optional correlation ID.
    pub fn get_tool_details(tool_id: String, correlation_id: Option<String>) -> (r: Self)
        ensures
            r@ == (CommandV::GetToolDetails {
                tool_id: tool_id@,
                correlation_id: osv(correlation_id),
            }),
    {
        Command::GetToolDetails { tool_id, correlation_id }
    }

    /// Create an ExecuteTool command with optional correlation ID.
    pub fn execute_tool(tool_id: String, params: Json, correlation_id: Option<String>) -> (r:
        Self)
        ensures
            r@ == (CommandV::ExecuteTool {
                tool_id: tool_id@,
                params: params@,
                correlation_id: osv(correlation_id),
            }),
    {
        Command::ExecuteTool { tool_id, params, correlation_id }
    }

    /// The correlation ID carried by any command variant.
    pub open spec fn spec_correlation_id(&self) -> Option<Seq<char>> {
        match self@ {
            CommandV::ListTools { correlation_id } => correlation_id,
            CommandV::GetToolDetails { correlation_id, .. } => correlation_id,
            CommandV::ExecuteTool { correlation_id, .. } => correlation_id,
            CommandV::Custom { correlation_id, .. } => correlation_id,
        }
    }

    /// Extract the correlation ID from any command variant.
    pub fn correlation_id(&self) -> (r: Option<&String>)
        ensures
            match r {
                Some(s) => self.spec_correlation_id() == Some(s@),
                None => self.spec_correlation_id() is None,
            },
    {
        match self {
            Command::ListTools { correlation_id } => correlation_id.as_ref(),
            Command::GetToolDetails { correlation_id, .. } => correlation_id.as_ref(),
            Command::ExecuteTool { correlation_id, .. } => correlation_id.as_ref(),
            Command::Custom { correlation_id, .. } => correlation_id.as_ref(),
        }
    }
}

/// Tool information provided by an extension.
#[derive(Debug, PartialEq)]
pub struct ToolInfo {
    /// Unique identifier for the tool.
    pub id: String,
    /// Human-readable name.
    pub name: String,
    /// Description of what the tool does.
    pub description: String,
    /// Schema for the tool's parameters, as a JSON value.
    pub schema: Json,
}

#[verifier::ext_equal]
pub struct ToolInfoV {
    pub id: Seq<char>,
    pub name: Seq<char>,
    pub description: Seq<char>,
    pub schema: JVal,
}

impl View for ToolInfo {
    type V = ToolInfoV;

    open spec fn view(&self) -> ToolInfoV {
        ToolInfoV {
            id: self.id@,
            name: self.name@,
            description: self.description@,
            schema: self.schema@,
        }
    }
}

/// Core error type for data operations.
#[derive(Debug, Clone, PartialEq)]
pub enum CoreError {
    JsonError(String),
    DataFrameError(String),
    Custom(String),
}

#[verifier::ext_equal]
pub enum CoreErrorV {
    JsonError(Seq<char>),
    DataFrameError(Seq<char>),
    Custom(Seq<char>),
}

impl View for CoreError {
    type V = CoreErrorV;

    open spec fn view(&self) -> CoreErrorV {
        match self {
            CoreError::JsonError(s) => CoreErrorV::JsonError(s@),
            CoreError::DataFrameError(s) => CoreErrorV::DataFrameError(s@),
            CoreError::Custom(s) => CoreErrorV::Custom(s@),
        }
    }
}

impl CoreError {
    /// Wrap a plain message as a custom error.
    pub fn custom(msg: String) -> (r: Self)
        ensures
            r@ == CoreErrorV::Custom(msg@),
    {
        CoreError::Custom(msg)
    }
}

/// A table payload in wire form: a schema, an untyped JSON data value, and
/// optional metadata.
#[derive(Debug, PartialEq)]
pub struct ProtoDataFrame {
    pub schema: Schema,
    pub data: Json,
    pub metadata: Option<Json>,
}

#[verifier::ext_equal]
pub struct ProtoDataFrameV {
    pub schema: Seq<ColumnDefV>,
    pub data: JVal,
    pub metadata: Option<JVal>,
}

impl View for ProtoDataFrame {
    type V = ProtoDataFrameV;

    open spec fn view(&self) -> ProtoDataFrameV {
        ProtoDataFrameV {
            schema: self.schema@.map_values(|cd: ColumnDef| cd@),
            data: self.data@,
            metadata: match self.metadata {
                Some(ref m) => Some(m@),
                None => None,
            },
        }
    }
}

/// Tool execution result.
#[derive(Debug, PartialEq)]
pub enum ToolResult {
    /// Text-based result.
    Text(String),
    /// Columnar data that can be normalized into a table by the caller.
    DataFrame(ProtoDataFrame),
}

#[verifier::ext_equal]
pub enum ToolResultV {
    Text(Seq<char>),
    DataFrame(ProtoDataFrameV),
}

impl View for ToolResult {
    type V = ToolResultV;

    open spec fn view(&self) -> ToolResultV {
        match self {
            ToolResult::Text(s) => ToolResultV::Text(s@),
            ToolResult::DataFrame(p) => ToolResultV::DataFrame(p@),
        }
    }
}

impl ToolResult {
    /// Create a new text result.
    pub fn text(text: String) -> (r: Self)
        ensures
            r@ == ToolResultV::Text(text@),
    {
        ToolResult::Text(text)
    }

    /// Create columnar data to be normalized on the client.
    pub fn columnar(data: Json, schema: Schema, metadata: Option<Json>) -> (r: Self)
        ensures
            r@ == ToolResultV::DataFrame(
                ProtoDataFrameV {
                    schema: schema@.map_values(|cd: ColumnDef| cd@),
                    data: data@,
                    metadata: match metadata {
                        Some(m) => Some(m@),
                        None => None,
                    },
                },
            ),
    {
        ToolResult::DataFrame(ProtoDataFrame { schema, data, metadata })
    }
}

/// A response received from an extension.
#[derive(Debug, PartialEq)]
pub enum Response {
    /// Extension metadata.
    Metadata { id: String, name: String, version: String, description: String },
    /// List of available tools.
    ToolList { tools: Vec<ToolInfo>, correlation_id: Option<String> },
    /// Detailed information about a specific tool.
    ToolDetails { tool_id: String, tool_info: ToolInfo, correlation_id: Option<String> },
    /// Result from tool execution.
    ToolResult {
        tool_id: String,
        result: Result<ToolResult, CoreError>,
        correlation_id: Option<String>,
    },
    /// Error response.
    Error { message: String, correlation_id: Option<String> },
}

#[verifier::ext_equal]
pub enum ResponseV {
    Metadata { id: Seq<char>, name: Seq<char>, version: Seq<char>, description: Seq<char> },
    ToolList { tools: Seq<ToolInfoV>, correlation_id: Option<Seq<char>> },
    ToolDetails { tool_id: Seq<char>, tool_info: ToolInfoV, correlation_id: Option<Seq<char>> },
    ToolResult {
        tool_id: Seq<char>,
        result: Result<ToolResultV, CoreErrorV>,
        correlation_id: Option<Seq<char>>,
    },
    Error { message: Seq<char>, correlation_id: Option<Seq<char>> },
}

impl View for Response {
    type V = ResponseV;

    open spec fn view(&self) -> ResponseV {
        match self {
            Response::Metadata { id, name, version, description } => (ResponseV::Metadata {
                id: id@,
                name: name@,
                version: version@,
                description: description@,
            }),
            Response::ToolList { tools, correlation_id } => (ResponseV::ToolList {
                tools: tools@.map_values(|t: ToolInfo| t@),
                correlation_id: osv(*correlation_id),
            }),
            Response::ToolDetails { tool_id, tool_info, correlation_id } => (ResponseV::ToolDetails {
                tool_id: tool_id@,
                tool_info: tool_info@,
                correlation_id: osv(*correlation_id),
            }),
            Response::ToolResult { tool_id, result, correlation_id } => (ResponseV::ToolResult {
                tool_id: tool_id@,
                result: match result {
                    Ok(t) => Ok(t@),
                    Err(e) => Err(e@),
                },
                correlation_id: osv(*correlation_id),
            }),
            Response::Error { message, correlation_id } => (ResponseV::Error {
                message: message@,
                correlation_id: osv(*correlation_id),
            }),
        }
    }
}

} // verus!
