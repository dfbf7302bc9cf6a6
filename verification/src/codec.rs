//! The wire encoding of commands and responses.
//!
//! A command or response travels as a tagged JSON object: a `type` field
//! names the variant and a `payload` field carries its data. An absent
//! correlation id is omitted when writing and read back as absent.

use vstd::prelude::*;

use crate::json::{jview_pairs, jview_seq, lemma_jview_pairs, lemma_jview_seq, obj_get,
    obj_lookup, render, to_text, JVal, Json};
use crate::parse::{parse_json, sp_json};
use crate::text::str_eq;
use crate::protocol::{
    osv, ColumnDef, ColumnDefV, Command, CommandV, CoreError, CoreErrorV, ProtoDataFrame,
    ProtoDataFrameV, Response, ResponseV, ToolInfo, ToolInfoV, ToolResult, ToolResultV,
};

verus! {

broadcast use vstd::std_specs::vec::group_vec_axioms, vstd::seq::group_seq_axioms;

// ---------------------------------------------------------------------------
// Commands as JSON
// ---------------------------------------------------------------------------

/// The members of a payload carrying an optional correlation id: omitted
/// when absent.
pub open spec fn cid_members(cid: Option<Seq<char>>) -> Seq<(Seq<char>, JVal)> {
    match cid {
        Some(s) => seq![("correlation_id"@, JVal::Str(s))],
        None => Seq::empty(),
    }
}

/// The JSON form of a command.
pub open spec fn jv_of_command(c: CommandV) -> JVal {
    let (tag, payload): (Seq<char>, Seq<(Seq<char>, JVal)>) = match c {
        CommandV::ListTools { correlation_id } => ("ListTools"@, cid_members(correlation_id)),
        CommandV::GetToolDetails { tool_id, correlation_id } => (
            "GetToolDetails"@,
            seq![("tool_id"@, JVal::Str(tool_id))] + cid_members(correlation_id),
        ),
        CommandV::ExecuteTool { tool_id, params, correlation_id } => (
            "ExecuteTool"@,
            seq![("tool_id"@, JVal::Str(tool_id)), ("params"@, params)] + cid_members(
                correlation_id,
            ),
        ),
        CommandV::Custom { command, correlation_id } => (
            "Custom"@,
            seq![("command"@, JVal::Str(command))] + cid_members(correlation_id),
        ),
    };
    JVal::Obj(seq![("type"@, JVal::Str(tag)), ("payload"@, JVal::Obj(payload))])
}

/// How an optional correlation id reads from a payload: absent and null
/// both mean none; any value that is not a string is refused.
pub open spec fn sp_opt_str(ms: Seq<(Seq<char>, JVal)>, key: Seq<char>) -> Option<
    Option<Seq<char>>,
> {
    match obj_lookup(ms, key) {
        None => Some(None),
        Some(JVal::Null) => Some(None),
        Some(JVal::Str(s)) => Some(Some(s)),
        Some(_) => None,
    }
}

/// How a required string field reads from a payload.
pub open spec fn sp_str_field(ms: Seq<(Seq<char>, JVal)>, key: Seq<char>) -> Option<Seq<char>> {
    match obj_lookup(ms, key) {
        Some(JVal::Str(s)) => Some(s),
        _ => None,
    }
}

/// How a command reads from its JSON form.
pub open spec fn sp_command_of(v: JVal) -> Option<CommandV> {
    match v {
        JVal::Obj(ms) => match (obj_lookup(ms, "type"@), obj_lookup(ms, "payload"@)) {
            (Some(JVal::Str(tag)), Some(JVal::Obj(pl))) => {
                if tag == "ListTools"@ {
                    match sp_opt_str(pl, "correlation_id"@) {
                        Some(cid) => Some(CommandV::ListTools { correlation_id: cid }),
                        None => None,
                    }
                } else if tag == "GetToolDetails"@ {
                    match (sp_str_field(pl, "tool_id"@), sp_opt_str(pl, "correlation_id"@)) {
                        (Some(t), Some(cid)) => Some(
                            CommandV::GetToolDetails { tool_id: t, correlation_id: cid },
                        ),
                        _ => None,
                    }
                } else if tag == "ExecuteTool"@ {
                    match (
                        sp_str_field(pl, "tool_id"@),
                        obj_lookup(pl, "params"@),
                        sp_opt_str(pl, "correlation_id"@),
                    ) {
                        (Some(t), Some(p), Some(cid)) => Some(
                            CommandV::ExecuteTool {
                                tool_id: t,
                                params: p,
                                correlation_id: cid,
                            },
                        ),
                        _ => None,
                    }
                } else if tag == "Custom"@ {
                    match (sp_str_field(pl, "command"@), sp_opt_str(pl, "correlation_id"@)) {
                        (Some(t), Some(cid)) => Some(
                            CommandV::Custom { command: t, correlation_id: cid },
                        ),
                        _ => None,
                    }
                } else {
                    None
                }
            },
            _ => None,
        },
        _ => None,
    }
}

/// Builds the JSON form of a command.
pub fn json_of_command(c: Command) -> (r: Json)
    ensures
        r@ == jv_of_command(c@),
{
    let ghost cv = c@;
    let (tag, payload): (&str, Vec<(String, Json)>) = match c {
        Command::ListTools { correlation_id } => {
            let ghost cid = osv(correlation_id);
            let mut pl: Vec<(String, Json)> = Vec::new();
            if let Some(s) = correlation_id {
                pl.push(("correlation_id".to_owned(), Json::Str(s)));
            }
            proof {
                lemma_jview_pairs(pl@);
                assert(jview_pairs(pl@) =~= cid_members(cid));
                assert(jv_of_command(cv) == JVal::Obj(
                    seq![
                        ("type"@, JVal::Str("ListTools"@)),
                        ("payload"@, JVal::Obj(jview_pairs(pl@))),
                    ],
                ));
            }
            ("ListTools", pl)
        },
        Command::GetToolDetails { tool_id, correlation_id } => {
            let ghost cid = osv(correlation_id);
            let ghost tid = tool_id@;
            let mut pl: Vec<(String, Json)> = Vec::new();
            pl.push(("tool_id".to_owned(), Json::Str(tool_id)));
            if let Some(s) = correlation_id {
                pl.push(("correlation_id".to_owned(), Json::Str(s)));
            }
            proof {
                lemma_jview_pairs(pl@);
                assert(jview_pairs(pl@) =~= seq![("tool_id"@, JVal::Str(tid))] + cid_members(
                    cid,
                ));
                assert(jv_of_command(cv) == JVal::Obj(
                    seq![
                        ("type"@, JVal::Str("GetToolDetails"@)),
                        ("payload"@, JVal::Obj(jview_pairs(pl@))),
                    ],
                ));
            }
            ("GetToolDetails", pl)
        },
        Command::ExecuteTool { tool_id, params, correlation_id } => {
            let ghost cid = osv(correlation_id);
            let ghost tid = tool_id@;
            let ghost pv = params@;
            let mut pl: Vec<(String, Json)> = Vec::new();
            pl.push(("tool_id".to_owned(), Json::Str(tool_id)));
            pl.push(("params".to_owned(), params));
            if let Some(s) = correlation_id {
                pl.push(("correlation_id".to_owned(), Json::Str(s)));
            }
            proof {
                lemma_jview_pairs(pl@);
                assert(jview_pairs(pl@) =~= seq![("tool_id"@, JVal::Str(tid)), ("params"@, pv)]
                    + cid_members(cid));
                assert(jv_of_command(cv) == JVal::Obj(
                    seq![
                        ("type"@, JVal::Str("ExecuteTool"@)),
                        ("payload"@, JVal::Obj(jview_pairs(pl@))),
                    ],
                ));
            }
            ("ExecuteTool", pl)
        },
        Command::Custom { command, correlation_id } => {
            let ghost cid = osv(correlation_id);
            let ghost cmd = command@;
            let mut pl: Vec<(String, Json)> = Vec::new();
            pl.push(("command".to_owned(), Json::Str(command)));
            if let Some(s) = correlation_id {
                pl.push(("correlation_id".to_owned(), Json::Str(s)));
            }
            proof {
                lemma_jview_pairs(pl@);
                assert(jview_pairs(pl@) =~= seq![("command"@, JVal::Str(cmd))] + cid_members(
                    cid,
                ));
                assert(jv_of_command(cv) == JVal::Obj(
                    seq![
                        ("type"@, JVal::Str("Custom"@)),
                        ("payload"@, JVal::Obj(jview_pairs(pl@))),
                    ],
                ));
            }
            ("Custom", pl)
        },
    };
    let ghost plv = jview_pairs(payload@);
    let ghost tagv = tag@;
    let mut top: Vec<(String, Json)> = Vec::new();
    top.push(("type".to_owned(), Json::Str(tag.to_owned())));
    top.push(("payload".to_owned(), Json::Obj(payload)));
    let r = Json::Obj(top);
    proof {
        assert(r@ == JVal::Obj(jview_pairs(r->Obj_0@)));
        lemma_jview_pairs(r->Obj_0@);
        assert(jview_pairs(r->Obj_0@) =~= seq![
            ("type"@, JVal::Str(tagv)),
            ("payload"@, JVal::Obj(plv)),
        ]);
    }
    r
}

/// Writes a command as wire text.
pub fn encode_command(c: Command) -> (r: String)
    ensures
        r@ == render(jv_of_command(c@)),
{
    let j = json_of_command(c);
    to_text(&j)
}

// ---------------------------------------------------------------------------
// Reading commands and responses back from JSON
// ---------------------------------------------------------------------------

/// Reads an optional string field: absent and null mean none; any other
/// non-string value is refused.
fn opt_str_field(ms: &Vec<(String, Json)>, key: &str) -> (r: Option<Option<String>>)
    ensures
        match r {
            Some(c) => sp_opt_str(jview_pairs(ms@), key@) == Some(osv(c)),
            None => sp_opt_str(jview_pairs(ms@), key@) is None,
        },
{
    match obj_get(ms, key) {
        None => Some(None),
        Some(Json::Null) => Some(None),
        Some(Json::Str(s)) => Some(Some(s.clone())),
        Some(_) => None,
    }
}

/// Reads a required string field.
fn str_field(ms: &Vec<(String, Json)>, key: &str) -> (r: Option<String>)
    ensures
        match r {
            Some(s) => sp_str_field(jview_pairs(ms@), key@) == Some(s@),
            None => sp_str_field(jview_pairs(ms@), key@) is None,
        },
{
    match obj_get(ms, key) {
        Some(Json::Str(s)) => Some(s.clone()),
        _ => None,
    }
}

/// Reads a command back from its JSON form, exactly as `sp_command_of` says.
pub fn command_of_json(v: &Json) -> (r: Option<Command>)
    ensures
        match r {
            Some(c) => sp_command_of(v@) == Some(c@),
            None => sp_command_of(v@) is None,
        },
{
    let ms = match v {
        Json::Obj(ms) => ms,
        _ => {
            return None;
        },
    };
    let tag = match obj_get(ms, "type") {
        Some(Json::Str(t)) => t,
        _ => {
            return None;
        },
    };
    let pl = match obj_get(ms, "payload") {
        Some(Json::Obj(p)) => p,
        _ => {
            return None;
        },
    };
    if str_eq(tag.as_str(), "ListTools") {
        match opt_str_field(pl, "correlation_id") {
            Some(cid) => Some(Command::ListTools { correlation_id: cid }),
            None => None,
        }
    } else if str_eq(tag.as_str(), "GetToolDetails") {
        match (str_field(pl, "tool_id"), opt_str_field(pl, "correlation_id")) {
            (Some(t), Some(cid)) => Some(
                Command::GetToolDetails { tool_id: t, correlation_id: cid },
            ),
            _ => None,
        }
    } else if str_eq(tag.as_str(), "ExecuteTool") {
        let params = match obj_get(pl, "params") {
            Some(p) => p.deep_clone(),
            None => {
                return None;
            },
        };
        match (str_field(pl, "tool_id"), opt_str_field(pl, "correlation_id")) {
            (Some(t), Some(cid)) => Some(
                Command::ExecuteTool { tool_id: t, params, correlation_id: cid },
            ),
            _ => None,
        }
    } else if str_eq(tag.as_str(), "Custom") {
        match (str_field(pl, "command"), opt_str_field(pl, "correlation_id")) {
            (Some(t), Some(cid)) => Some(Command::Custom { command: t, correlation_id: cid }),
            _ => None,
        }
    } else {
        None
    }
}

/// Reads a command from wire text.
pub fn decode_command(text: &str) -> (r: Option<Command>)
    ensures
        match r {
            Some(c) => sp_decode_command(text@) == Some(c@),
            None => sp_decode_command(text@) is None,
        },
{
    match parse_json(text) {
        Some(j) => command_of_json(&j),
        None => None,
    }
}

/// What reading a command from wire text yields.
pub open spec fn sp_decode_command(t: Seq<char>) -> Option<CommandV> {
    match sp_json(t) {
        Some(v) => sp_command_of(v),
        None => None,
    }
}

// ---------------------------------------------------------------------------
// Responses
// ---------------------------------------------------------------------------

/// How one tool description reads from JSON.
pub open spec fn sp_tool_info_of(v: JVal) -> Option<ToolInfoV> {
    match v {
        JVal::Obj(ms) => match (
            sp_str_field(ms, "id"@),
            sp_str_field(ms, "name"@),
            sp_str_field(ms, "description"@),
            obj_lookup(ms, "schema"@),
        ) {
            (Some(id), Some(name), Some(description), Some(schema)) => Some(
                ToolInfoV { id, name, description, schema },
            ),
            _ => None,
        },
        _ => None,
    }
}

/// How a list of tool descriptions reads from JSON values.
pub open spec fn sp_tools_of(es: Seq<JVal>) -> Option<Seq<ToolInfoV>>
    decreases es.len(),
{
    if es.len() == 0 {
        Some(Seq::empty())
    } else {
        match (sp_tool_info_of(es[0]), sp_tools_of(es.subrange(1, es.len() as int))) {
            (Some(t), Some(ts)) => Some(seq![t] + ts),
            _ => None,
        }
    }
}

/// How one column definition reads from JSON.
pub open spec fn sp_def_of(v: JVal) -> Option<ColumnDefV> {
    match v {
        JVal::Obj(ms) => match (
            sp_str_field(ms, "name"@),
            sp_str_field(ms, "alias"@),
            sp_str_field(ms, "dtype"@),
        ) {
            (Some(name), Some(alias), Some(dtype)) => Some(ColumnDefV { name, alias, dtype }),
            _ => None,
        },
        _ => None,
    }
}

/// How a schema reads from JSON values.
pub open spec fn sp_defs_of(es: Seq<JVal>) -> Option<Seq<ColumnDefV>>
    decreases es.len(),
{
    if es.len() == 0 {
        Some(Seq::empty())
    } else {
        match (sp_def_of(es[0]), sp_defs_of(es.subrange(1, es.len() as int))) {
            (Some(d), Some(ds)) => Some(seq![d] + ds),
            _ => None,
        }
    }
}

/// How a wire-form table payload reads from JSON.
pub open spec fn sp_frame_of(v: JVal) -> Option<ProtoDataFrameV> {
    match v {
        JVal::Obj(ms) => match (obj_lookup(ms, "schema"@), obj_lookup(ms, "data"@)) {
            (Some(JVal::Arr(es)), Some(data)) => match sp_defs_of(es) {
                Some(defs) => {
                    let metadata = match obj_lookup(ms, "metadata"@) {
                        None => None,
                        Some(JVal::Null) => None,
                        Some(m) => Some(m),
                    };
                    Some(ProtoDataFrameV { schema: defs, data, metadata })
                },
                None => None,
            },
            _ => None,
        },
        _ => None,
    }
}

/// How a tool result reads from JSON: its variant names the single member.
pub open spec fn sp_toolresult_of(v: JVal) -> Option<ToolResultV> {
    match v {
        JVal::Obj(ms) => match obj_lookup(ms, "Text"@) {
            Some(JVal::Str(s)) => Some(ToolResultV::Text(s)),
            Some(_) => None,
            None => match obj_lookup(ms, "DataFrame"@) {
                Some(f) => match sp_frame_of(f) {
                    Some(fr) => Some(ToolResultV::DataFrame(fr)),
                    None => None,
                },
                None => None,
            },
        },
        _ => None,
    }
}

/// How a data-operation error reads from JSON.
pub open spec fn sp_coreerror_of(v: JVal) -> Option<CoreErrorV> {
    match v {
        JVal::Obj(ms) => match obj_lookup(ms, "JsonError"@) {
            Some(JVal::Str(s)) => Some(CoreErrorV::JsonError(s)),
            Some(_) => None,
            None => match obj_lookup(ms, "DataFrameError"@) {
                Some(JVal::Str(s)) => Some(CoreErrorV::DataFrameError(s)),
                Some(_) => None,
                None => match obj_lookup(ms, "Custom"@) {
                    Some(JVal::Str(s)) => Some(CoreErrorV::Custom(s)),
                    _ => None,
                },
            },
        },
        _ => None,
    }
}

/// How a tool outcome reads from JSON: an `Ok` or an `Err` member.
pub open spec fn sp_result_of(v: JVal) -> Option<Result<ToolResultV, CoreErrorV>> {
    match v {
        JVal::Obj(ms) => match obj_lookup(ms, "Ok"@) {
            Some(x) => match sp_toolresult_of(x) {
                Some(t) => Some(Ok(t)),
                None => None,
            },
            None => match obj_lookup(ms, "Err"@) {
                Some(e) => match sp_coreerror_of(e) {
                    Some(ce) => Some(Err(ce)),
                    None => None,
                },
                None => None,
            },
        },
        _ => None,
    }
}

/// How a response reads from its JSON form.
pub open spec fn sp_response_of(v: JVal) -> Option<ResponseV> {
    match v {
        JVal::Obj(ms) => match (obj_lookup(ms, "type"@), obj_lookup(ms, "payload"@)) {
            (Some(JVal::Str(tag)), Some(JVal::Obj(pl))) => {
                if tag == "Metadata"@ {
                    match (
                        sp_str_field(pl, "id"@),
                        sp_str_field(pl, "name"@),
                        sp_str_field(pl, "version"@),
                        sp_str_field(pl, "description"@),
                    ) {
                        (Some(id), Some(name), Some(version), Some(description)) => Some(
                            ResponseV::Metadata { id, name, version, description },
                        ),
                        _ => None,
                    }
                } else if tag == "ToolList"@ {
                    match (obj_lookup(pl, "tools"@), sp_opt_str(pl, "correlation_id"@)) {
                        (Some(JVal::Arr(es)), Some(cid)) => match sp_tools_of(es) {
                            Some(ts) => Some(
                                ResponseV::ToolList { tools: ts, correlation_id: cid },
                            ),
                            None => None,
                        },
                        _ => None,
                    }
                } else if tag == "ToolDetails"@ {
                    match (
                        sp_str_field(pl, "tool_id"@),
                        obj_lookup(pl, "tool_info"@),
                        sp_opt_str(pl, "correlation_id"@),
                    ) {
                        (Some(t), Some(ti), Some(cid)) => match sp_tool_info_of(ti) {
                            Some(info) => Some(
                                ResponseV::ToolDetails {
                                    tool_id: t,
                                    tool_info: info,
                                    correlation_id: cid,
                                },
                            ),
                            None => None,
                        },
                        _ => None,
                    }
                } else if tag == "ToolResult"@ {
                    match (
                        sp_str_field(pl, "tool_id"@),
                        obj_lookup(pl, "result"@),
                        sp_opt_str(pl, "correlation_id"@),
                    ) {
                        (Some(t), Some(res), Some(cid)) => match sp_result_of(res) {
                            Some(rr) => Some(
                                ResponseV::ToolResult {
                                    tool_id: t,
                                    result: rr,
                                    correlation_id: cid,
                                },
                            ),
                            None => None,
                        },
                        _ => None,
                    }
                } else if tag == "Error"@ {
                    match (sp_str_field(pl, "message"@), sp_opt_str(pl, "correlation_id"@)) {
                        (Some(m), Some(cid)) => Some(
                            ResponseV::Error { message: m, correlation_id: cid },
                        ),
                        _ => None,
                    }
                } else {
                    None
                }
            },
            _ => None,
        },
        _ => None,
    }
}

/// What reading a response from wire text yields.
pub open spec fn sp_decode_response(t: Seq<char>) -> Option<ResponseV> {
    match sp_json(t) {
        Some(v) => sp_response_of(v),
        None => None,
    }
}

/// Reads one tool description from JSON, exactly as `sp_tool_info_of` says.
fn tool_info_of_json(v: &Json) -> (r: Option<ToolInfo>)
    ensures
        match r {
            Some(t) => sp_tool_info_of(v@) == Some(t@),
            None => sp_tool_info_of(v@) is None,
        },
{
    let ms = match v {
        Json::Obj(ms) => ms,
        _ => {
            return None;
        },
    };
    let schema = match obj_get(ms, "schema") {
        Some(s) => s.deep_clone(),
        None => {
            return None;
        },
    };
    match (str_field(ms, "id"), str_field(ms, "name"), str_field(ms, "description")) {
        (Some(id), Some(name), Some(description)) => Some(
            ToolInfo { id, name, description, schema },
        ),
        _ => None,
    }
}

/// Reads the tool descriptions from index `i` on.
fn tools_from(es: &Vec<Json>, i: usize) -> (r: Option<Vec<ToolInfo>>)
    requires
        i <= es@.len(),
    ensures
        match r {
            Some(ts) => sp_tools_of(jview_seq(es@).subrange(i as int, es@.len() as int)) == Some(
                ts@.map_values(|t: ToolInfo| t@),
            ),
            None => sp_tools_of(jview_seq(es@).subrange(i as int, es@.len() as int)) is None,
        },
    decreases es@.len() - i,
{
    proof {
        lemma_jview_seq(es@);
    }
    let ghost sv = jview_seq(es@);
    if i == es.len() {
        let ts: Vec<ToolInfo> = Vec::new();
        proof {
            assert(sv.subrange(i as int, es@.len() as int).len() == 0);
            assert(ts@.map_values(|t: ToolInfo| t@) =~= Seq::<ToolInfoV>::empty());
        }
        return Some(ts);
    }
    proof {
        assert(sv.subrange(i as int, es@.len() as int)[0] == sv[i as int]);
        assert(sv.subrange(i as int, es@.len() as int).subrange(
            1,
            sv.subrange(i as int, es@.len() as int).len() as int,
        ) =~= sv.subrange(i + 1, es@.len() as int));
    }
    match tool_info_of_json(&es[i]) {
        None => None,
        Some(t) => match tools_from(es, i + 1) {
            None => None,
            Some(mut ts) => {
                let ghost ts0 = ts@;
                ts.insert(0, t);
                proof {
                    assert(ts@ =~= seq![t] + ts0);
                    assert(ts@.map_values(|x: ToolInfo| x@) =~= seq![t@] + ts0.map_values(
                        |x: ToolInfo| x@,
                    ));
                }
                Some(ts)
            },
        },
    }
}

/// Reads one column definition from JSON, exactly as `sp_def_of` says.
fn def_of_json(v: &Json) -> (r: Option<ColumnDef>)
    ensures
        match r {
            Some(d) => sp_def_of(v@) == Some(d@),
            None => sp_def_of(v@) is None,
        },
{
    let ms = match v {
        Json::Obj(ms) => ms,
        _ => {
            return None;
        },
    };
    match (str_field(ms, "name"), str_field(ms, "alias"), str_field(ms, "dtype")) {
        (Some(name), Some(alias), Some(dtype)) => Some(ColumnDef { name, alias, dtype }),
        _ => None,
    }
}

/// Reads the column definitions from index `i` on.
fn defs_from(es: &Vec<Json>, i: usize) -> (r: Option<Vec<ColumnDef>>)
    requires
        i <= es@.len(),
    ensures
        match r {
            Some(ds) => sp_defs_of(jview_seq(es@).subrange(i as int, es@.len() as int)) == Some(
                ds@.map_values(|d: ColumnDef| d@),
            ),
            None => sp_defs_of(jview_seq(es@).subrange(i as int, es@.len() as int)) is None,
        },
    decreases es@.len() - i,
{
    proof {
        lemma_jview_seq(es@);
    }
    let ghost sv = jview_seq(es@);
    if i == es.len() {
        let ds: Vec<ColumnDef> = Vec::new();
        proof {
            assert(sv.subrange(i as int, es@.len() as int).len() == 0);
            assert(ds@.map_values(|d: ColumnDef| d@) =~= Seq::<ColumnDefV>::empty());
        }
        return Some(ds);
    }
    proof {
        assert(sv.subrange(i as int, es@.len() as int)[0] == sv[i as int]);
        assert(sv.subrange(i as int, es@.len() as int).subrange(
            1,
            sv.subrange(i as int, es@.len() as int).len() as int,
        ) =~= sv.subrange(i + 1, es@.len() as int));
    }
    match def_of_json(&es[i]) {
        None => None,
        Some(d) => match defs_from(es, i + 1) {
            None => None,
            Some(mut ds) => {
                let ghost ds0 = ds@;
                ds.insert(0, d);
                proof {
                    assert(ds@ =~= seq![d] + ds0);
                    assert(ds@.map_values(|x: ColumnDef| x@) =~= seq![d@] + ds0.map_values(
                        |x: ColumnDef| x@,
                    ));
                }
                Some(ds)
            },
        },
    }
}

/// Reads a wire-form table payload from JSON, exactly as `sp_frame_of` says.
fn frame_of_json(v: &Json) -> (r: Option<ProtoDataFrame>)
    ensures
        match r {
            Some(f) => sp_frame_of(v@) == Some(f@),
            None => sp_frame_of(v@) is None,
        },
{
    let ms = match v {
        Json::Obj(ms) => ms,
        _ => {
            return None;
        },
    };
    let es = match obj_get(ms, "schema") {
        Some(Json::Arr(es)) => es,
        _ => {
            return None;
        },
    };
    let data = match obj_get(ms, "data") {
        Some(d) => d.deep_clone(),
        None => {
            return None;
        },
    };
    proof {
        lemma_jview_seq(es@);
        assert(jview_seq(es@).subrange(0, es@.len() as int) =~= jview_seq(es@));
    }
    let defs = match defs_from(es, 0) {
        Some(ds) => ds,
        None => {
            return None;
        },
    };
    let metadata: Option<Json> = match obj_get(ms, "metadata") {
        None => None,
        Some(Json::Null) => None,
        Some(m) => Some(m.deep_clone()),
    };
    Some(ProtoDataFrame { schema: defs, data, metadata })
}

/// Reads a tool result from JSON, exactly as `sp_toolresult_of` says.
fn toolresult_of_json(v: &Json) -> (r: Option<ToolResult>)
    ensures
        match r {
            Some(t) => sp_toolresult_of(v@) == Some(t@),
            None => sp_toolresult_of(v@) is None,
        },
{
    let ms = match v {
        Json::Obj(ms) => ms,
        _ => {
            return None;
        },
    };
    match obj_get(ms, "Text") {
        Some(Json::Str(s)) => Some(ToolResult::Text(s.clone())),
        Some(_) => None,
        None => match obj_get(ms, "DataFrame") {
            Some(f) => match frame_of_json(f) {
                Some(fr) => Some(ToolResult::DataFrame(fr)),
                None => None,
            },
            None => None,
        },
    }
}

/// Reads a data-operation error from JSON, exactly as `sp_coreerror_of` says.
fn coreerror_of_json(v: &Json) -> (r: Option<CoreError>)
    ensures
        match r {
            Some(e) => sp_coreerror_of(v@) == Some(e@),
            None => sp_coreerror_of(v@) is None,
        },
{
    let ms = match v {
        Json::Obj(ms) => ms,
        _ => {
            return None;
        },
    };
    match obj_get(ms, "JsonError") {
        Some(Json::Str(s)) => Some(CoreError::JsonError(s.clone())),
        Some(_) => None,
        None => match obj_get(ms, "DataFrameError") {
            Some(Json::Str(s)) => Some(CoreError::DataFrameError(s.clone())),
            Some(_) => None,
            None => match obj_get(ms, "Custom") {
                Some(Json::Str(s)) => Some(CoreError::Custom(s.clone())),
                _ => None,
            },
        },
    }
}

/// Reads a tool outcome from JSON, exactly as `sp_result_of` says.
fn result_of_json(v: &Json) -> (r: Option<Result<ToolResult, CoreError>>)
    ensures
        match r {
            Some(Ok(t)) => sp_result_of(v@) == Some(Ok::<ToolResultV, CoreErrorV>(t@)),
            Some(Err(e)) => sp_result_of(v@) == Some(Err::<ToolResultV, CoreErrorV>(e@)),
            None => sp_result_of(v@) is None,
        },
{
    let ms = match v {
        Json::Obj(ms) => ms,
        _ => {
            return None;
        },
    };
    match obj_get(ms, "Ok") {
        Some(x) => match toolresult_of_json(x) {
            Some(t) => Some(Ok(t)),
            None => None,
        },
        None => match obj_get(ms, "Err") {
            Some(e) => match coreerror_of_json(e) {
                Some(ce) => Some(Err(ce)),
                None => None,
            },
            None => None,
        },
    }
}

/// Reads a response back from its JSON form, exactly as `sp_response_of`
/// says.
pub fn response_of_json(v: &Json) -> (r: Option<Response>)
    ensures
        match r {
            Some(resp) => sp_response_of(v@) == Some(resp@),
            None => sp_response_of(v@) is None,
        },
{
    let ms = match v {
        Json::Obj(ms) => ms,
        _ => {
            return None;
        },
    };
    let tag = match obj_get(ms, "type") {
        Some(Json::Str(t)) => t,
        _ => {
            return None;
        },
    };
    let pl = match obj_get(ms, "payload") {
        Some(Json::Obj(p)) => p,
        _ => {
            return None;
        },
    };
    if str_eq(tag.as_str(), "Metadata") {
        match (
            str_field(pl, "id"),
            str_field(pl, "name"),
            str_field(pl, "version"),
            str_field(pl, "description"),
        ) {
            (Some(id), Some(name), Some(version), Some(description)) => Some(
                Response::Metadata { id, name, version, description },
            ),
            _ => None,
        }
    } else if str_eq(tag.as_str(), "ToolList") {
        let es = match obj_get(pl, "tools") {
            Some(Json::Arr(es)) => es,
            _ => {
                return None;
            },
        };
        proof {
            lemma_jview_seq(es@);
            assert(jview_seq(es@).subrange(0, es@.len() as int) =~= jview_seq(es@));
        }
        match (tools_from(es, 0), opt_str_field(pl, "correlation_id")) {
            (Some(ts), Some(cid)) => Some(
                Response::ToolList { tools: ts, correlation_id: cid },
            ),
            _ => None,
        }
    } else if str_eq(tag.as_str(), "ToolDetails") {
        let info = match obj_get(pl, "tool_info") {
            Some(ti) => match tool_info_of_json(ti) {
                Some(info) => info,
                None => {
                    return None;
                },
            },
            None => {
                return None;
            },
        };
        match (str_field(pl, "tool_id"), opt_str_field(pl, "correlation_id")) {
            (Some(t), Some(cid)) => Some(
                Response::ToolDetails { tool_id: t, tool_info: info, correlation_id: cid },
            ),
            _ => None,
        }
    } else if str_eq(tag.as_str(), "ToolResult") {
        let result = match obj_get(pl, "result") {
            Some(res) => match result_of_json(res) {
                Some(rr) => rr,
                None => {
                    return None;
                },
            },
            None => {
                return None;
            },
        };
        match (str_field(pl, "tool_id"), opt_str_field(pl, "correlation_id")) {
            (Some(t), Some(cid)) => Some(
                Response::ToolResult { tool_id: t, result, correlation_id: cid },
            ),
            _ => None,
        }
    } else if str_eq(tag.as_str(), "Error") {
        match (str_field(pl, "message"), opt_str_field(pl, "correlation_id")) {
            (Some(m), Some(cid)) => Some(Response::Error { message: m, correlation_id: cid }),
            _ => None,
        }
    } else {
        None
    }
}

/// Reads a response from wire text, exactly as `sp_decode_response` says.
pub fn decode_response(text: &str) -> (r: Option<Response>)
    ensures
        match r {
            Some(resp) => sp_decode_response(text@) == Some(resp@),
            None => sp_decode_response(text@) is None,
        },
{
    match parse_json(text) {
        Some(j) => response_of_json(&j),
        None => None,
    }
}

// ---------------------------------------------------------------------------
// Round trip of commands through their JSON form
// ---------------------------------------------------------------------------

pub proof fn lemma_lookup_hit(ms: Seq<(Seq<char>, JVal)>, key: Seq<char>)
    requires
        ms.len() > 0,
        ms[ms.len() - 1].0 == key,
    ensures
        obj_lookup(ms, key) == Some(ms[ms.len() - 1].1),
{
}

pub proof fn lemma_lookup_step(ms: Seq<(Seq<char>, JVal)>, key: Seq<char>)
    requires
        ms.len() > 0,
        ms[ms.len() - 1].0 != key,
    ensures
        obj_lookup(ms, key) == obj_lookup(ms.subrange(0, ms.len() - 1), key),
{
}

/// Round-trip law, structural half: a command read back from its JSON form
/// is the command itself, with a present or absent correlation id kept.
pub proof fn lemma_command_json_identity(c: CommandV)
    ensures
        sp_command_of(jv_of_command(c)) == Some(c),
{
    reveal_strlit("type");
    reveal_strlit("payload");
    reveal_strlit("correlation_id");
    reveal_strlit("tool_id");
    reveal_strlit("params");
    reveal_strlit("command");
    reveal_strlit("ListTools");
    reveal_strlit("GetToolDetails");
    reveal_strlit("ExecuteTool");
    reveal_strlit("Custom");
    assert("type"@.len() == 4);
    assert("payload"@.len() == 7);
    assert("correlation_id"@.len() == 14);
    assert("tool_id"@.len() == 7);
    assert("params"@.len() == 6);
    assert("command"@.len() == 7);
    assert("payload"@[0] == 'p');
    assert("tool_id"@[0] == 't');
    assert("command"@[0] == 'c');
    assert("ListTools"@.len() == 9);
    assert("GetToolDetails"@.len() == 14);
    assert("ExecuteTool"@.len() == 11);
    assert("Custom"@.len() == 6);
    let v = jv_of_command(c);
    let ms = v->Obj_0;
    assert(ms.len() == 2);
    lemma_lookup_hit(ms, "payload"@);
    lemma_lookup_step(ms, "type"@);
    assert(ms.subrange(0, 1)[0] == ms[0]);
    lemma_lookup_hit(ms.subrange(0, 1), "type"@);
    let pl = ms[1].1->Obj_0;
    match c {
        CommandV::ListTools { correlation_id } => {
            match correlation_id {
                Some(s) => {
                    assert(pl.len() == 1);
                    lemma_lookup_hit(pl, "correlation_id"@);
                },
                None => {
                    assert(pl.len() == 0);
                },
            }
        },
        CommandV::GetToolDetails { tool_id, correlation_id } => {
            match correlation_id {
                Some(s) => {
                    assert(pl.len() == 2);
                    lemma_lookup_hit(pl, "correlation_id"@);
                    lemma_lookup_step(pl, "tool_id"@);
                    assert(pl.subrange(0, 1)[0] == pl[0]);
                    lemma_lookup_hit(pl.subrange(0, 1), "tool_id"@);
                },
                None => {
                    assert(pl.len() == 1);
                    lemma_lookup_hit(pl, "tool_id"@);
                    lemma_lookup_step(pl, "correlation_id"@);
                    assert(pl.subrange(0, 0).len() == 0);
                },
            }
        },
        CommandV::ExecuteTool { tool_id, params, correlation_id } => {
            match correlation_id {
                Some(s) => {
                    assert(pl.len() == 3);
                    lemma_lookup_hit(pl, "correlation_id"@);
                    lemma_lookup_step(pl, "tool_id"@);
                    lemma_lookup_step(pl, "params"@);
                    assert(pl.subrange(0, 2)[0] == pl[0]);
                    assert(pl.subrange(0, 2)[1] == pl[1]);
                    lemma_lookup_hit(pl.subrange(0, 2), "params"@);
                    lemma_lookup_step(pl.subrange(0, 2), "tool_id"@);
                    assert(pl.subrange(0, 2).subrange(0, 1) =~= pl.subrange(0, 1));
                    assert(pl.subrange(0, 1)[0] == pl[0]);
                    lemma_lookup_hit(pl.subrange(0, 1), "tool_id"@);
                },
                None => {
                    assert(pl.len() == 2);
                    lemma_lookup_hit(pl, "params"@);
                    lemma_lookup_step(pl, "tool_id"@);
                    lemma_lookup_step(pl, "correlation_id"@);
                    assert(pl.subrange(0, 1)[0] == pl[0]);
                    lemma_lookup_hit(pl.subrange(0, 1), "tool_id"@);
                    lemma_lookup_step(pl.subrange(0, 1), "correlation_id"@);
                    assert(pl.subrange(0, 1).subrange(0, 0).len() == 0);
                },
            }
        },
        CommandV::Custom { command, correlation_id } => {
            match correlation_id {
                Some(s) => {
                    assert(pl.len() == 2);
                    lemma_lookup_hit(pl, "correlation_id"@);
                    lemma_lookup_step(pl, "command"@);
                    assert(pl.subrange(0, 1)[0] == pl[0]);
                    lemma_lookup_hit(pl.subrange(0, 1), "command"@);
                },
                None => {
                    assert(pl.len() == 1);
                    lemma_lookup_hit(pl, "command"@);
                    lemma_lookup_step(pl, "correlation_id"@);
                    assert(pl.subrange(0, 0).len() == 0);
                },
            }
        },
    }
}

} // verus!
