//! The tool list the server advertises to its client.
use vstd::prelude::*;
use crate::tools::{spec_parse_tool, tool_name, lemma_tool_found_by_name, missing_error, Tool};

verus! {

/// The JSON type of a tool parameter.
#[derive(Debug, Clone, Copy, PartialEq, Eq, Structural)]
pub enum ParamKind {
    /// A JSON integer.
    Integer,
    /// A JSON string.
    Text,
    /// A JSON array of strings.
    TextList,
}

/// One advertised parameter of a tool.
#[derive(Debug)]
pub struct ParamSpec {
    pub name: String,
    pub kind: ParamKind,
    pub description: String,
}

/// One advertised tool.
#[derive(Debug)]
pub struct ToolSpec {
    pub tool: Tool,
    pub name: String,
    pub description: String,
    pub params: Vec<ParamSpec>,
    pub required: Vec<String>,
}

/// The tools in the order they are advertised.
pub open spec fn advertised_tools() -> Seq<Tool> {
    seq![
        Tool::ListLabels,
        Tool::AnalyzeLabels,
        Tool::CreateLabel,
        Tool::ApplyLabel,
        Tool::RemoveLabel,
        Tool::SearchEmails,
    ]
}

/// What a tool is advertised to do.
pub open spec fn tool_description(t: Tool) -> Seq<char> {
    match t {
        Tool::ListLabels => "List all Gmail labels (system + user-defined) with message counts."@,
        Tool::AnalyzeLabels => "Sample random emails and build a label frequency + co-occurrence report."@,
        Tool::CreateLabel => "Create a new Gmail label. Use '/' for nesting, e.g. 'Bydleni/CimickyHaj'."@,
        Tool::ApplyLabel => "Apply a label to one or more emails by message ID. Use list_labels to get label IDs."@,
        Tool::RemoveLabel => "Remove a label from one or more emails by message ID."@,
        Tool::SearchEmails => "Search Gmail using standard query syntax. Returns id, subject, from, snippet, labels, and next_page_token for pagination."@,
    }
}

/// The advertised parameters of a tool: name, type and description.
pub open spec fn tool_params(t: Tool) -> Seq<(Seq<char>, ParamKind, Seq<char>)> {
    match t {
        Tool::ListLabels => seq![],
        Tool::AnalyzeLabels => seq![
            ("sample_size"@, ParamKind::Integer, "Number of emails to sample (1\u{2013}2000, default 500)"@),
            ("label_filter"@, ParamKind::Text, "Optional label ID to restrict sampling to (e.g. INBOX)"@),
        ],
        Tool::CreateLabel => seq![
            ("name"@, ParamKind::Text, "Label name, e.g. 'Finance/CSOB' or 'Nakupy/Alza'"@),
        ],
        Tool::ApplyLabel => seq![
            ("message_ids"@, ParamKind::TextList, "List of Gmail message IDs to label"@),
            ("label_id"@, ParamKind::Text, "Label ID (from list_labels or create_label response)"@),
        ],
        Tool::RemoveLabel => seq![
            ("message_ids"@, ParamKind::TextList, "List of Gmail message IDs"@),
            ("label_id"@, ParamKind::Text, "Label ID to remove"@),
        ],
        Tool::SearchEmails => seq![
            ("query"@, ParamKind::Text, "Gmail search query, e.g. 'from:noreply label:INBOX'"@),
            ("max_results"@, ParamKind::Integer, "Max results (default 20, max 100)"@),
            ("page_token"@, ParamKind::Text, "Page token from previous search result for pagination (next_page_token field)"@),
        ],
    }
}

/// The parameters a call of the tool must bring.
pub open spec fn tool_required(t: Tool) -> Seq<Seq<char>> {
    match t {
        Tool::ListLabels => seq![],
        Tool::AnalyzeLabels => seq![],
        Tool::CreateLabel => seq!["name"@],
        Tool::ApplyLabel => seq!["message_ids"@, "label_id"@],
        Tool::RemoveLabel => seq!["message_ids"@, "label_id"@],
        Tool::SearchEmails => seq!["query"@],
    }
}

/// The contents of an advertised parameter.
pub open spec fn param_view(p: ParamSpec) -> (Seq<char>, ParamKind, Seq<char>) {
    (p.name@, p.kind, p.description@)
}

/// `s` advertises tool `t` as `tool_name`, `tool_description`, `tool_params` and
/// `tool_required` say.
pub open spec fn advertises(s: ToolSpec, t: Tool) -> bool {
    &&& s.tool == t
    &&& s.name@ == tool_name(t)
    &&& s.description@ == tool_description(t)
    &&& s.params@.map_values(|p: ParamSpec| param_view(p)) == tool_params(t)
    &&& s.required@.map_values(|r: String| r@) == tool_required(t)
}

fn param(name: &str, kind: ParamKind, description: &str) -> (r: ParamSpec)
    ensures
        r.name@ == name@,
        r.kind == kind,
        r.description@ == description@,
{
    ParamSpec { name: String::from_str(name), kind, description: String::from_str(description) }
}

fn tool_spec(t: Tool, description: &str, params: Vec<ParamSpec>, required: Vec<String>) -> (r: ToolSpec)
    ensures
        r.tool == t,
        r.name@ == tool_name(t),
        r.description@ == description@,
        r.params == params,
        r.required == required,
{
    ToolSpec { tool: t, name: t.name(), description: String::from_str(description), params, required }
}

fn describe(t: Tool) -> (r: ToolSpec)
    ensures
        advertises(r, t),
{
    let mut params: Vec<ParamSpec> = Vec::new();
    let mut required: Vec<String> = Vec::new();
    match t {
        Tool::ListLabels => {
            let r = tool_spec(t, "List all Gmail labels (system + user-defined) with message counts.", params, required);
            assert(r.params@.map_values(|p: ParamSpec| param_view(p)) =~= tool_params(t));
            assert(r.required@.map_values(|x: String| x@) =~= tool_required(t));
            r
        },
        Tool::AnalyzeLabels => {
            params.push(param("sample_size", ParamKind::Integer, "Number of emails to sample (1\u{2013}2000, default 500)"));
            params.push(param("label_filter", ParamKind::Text, "Optional label ID to restrict sampling to (e.g. INBOX)"));
            let r = tool_spec(t, "Sample random emails and build a label frequency + co-occurrence report.", params, required);
            assert(r.params@.map_values(|p: ParamSpec| param_view(p)) =~= tool_params(t));
            assert(r.required@.map_values(|x: String| x@) =~= tool_required(t));
            r
        },
        Tool::CreateLabel => {
            params.push(param("name", ParamKind::Text, "Label name, e.g. 'Finance/CSOB' or 'Nakupy/Alza'"));
            required.push(String::from_str("name"));
            let r = tool_spec(t, "Create a new Gmail label. Use '/' for nesting, e.g. 'Bydleni/CimickyHaj'.", params, required);
            assert(r.params@.map_values(|p: ParamSpec| param_view(p)) =~= tool_params(t));
            assert(r.required@.map_values(|x: String| x@) =~= tool_required(t));
            r
        },
        Tool::ApplyLabel => {
            params.push(param("message_ids", ParamKind::TextList, "List of Gmail message IDs to label"));
            params.push(param("label_id", ParamKind::Text, "Label ID (from list_labels or create_label response)"));
            required.push(String::from_str("message_ids"));
            required.push(String::from_str("label_id"));
            let r = tool_spec(t, "Apply a label to one or more emails by message ID. Use list_labels to get label IDs.", params, required);
            assert(r.params@.map_values(|p: ParamSpec| param_view(p)) =~= tool_params(t));
            assert(r.required@.map_values(|x: String| x@) =~= tool_required(t));
            r
        },
        Tool::RemoveLabel => {
            params.push(param("message_ids", ParamKind::TextList, "List of Gmail message IDs"));
            params.push(param("label_id", ParamKind::Text, "Label ID to remove"));
            required.push(String::from_str("message_ids"));
            required.push(String::from_str("label_id"));
            let r = tool_spec(t, "Remove a label from one or more emails by message ID.", params, required);
            assert(r.params@.map_values(|p: ParamSpec| param_view(p)) =~= tool_params(t));
            assert(r.required@.map_values(|x: String| x@) =~= tool_required(t));
            r
        },
        Tool::SearchEmails => {
            params.push(param("query", ParamKind::Text, "Gmail search query, e.g. 'from:noreply label:INBOX'"));
            params.push(param("max_results", ParamKind::Integer, "Max results (default 20, max 100)"));
            params.push(param("page_token", ParamKind::Text, "Page token from previous search result for pagination (next_page_token field)"));
            required.push(String::from_str("query"));
            let r = tool_spec(t, "Search Gmail using standard query syntax. Returns id, subject, from, snippet, labels, and next_page_token for pagination.", params, required);
            assert(r.params@.map_values(|p: ParamSpec| param_view(p)) =~= tool_params(t));
            assert(r.required@.map_values(|x: String| x@) =~= tool_required(t));
            r
        },
    }
}

/// The advertised tools, in order.
pub fn tool_catalog() -> (r: Vec<ToolSpec>)
    ensures
        r@.len() == advertised_tools().len(),
        forall|i: int| 0 <= i < r@.len() ==> advertises(#[trigger] r@[i], advertised_tools()[i]),
{
    let mut r: Vec<ToolSpec> = Vec::new();
    r.push(describe(Tool::ListLabels));
    r.push(describe(Tool::AnalyzeLabels));
    r.push(describe(Tool::CreateLabel));
    r.push(describe(Tool::ApplyLabel));
    r.push(describe(Tool::RemoveLabel));
    r.push(describe(Tool::SearchEmails));
    r
}

/// Every advertised tool is called by its advertised name, each tool is
/// advertised once, and every tool of the server is advertised.
pub proof fn lemma_catalog_matches_dispatch()
    ensures
        forall|i: int| 0 <= i < advertised_tools().len() ==> spec_parse_tool(
            tool_name(#[trigger] advertised_tools()[i]),
        ) == Some(advertised_tools()[i]),
        forall|i: int, j: int|
            0 <= i < j < advertised_tools().len() ==> #[trigger] advertised_tools()[i]
                != #[trigger] advertised_tools()[j],
        forall|t: Tool| #[trigger] advertised_tools().contains(t),
{
    assert forall|i: int| 0 <= i < advertised_tools().len() implies spec_parse_tool(
        tool_name(#[trigger] advertised_tools()[i]),
    ) == Some(advertised_tools()[i]) by {
        lemma_tool_found_by_name(advertised_tools()[i]);
    }
    assert forall|t: Tool| #[trigger] advertised_tools().contains(t) by {
        match t {
            Tool::ListLabels => assert(advertised_tools()[0] == t),
            Tool::AnalyzeLabels => assert(advertised_tools()[1] == t),
            Tool::CreateLabel => assert(advertised_tools()[2] == t),
            Tool::ApplyLabel => assert(advertised_tools()[3] == t),
            Tool::RemoveLabel => assert(advertised_tools()[4] == t),
            Tool::SearchEmails => assert(advertised_tools()[5] == t),
        }
    }
}

/// The arguments a tool is advertised to require are exactly those whose
/// absence its argument check refuses; each of them is an advertised parameter
/// of the tool, and none is listed twice.
pub proof fn lemma_required_means_refused(t: Tool, arg: Seq<char>)
    ensures
        tool_required(t).contains(arg) <==> missing_error(t, arg) is Some,
        tool_required(t).contains(arg) ==> exists|i: int|
            0 <= i < tool_params(t).len() && (#[trigger] tool_params(t)[i]).0 == arg,
        tool_required(t).no_duplicates(),
{
    reveal_strlit("name");
    reveal_strlit("label_id");
    reveal_strlit("message_ids");
    reveal_strlit("query");
    assert("message_ids"@.len() != "label_id"@.len());
    let req = tool_required(t);
    if missing_error(t, arg) is Some {
        match t {
            Tool::CreateLabel => assert(req[0] == arg),
            Tool::ApplyLabel | Tool::RemoveLabel => {
                if arg == "message_ids"@ {
                    assert(req[0] == arg);
                } else {
                    assert(req[1] == arg);
                }
            },
            Tool::SearchEmails => assert(req[0] == arg),
            _ => {},
        }
    }
    if req.contains(arg) {
        let k = choose|k: int| 0 <= k < req.len() && req[k] == arg;
        match t {
            Tool::CreateLabel => assert(tool_params(t)[0].0 == arg),
            Tool::ApplyLabel | Tool::RemoveLabel => {
                assert(tool_params(t)[k].0 == arg);
            },
            Tool::SearchEmails => assert(tool_params(t)[0].0 == arg),
            _ => {},
        }
    }
}

/// The advertised parameter types are those the argument checks read: the
/// message id list is the one array of strings, the sample size and the result
/// count are the integers, and every other parameter is a string; no tool
/// advertises a parameter twice.
pub proof fn lemma_param_kinds(t: Tool)
    ensures
        forall|i: int|
            0 <= i < tool_params(t).len() ==> ((#[trigger] tool_params(t)[i]).1 == ParamKind::TextList
                <==> tool_params(t)[i].0 == "message_ids"@),
        forall|i: int|
            0 <= i < tool_params(t).len() ==> ((#[trigger] tool_params(t)[i]).1 == ParamKind::Integer
                <==> (tool_params(t)[i].0 == "sample_size"@ || tool_params(t)[i].0 == "max_results"@)),
        forall|i: int, j: int|
            0 <= i < j < tool_params(t).len() ==> (#[trigger] tool_params(t)[i]).0 != (#[trigger] tool_params(t)[j]).0,
{
    reveal_strlit("message_ids");
    reveal_strlit("label_id");
    reveal_strlit("sample_size");
    reveal_strlit("label_filter");
    reveal_strlit("max_results");
    reveal_strlit("query");
    reveal_strlit("page_token");
    reveal_strlit("name");
    assert("message_ids"@.len() != "label_id"@.len());
    assert("sample_size"@[0] != "label_filter"@[0]);
    assert("sample_size"@[0] != "message_ids"@[0]);
    assert("sample_size"@[0] != "max_results"@[0]);
    assert("max_results"@[1] != "message_ids"@[1]);
    assert("max_results"@.len() != "query"@.len());
    assert("max_results"@[0] != "page_token"@[0]);
    assert("query"@.len() != "page_token"@.len());
    assert("label_filter"@.len() != "message_ids"@.len());
    assert("name"@.len() != "message_ids"@.len());
    assert("label_id"@.len() != "sample_size"@.len());
    assert("label_id"@.len() != "max_results"@.len());
    assert("label_filter"@.len() != "max_results"@.len());
    assert("query"@.len() != "message_ids"@.len());
    assert("page_token"@.len() != "message_ids"@.len());
    assert("query"@.len() != "sample_size"@.len());
    assert("page_token"@.len() != "sample_size"@.len());
    assert("name"@.len() != "sample_size"@.len());
    assert("name"@.len() != "max_results"@.len());
}

} // verus!
