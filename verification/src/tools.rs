//! The tools the server offers: their names, their advertised descriptions, and
//! the checks on the arguments a call brings.
use vstd::prelude::*;
use crate::text::{str_concat, str_eq};

verus! {

/// A tool of the server.
#[derive(Debug, Clone, Copy, PartialEq, Eq, Structural)]
pub enum Tool {
    ListLabels,
    AnalyzeLabels,
    SearchEmails,
    CreateLabel,
    ApplyLabel,
    RemoveLabel,
}

/// The name under which a tool is called.
pub open spec fn tool_name(t: Tool) -> Seq<char> {
    match t {
        Tool::ListLabels => "list_labels"@,
        Tool::AnalyzeLabels => "analyze_labels"@,
        Tool::SearchEmails => "search_emails"@,
        Tool::CreateLabel => "create_label"@,
        Tool::ApplyLabel => "apply_label"@,
        Tool::RemoveLabel => "remove_label"@,
    }
}

/// The tool called `name`, if any.
pub open spec fn spec_parse_tool(name: Seq<char>) -> Option<Tool> {
    if name == "list_labels"@ {
        Some(Tool::ListLabels)
    } else if name == "analyze_labels"@ {
        Some(Tool::AnalyzeLabels)
    } else if name == "search_emails"@ {
        Some(Tool::SearchEmails)
    } else if name == "create_label"@ {
        Some(Tool::CreateLabel)
    } else if name == "apply_label"@ {
        Some(Tool::ApplyLabel)
    } else if name == "remove_label"@ {
        Some(Tool::RemoveLabel)
    } else {
        None
    }
}

impl Tool {
    /// The name under which the tool is called.
    pub fn name(&self) -> (r: String)
        ensures
            r@ == tool_name(*self),
    {
        match self {
            Tool::ListLabels => String::from_str("list_labels"),
            Tool::AnalyzeLabels => String::from_str("analyze_labels"),
            Tool::SearchEmails => String::from_str("search_emails"),
            Tool::CreateLabel => String::from_str("create_label"),
            Tool::ApplyLabel => String::from_str("apply_label"),
            Tool::RemoveLabel => String::from_str("remove_label"),
        }
    }
}

/// The tool a call names.
pub fn parse_tool(name: &str) -> (r: Option<Tool>)
    ensures
        r == spec_parse_tool(name@),
{
    if str_eq(name, "list_labels") {
        Some(Tool::ListLabels)
    } else if str_eq(name, "analyze_labels") {
        Some(Tool::AnalyzeLabels)
    } else if str_eq(name, "search_emails") {
        Some(Tool::SearchEmails)
    } else if str_eq(name, "create_label") {
        Some(Tool::CreateLabel)
    } else if str_eq(name, "apply_label") {
        Some(Tool::ApplyLabel)
    } else if str_eq(name, "remove_label") {
        Some(Tool::RemoveLabel)
    } else {
        None
    }
}

/// Every tool is found again by its name: no two tools share a name.
pub proof fn lemma_tool_found_by_name(t: Tool)
    ensures
        spec_parse_tool(tool_name(t)) == Some(t),
{
    reveal_strlit("list_labels");
    reveal_strlit("analyze_labels");
    reveal_strlit("search_emails");
    reveal_strlit("create_label");
    reveal_strlit("apply_label");
    reveal_strlit("remove_label");
    match t {
        Tool::ListLabels => {},
        Tool::AnalyzeLabels => {
            assert("analyze_labels"@[0] != "list_labels"@[0]);
        },
        Tool::SearchEmails => {
            assert("search_emails"@.len() != "list_labels"@.len());
            assert("search_emails"@.len() != "analyze_labels"@.len());
        },
        Tool::CreateLabel => {
            assert("create_label"@.len() != "list_labels"@.len());
            assert("create_label"@.len() != "analyze_labels"@.len());
            assert("create_label"@.len() != "search_emails"@.len());
        },
        Tool::ApplyLabel => {
            assert("apply_label"@[0] != "list_labels"@[0]);
            assert("apply_label"@.len() != "analyze_labels"@.len());
            assert("apply_label"@.len() != "search_emails"@.len());
            assert("apply_label"@.len() != "create_label"@.len());
        },
        Tool::RemoveLabel => {
            assert("remove_label"@[0] != "list_labels"@[0]);
            assert("remove_label"@.len() != "analyze_labels"@.len());
            assert("remove_label"@.len() != "search_emails"@.len());
            assert("remove_label"@[0] != "create_label"@[0]);
            assert("remove_label"@.len() != "apply_label"@.len());
        },
    }
}

/// A name is taken for a tool only when it is that tool's own name.
pub proof fn lemma_parse_tool_by_name(name: Seq<char>)
    ensures
        spec_parse_tool(name) is Some ==> tool_name(spec_parse_tool(name)->0) == name,
{
}

/// Why a tool call was refused before any request was made.
#[derive(Debug)]
pub enum ToolError {
    /// No tool has this name.
    UnknownTool(String),
    /// `create_label` came without a `name`.
    MissingName,
    /// `apply_label` or `remove_label` came without a `label_id`.
    MissingLabelId,
    /// `apply_label` or `remove_label` came without a `message_ids` list.
    MissingMessageIds,
    /// `search_emails` came without a `query`.
    MissingQuery,
    /// Gmail said the label exists, but no label of this name is listed.
    LabelNotFound(String),
}

/// The text of each refusal.
pub open spec fn tool_error_text(e: ToolError) -> Seq<char> {
    match e {
        ToolError::UnknownTool(n) => "Unknown tool: "@ + n@,
        ToolError::MissingName => "missing 'name'"@,
        ToolError::MissingLabelId => "missing 'label_id'"@,
        ToolError::MissingMessageIds => "missing 'message_ids'"@,
        ToolError::MissingQuery => "missing 'query' argument"@,
        ToolError::LabelNotFound(n) => "Label '"@ + n@ + "' already exists but not found"@,
    }
}

impl ToolError {
    /// The text shown for this refusal.
    pub fn message(&self) -> (r: String)
        ensures
            r@ == tool_error_text(*self),
    {
        match self {
            ToolError::UnknownTool(n) => str_concat("Unknown tool: ", n.as_str()),
            ToolError::MissingName => String::from_str("missing 'name'"),
            ToolError::MissingLabelId => String::from_str("missing 'label_id'"),
            ToolError::MissingMessageIds => String::from_str("missing 'message_ids'"),
            ToolError::MissingQuery => String::from_str("missing 'query' argument"),
            ToolError::LabelNotFound(n) => {
                let mut r = str_concat("Label '", n.as_str());
                r.append("' already exists but not found");
                r
            },
        }
    }
}

/// The tool a call names, or the refusal of an unknown name.
pub fn tool_for_call(name: &str) -> (r: Result<Tool, ToolError>)
    ensures
        match spec_parse_tool(name@) {
            Some(t) => r == Ok::<Tool, ToolError>(t),
            None => r matches Err(ToolError::UnknownTool(n)) && n@ == name@,
        },
{
    match parse_tool(name) {
        Some(t) => Ok(t),
        None => Err(ToolError::UnknownTool(String::from_str(name))),
    }
}

/// The refusal a call of tool `t` meets when it comes without the argument
/// `arg`, or `None` when the tool goes on without it.
pub open spec fn missing_error(t: Tool, arg: Seq<char>) -> Option<ToolError> {
    match t {
        Tool::CreateLabel => if arg == "name"@ {
            Some(ToolError::MissingName)
        } else {
            None
        },
        Tool::ApplyLabel | Tool::RemoveLabel => if arg == "label_id"@ {
            Some(ToolError::MissingLabelId)
        } else if arg == "message_ids"@ {
            Some(ToolError::MissingMessageIds)
        } else {
            None
        },
        Tool::SearchEmails => if arg == "query"@ {
            Some(ToolError::MissingQuery)
        } else {
            None
        },
        Tool::ListLabels | Tool::AnalyzeLabels => None,
    }
}

/// The name `create_label` asks for.
pub fn create_label_name(name: Option<String>) -> (r: Result<String, ToolError>)
    ensures
        match name {
            Some(n) => r == Ok::<String, ToolError>(n),
            None => r matches Err(ToolError::MissingName),
        },
        name is None ==> (r matches Err(e) && missing_error(Tool::CreateLabel, "name"@) == Some(e)),
{
    match name {
        Some(n) => Ok(n),
        None => Err(ToolError::MissingName),
    }
}

/// The strings of `s`, in order, skipping the entries that were no string.
pub open spec fn present_strings(s: Seq<Option<String>>) -> Seq<String>
    decreases s.len(),
{
    if s.len() == 0 {
        seq![]
    } else {
        match s.last() {
            Some(x) => present_strings(s.drop_last()).push(x),
            None => present_strings(s.drop_last()),
        }
    }
}

/// Skipping the entries that are no string works piece by piece: the strings of
/// two runs of entries one after the other are those of the first run followed
/// by those of the second; a string entry is kept and any other adds nothing.
pub proof fn lemma_present_strings_append(a: Seq<Option<String>>, b: Seq<Option<String>>)
    ensures
        present_strings(a + b) == present_strings(a) + present_strings(b),
        present_strings(a).len() <= a.len(),
    decreases b.len(), a.len(),
{
    if b.len() > 0 {
        lemma_present_strings_append(a, b.drop_last());
        assert((a + b).drop_last() =~= a + b.drop_last());
        match b.last() {
            Some(x) => {
                assert(present_strings(a) + present_strings(b) =~= (present_strings(a) + present_strings(
                    b.drop_last(),
                )).push(x));
            },
            None => {},
        }
    } else {
        assert(a + b =~= a);
        assert(present_strings(a) + present_strings(b) =~= present_strings(a));
        if a.len() > 0 {
            lemma_present_strings_append(a.drop_last(), b);
        }
    }
}

/// When every entry is a string, every one is kept, in order.
pub proof fn lemma_present_strings_all(s: Seq<Option<String>>)
    requires
        forall|i: int| 0 <= i < s.len() ==> (#[trigger] s[i]) is Some,
    ensures
        present_strings(s).len() == s.len(),
        forall|i: int| 0 <= i < s.len() ==> Some(#[trigger] present_strings(s)[i]) == s[i],
    decreases s.len(),
{
    if s.len() > 0 {
        let rest = s.drop_last();
        assert forall|i: int| 0 <= i < rest.len() implies (#[trigger] rest[i]) is Some by {
            assert(rest[i] == s[i]);
        }
        lemma_present_strings_all(rest);
        assert(s.last() == s[s.len() - 1]);
        assert forall|i: int| 0 <= i < s.len() implies Some(#[trigger] present_strings(s)[i]) == s[i] by {
            if i < s.len() - 1 {
                assert(rest[i] == s[i]);
            }
        }
    }
}

/// The label and the messages of `apply_label` and `remove_label`: the label
/// id is checked first, then the message list, whose entries that are no
/// string are skipped.
pub fn label_change_args(label_id: Option<String>, message_ids: Option<Vec<Option<String>>>) -> (r:
    Result<(String, Vec<String>), ToolError>)
    ensures
        label_id is None ==> r matches Err(ToolError::MissingLabelId),
        label_id is Some && message_ids is None ==> r matches Err(ToolError::MissingMessageIds),
        label_id is None ==> (r matches Err(e) && missing_error(Tool::ApplyLabel, "label_id"@) == Some(e)
            && missing_error(Tool::RemoveLabel, "label_id"@) == Some(e)),
        label_id is Some && message_ids is None ==> (r matches Err(e) && missing_error(
            Tool::ApplyLabel,
            "message_ids"@,
        ) == Some(e) && missing_error(Tool::RemoveLabel, "message_ids"@) == Some(e)),
        label_id is Some && message_ids is Some ==> (r matches Ok((l, ids)) && l == label_id->0
            && ids@ == present_strings(message_ids->0@)),
{
    let label = match label_id {
        None => {
            return Err(ToolError::MissingLabelId);
        },
        Some(l) => l,
    };
    let entries = match message_ids {
        None => {
            proof {
                reveal_strlit("message_ids");
                reveal_strlit("label_id");
                assert("message_ids"@.len() != "label_id"@.len());
            }
            return Err(ToolError::MissingMessageIds);
        },
        Some(v) => v,
    };
    let ghost all = entries@;
    let mut ids: Vec<String> = Vec::new();
    let mut rest = entries;
    let mut i: usize = 0;
    let n = rest.len();
    while i < n
        invariant
            n == all.len(),
            rest@ == all,
            i <= n,
            ids@ == present_strings(all.take(i as int)),
        decreases n - i,
    {
        assert(all.take(i + 1).drop_last() =~= all.take(i as int));
        let entry = rest[i].clone();
        proof {
            assert(cloned::<Option<String>>(all[i as int], entry));
        }
        match entry {
            Some(x) => {
                ids.push(x);
            },
            None => {},
        }
        i = i + 1;
    }
    assert(all.take(n as int) =~= all);
    Ok((label, ids))
}

/// The number of results `search_emails` asks for: the request's number, 20 when
/// absent, brought into 1..=100.
pub open spec fn spec_search_max(requested: Option<u64>) -> u64 {
    let n = match requested {
        Some(n) => n,
        None => 20,
    };
    if n > 100 {
        100
    } else if n < 1 {
        1
    } else {
        n
    }
}

/// The query and result count of `search_emails`.
pub fn search_args(query: Option<String>, max_results: Option<u64>) -> (r: Result<(String, u32), ToolError>)
    ensures
        query is None ==> r matches Err(ToolError::MissingQuery),
        query is None ==> (r matches Err(e) && missing_error(Tool::SearchEmails, "query"@) == Some(e)),
        query is Some ==> (r matches Ok((q, m)) && q == query->0 && m == spec_search_max(max_results)),
        r matches Ok((_, m)) ==> 1 <= m <= 100,
        query is Some && max_results is None ==> (r matches Ok((_, m)) && m == 20),
        query is Some && max_results is Some && 1 <= max_results->0 <= 100 ==> (r matches Ok((_, m))
            && m == max_results->0),
        query is Some && max_results is Some && max_results->0 > 100 ==> (r matches Ok((_, m)) && m == 100),
{
    let q = match query {
        None => {
            return Err(ToolError::MissingQuery);
        },
        Some(q) => q,
    };
    let n: u64 = match max_results {
        Some(n) => n,
        None => 20,
    };
    let n = if n > 100 {
        100
    } else if n < 1 {
        1
    } else {
        n
    };
    Ok((q, n as u32))
}

/// The result count of a search: 20 when none is asked for, the asked count
/// itself anywhere in 1..=100, 100 above that and 1 for a request of 0.
pub proof fn lemma_search_count(asked: u64)
    ensures
        spec_search_max(None) == 20,
        1 <= asked <= 100 ==> spec_search_max(Some(asked)) == asked,
        asked > 100 ==> spec_search_max(Some(asked)) == 100,
        asked == 0 ==> spec_search_max(Some(asked)) == 1,
        1 <= spec_search_max(Some(asked)) <= 100,
{
}

} // verus!
