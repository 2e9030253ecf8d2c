use email_tool::catalog::{tool_catalog, ParamKind};
use email_tool::gmail::{
    apply_label_request, create_label_request, existing_label, get_message_request,
    label_already_exists, list_labels_request, list_messages_request, profile_request,
    refresh_token_request, remove_label_request, search_messages_request, HttpMethod, RequestBody,
};
use email_tool::model::{Header, Label, LabelListResponse, Message, MessagePayload};
use email_tool::rpc::{
    call_name, method_not_found_message, parse_error_message, request_text, route_method,
    server_info, tool_failure_text, Response, Route, METHOD_NOT_FOUND, PARSE_ERROR,
};
use email_tool::search::{summarize, summarize_fetched};
use email_tool::tools::{
    create_label_name, label_change_args, parse_tool, search_args, tool_for_call, Tool, ToolError,
};

const ROOT: &str = "https://gmail.googleapis.com/gmail/v1/users/me";

fn pairs(v: &[(&str, &str)]) -> Vec<(String, String)> {
    v.iter().map(|(a, b)| (a.to_string(), b.to_string())).collect()
}

#[test]
fn methods_are_routed() {
    assert_eq!(route_method("initialize"), Route::Initialize);
    assert_eq!(route_method("notifications/initialized"), Route::Initialized);
    assert_eq!(route_method("tools/list"), Route::ToolsList);
    assert_eq!(route_method("tools/call"), Route::ToolsCall);
    assert_eq!(route_method("tools/lis"), Route::Unknown);
    assert_eq!(method_not_found_message("ping"), "Method not found: ping");
}

#[test]
fn blank_lines_are_skipped() {
    assert_eq!(request_text("   \t"), None);
    assert_eq!(request_text(" {\"id\":1} \n"), Some("{\"id\":1}".to_string()));
}

#[test]
fn response_texts() {
    assert_eq!(parse_error_message("EOF"), "Parse error: EOF");
    assert_eq!(tool_failure_text("boom"), "Error: boom");
    assert_eq!(call_name(None), "");
    assert_eq!(call_name(Some("x".to_string())), "x");
    assert_eq!(PARSE_ERROR, -32700);
    assert_eq!(METHOD_NOT_FOUND, -32601);
    let info = server_info();
    assert_eq!(info.protocol_version, "2024-11-05");
    assert_eq!(info.name, "email-tool");
    assert_eq!(info.version, "0.1.0");
}

#[test]
fn responses_carry_result_or_error() {
    let mut obj = serde_json::Map::new();
    obj.insert("a".to_string(), serde_json::Value::from(2u64));
    let result = serde_json::Value::Object(obj);
    let ok = Response::ok(serde_json::Value::from(1u64), result.clone());
    assert_eq!(ok.jsonrpc, "2.0");
    assert!(ok.error.is_none());
    assert_eq!(ok.id, serde_json::Value::from(1u64));
    assert_eq!(ok.result, Some(result));
    let err = Response::err(serde_json::Value::Null, -32601, "Method not found: x".to_string());
    assert!(err.result.is_none());
    let e = err.error.unwrap();
    assert_eq!(e.code, -32601);
    assert_eq!(e.message, "Method not found: x");
}

#[test]
fn tools_are_found_by_name() {
    assert_eq!(parse_tool("search_emails"), Some(Tool::SearchEmails));
    assert_eq!(parse_tool("Search_emails"), None);
    for t in [Tool::ListLabels, Tool::AnalyzeLabels, Tool::SearchEmails, Tool::CreateLabel, Tool::ApplyLabel, Tool::RemoveLabel] {
        assert_eq!(parse_tool(&t.name()), Some(t));
    }
    match tool_for_call("nope") {
        Err(e) => assert_eq!(e.message(), "Unknown tool: nope"),
        Ok(t) => panic!("unexpected {t:?}"),
    }
}

#[test]
fn catalog_advertises_every_tool_once() {
    let cat = tool_catalog();
    let names: Vec<String> = cat.iter().map(|t| t.name.clone()).collect();
    assert_eq!(names, vec!["list_labels", "analyze_labels", "create_label", "apply_label", "remove_label", "search_emails"]);
    for t in &cat {
        assert_eq!(parse_tool(&t.name), Some(t.tool));
    }
    let search = &cat[5];
    assert_eq!(search.required, vec!["query"]);
    assert_eq!(search.params.len(), 3);
    assert_eq!(search.params[1].name, "max_results");
    assert_eq!(search.params[1].kind, ParamKind::Integer);
    assert_eq!(cat[1].params[0].description, "Number of emails to sample (1\u{2013}2000, default 500)");
    assert_eq!(cat[3].params[0].kind, ParamKind::TextList);
    assert!(cat[0].params.is_empty());
}

#[test]
fn tool_arguments_are_checked() {
    assert_eq!(create_label_name(Some("Finance".to_string())).unwrap(), "Finance");
    let e = create_label_name(None).unwrap_err();
    assert!(matches!(e, ToolError::MissingName));
    assert_eq!(e.message(), "missing 'name'");

    let e = label_change_args(None, None).unwrap_err();
    assert_eq!(e.message(), "missing 'label_id'");
    let e = label_change_args(Some("L".to_string()), None).unwrap_err();
    assert_eq!(e.message(), "missing 'message_ids'");
    let (l, ids) = label_change_args(
        Some("L".to_string()),
        Some(vec![Some("m1".to_string()), None, Some("m2".to_string())]),
    )
    .unwrap();
    assert_eq!(l, "L");
    assert_eq!(ids, vec!["m1", "m2"]);

    let e = search_args(None, Some(5)).unwrap_err();
    assert_eq!(e.message(), "missing 'query' argument");
    assert_eq!(search_args(Some("q".to_string()), None).unwrap(), ("q".to_string(), 20));
    assert_eq!(search_args(Some("q".to_string()), Some(0)).unwrap().1, 1);
    assert_eq!(search_args(Some("q".to_string()), Some(1000)).unwrap().1, 100);
    assert_eq!(
        ToolError::LabelNotFound("X".to_string()).message(),
        "Label 'X' already exists but not found"
    );
}

#[test]
fn gmail_requests_are_described() {
    let p = profile_request();
    assert_eq!(p.url, format!("{ROOT}/profile"));
    assert!(p.authorized);
    let l = list_labels_request();
    assert_eq!(l.method, HttpMethod::Get);
    assert_eq!(l.url, format!("{ROOT}/labels"));
    assert!(l.query.is_empty());

    let labels = vec!["INBOX".to_string(), "Work".to_string()];
    let m = list_messages_request(500, Some("tok"), Some(&labels));
    assert_eq!(m.url, format!("{ROOT}/messages"));
    assert_eq!(m.query, pairs(&[("maxResults", "500"), ("pageToken", "tok"), ("labelIds", "INBOX"), ("labelIds", "Work")]));
    let p = email_tool::sampling::sampling_page_request(Some("tok"), Some(&labels));
    assert_eq!(p.url, m.url);
    assert_eq!(p.query, m.query);
    let p = email_tool::sampling::sampling_page_request(None, None);
    assert_eq!(p.query, pairs(&[("maxResults", "500")]));
    let m = list_messages_request(7, None, None);
    assert_eq!(m.query, pairs(&[("maxResults", "7")]));

    let s = search_messages_request("from:x", 20, None);
    assert_eq!(s.query, pairs(&[("q", "from:x"), ("maxResults", "20")]));
    let s = search_messages_request("a", 1, Some("p"));
    assert_eq!(s.query, pairs(&[("q", "a"), ("maxResults", "1"), ("pageToken", "p")]));

    let g = get_message_request("m1");
    assert_eq!(g.url, format!("{ROOT}/messages/m1"));
    assert_eq!(g.query, pairs(&[("format", "metadata"), ("metadataHeaders", "From"), ("metadataHeaders", "Subject")]));

    let c = create_label_request("Finance/CSOB");
    assert_eq!(c.method, HttpMethod::Post);
    match c.body {
        Some(RequestBody::CreateLabel { name }) => assert_eq!(name, "Finance/CSOB"),
        other => panic!("unexpected {other:?}"),
    }
}

#[test]
fn label_changes_swap_add_and_remove() {
    let a = apply_label_request("m1", "L1");
    let r = remove_label_request("m1", "L1");
    assert_eq!(a.url, format!("{ROOT}/messages/m1/modify"));
    assert_eq!(a.url, r.url);
    match (a.body, r.body) {
        (Some(RequestBody::ModifyLabels { add: a1, remove: r1 }), Some(RequestBody::ModifyLabels { add: a2, remove: r2 })) => {
            assert_eq!(a1, vec!["L1"]);
            assert!(r1.is_empty());
            assert!(a2.is_empty());
            assert_eq!(r2, vec!["L1"]);
        },
        other => panic!("unexpected {other:?}"),
    }
}

#[test]
fn refresh_request_posts_the_form() {
    let r = refresh_token_request("id", "secret", "rt");
    assert_eq!(r.url, "https://oauth2.googleapis.com/token");
    assert!(!r.authorized);
    match r.body {
        Some(RequestBody::Form(f)) => assert_eq!(
            f,
            pairs(&[("client_id", "id"), ("client_secret", "secret"), ("refresh_token", "rt"), ("grant_type", "refresh_token")])
        ),
        other => panic!("unexpected {other:?}"),
    }
}

fn label(id: &str, name: &str) -> Label {
    Label { id: id.to_string(), name: name.to_string(), label_type: None, messages_total: None }
}

#[test]
fn taken_label_name_finds_the_existing_label() {
    assert!(label_already_exists(409));
    assert!(!label_already_exists(200));
    let found = existing_label(vec![label("1", "A"), label("2", "B"), label("3", "B")], "B").unwrap();
    assert_eq!(found.id, "2");
    let e = existing_label(vec![label("1", "A")], "B").unwrap_err();
    assert_eq!(e.message(), "Label 'B' already exists but not found");
    let listed = LabelListResponse { labels: None }.into_labels();
    assert!(listed.is_empty());
}

fn message(id: &str, headers: Option<Vec<(&str, &str)>>) -> Message {
    Message {
        id: id.to_string(),
        label_ids: Some(vec!["INBOX".to_string()]),
        snippet: None,
        payload: Some(MessagePayload {
            headers: headers.map(|h| h.into_iter().map(|(n, v)| Header { name: n.to_string(), value: v.to_string() }).collect()),
        }),
    }
}

#[test]
fn messages_are_summed_up() {
    let s = summarize(message("m1", Some(vec![("From", "a@b"), ("Subject", "Hi"), ("Subject", "Second")])));
    assert_eq!(s.id, "m1");
    assert_eq!(s.subject, "Hi");
    assert_eq!(s.from, "a@b");
    assert_eq!(s.snippet, "");
    assert_eq!(s.labels, vec!["INBOX"]);
    let bare = summarize(Message { id: "x".to_string(), label_ids: None, snippet: Some("s".to_string()), payload: None });
    assert_eq!(bare.subject, "");
    assert!(bare.labels.is_empty());
    assert_eq!(bare.snippet, "s");
}

#[test]
fn failed_fetches_are_left_out_of_search_results() {
    let r = summarize_fetched(vec![Some(message("a", None)), None, Some(message("c", Some(vec![("subject", "lower")])))]);
    let ids: Vec<String> = r.iter().map(|s| s.id.clone()).collect();
    assert_eq!(ids, vec!["a", "c"]);
    assert_eq!(r[1].subject, "");
}
