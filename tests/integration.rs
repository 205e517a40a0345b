use timeboxd::{
    escape_graphql, issue_create_query, issue_create_result, issue_update_query,
    issue_update_result, join_messages, linear_test_result, list_reply, parse_i32,
    team_projects_query, team_states_query, teams_query, todoist_test_result, viewer_query,
    CreateLinearIssueRequest, IdleSettings, LinearIssue, LinearTeam,
};

#[test]
fn escape_handles_backslash_quote_and_newline() {
    assert_eq!(escape_graphql(r#"a\b"c"#), r#"a\\b\"c"#);
    assert_eq!(escape_graphql("line1\nline2"), "line1\\nline2");
    assert_eq!(escape_graphql("plain"), "plain");
    assert_eq!(escape_graphql(""), "");
    assert_eq!(escape_graphql("é\"ü"), "é\\\"ü");
}

#[test]
fn join_uses_comma_and_space() {
    let ms = vec!["first".to_string(), "second".to_string(), "third".to_string()];
    assert_eq!(join_messages(&ms), "first, second, third");
    assert_eq!(join_messages(&vec!["only".to_string()]), "only");
    assert_eq!(join_messages(&Vec::new()), "");
}

#[test]
fn constant_queries() {
    assert_eq!(viewer_query(), r#"{ "query": "{ viewer { id name email } }" }"#);
    assert_eq!(teams_query(), r#"{ "query": "{ teams(first: 100) { nodes { id name } } }" }"#);
}

#[test]
fn team_queries_embed_the_team_id() {
    assert_eq!(
        team_projects_query("T1"),
        r#"{ "query": "{ team(id: \"T1\") { projects(first: 250) { nodes { id name description state } } } }" }"#
    );
    assert_eq!(
        team_states_query("T1"),
        r#"{ "query": "{ team(id: \"T1\") { states { nodes { id name type } } } }" }"#
    );
}

#[test]
fn issue_create_query_escapes_title_and_description() {
    let req = CreateLinearIssueRequest {
        title: "Fix \"bug\"".to_string(),
        description: None,
        project_id: "P".to_string(),
        team_id: "T".to_string(),
    };
    assert_eq!(
        issue_create_query(&req),
        r#"{ "query": "mutation { issueCreate(input: { title: \"Fix \"bug\"\", description: \"\", projectId: \"P\", teamId: \"T\" }) { success issue { id identifier url title } } }" }"#
    );
}

#[test]
fn issue_update_query_embeds_ids() {
    assert_eq!(
        issue_update_query("I", "S"),
        r#"{ "query": "mutation { issueUpdate(id: \"I\", input: { stateId: \"S\" }) { success } }" }"#
    );
}

#[test]
fn list_reply_cases() {
    let bad: Result<Vec<LinearTeam>, String> = list_reply(Some("401 Unauthorized".to_string()), None, None);
    assert_eq!(bad.unwrap_err(), "Linear API returned status: 401 Unauthorized");
    let errs: Result<Vec<LinearTeam>, String> =
        list_reply(None, Some(vec!["a".to_string(), "b".to_string()]), None);
    assert_eq!(errs.unwrap_err(), "a, b");
    let empty: Result<Vec<LinearTeam>, String> = list_reply(None, None, None);
    assert!(empty.unwrap().is_empty());
    let team = LinearTeam { id: "1".to_string(), name: "Core".to_string() };
    let one = list_reply(None, None, Some(vec![team])).unwrap();
    assert_eq!(one[0].name, "Core");
}

#[test]
fn linear_test_result_cases() {
    let ok = linear_test_result(None, None, Some(("Ada".to_string(), "ada@x.org".to_string())));
    assert!(ok.success);
    assert_eq!(ok.user_name.as_deref(), Some("Ada"));
    assert_eq!(ok.user_email.as_deref(), Some("ada@x.org"));
    let none = linear_test_result(None, None, None);
    assert!(!none.success);
    assert_eq!(none.error.as_deref(), Some("No data returned from Linear"));
    let errs = linear_test_result(None, Some(vec!["bad key".to_string()]), None);
    assert_eq!(errs.error.as_deref(), Some("bad key"));
    let status = linear_test_result(Some("500 Internal Server Error".to_string()), None, None);
    assert_eq!(status.error.as_deref(), Some("Linear API returned status: 500 Internal Server Error"));
}

#[test]
fn issue_results() {
    let issue = LinearIssue {
        id: "i".to_string(),
        identifier: "ENG-1".to_string(),
        url: "u".to_string(),
        title: "t".to_string(),
    };
    let created = issue_create_result(None, None, Some((true, Some(issue))));
    assert!(created.success);
    assert_eq!(created.issue.unwrap().identifier, "ENG-1");
    let missing = issue_create_result(None, None, None);
    assert_eq!(missing.error.as_deref(), Some("No data returned from Linear"));
    assert_eq!(issue_update_result(None, None, Some(true)), Ok(true));
    assert_eq!(issue_update_result(None, None, None), Ok(false));
    assert_eq!(issue_update_result(None, Some(vec!["x".to_string()]), None), Err("x".to_string()));
}

#[test]
fn todoist_results() {
    let ok = todoist_test_result(None, "Ada Lovelace".to_string());
    assert!(ok.success);
    assert_eq!(ok.user_name.as_deref(), Some("Ada Lovelace"));
    let bad = todoist_test_result(Some("403 Forbidden".to_string()), "x".to_string());
    assert!(!bad.success);
    assert_eq!(bad.error.as_deref(), Some("Todoist API returned status: 403 Forbidden"));
}

#[test]
fn parse_i32_reads_decimal_numerals() {
    assert_eq!(parse_i32("5"), Some(5));
    assert_eq!(parse_i32("-12"), Some(-12));
    assert_eq!(parse_i32("+7"), Some(7));
    assert_eq!(parse_i32("2147483647"), Some(i32::MAX));
    assert_eq!(parse_i32("-2147483648"), Some(i32::MIN));
    assert_eq!(parse_i32("2147483648"), None);
    assert_eq!(parse_i32("99999999999999999999"), None);
    assert_eq!(parse_i32(""), None);
    assert_eq!(parse_i32("-"), None);
    assert_eq!(parse_i32("1a"), None);
    assert_eq!(parse_i32(" 1"), None);
}

#[test]
fn idle_settings_from_stored_texts() {
    let d = IdleSettings::from_stored(None, None);
    assert_eq!(d, IdleSettings { enabled: true, timeout_minutes: 5 });
    let s = IdleSettings::from_stored(Some("false".to_string()), Some("15".to_string()));
    assert_eq!(s, IdleSettings { enabled: false, timeout_minutes: 15 });
    let junk = IdleSettings::from_stored(Some("yes".to_string()), Some("soon".to_string()));
    assert_eq!(junk, IdleSettings { enabled: false, timeout_minutes: 5 });
    assert_eq!(s.enabled_text(), "false");
    assert_eq!(d.enabled_text(), "true");
}
