use vstd::prelude::*;
use vstd::string::StringExecFns;

verus! {

/// Outcome of checking a Linear API key.
#[derive(Debug, Clone)]
pub struct LinearTestResult {
    pub success: bool,
    pub user_name: Option<String>,
    pub user_email: Option<String>,
    pub error: Option<String>,
}

/// Outcome of checking a Todoist API token.
#[derive(Debug, Clone)]
pub struct TodoistTestResult {
    pub success: bool,
    pub user_name: Option<String>,
    pub error: Option<String>,
}

#[derive(Debug, Clone)]
pub struct LinearTeam {
    pub id: String,
    pub name: String,
}

#[derive(Debug, Clone)]
pub struct LinearApiProject {
    pub id: String,
    pub name: String,
    pub description: Option<String>,
    pub state: Option<String>,
}

#[derive(Debug, Clone)]
pub struct LinearIssue {
    pub id: String,
    pub identifier: String,
    pub url: String,
    pub title: String,
}

#[derive(Debug, Clone)]
pub struct CreateLinearIssueRequest {
    pub title: String,
    pub description: Option<String>,
    pub project_id: String,
    pub team_id: String,
}

#[derive(Debug, Clone)]
pub struct CreateLinearIssueResult {
    pub success: bool,
    pub issue: Option<LinearIssue>,
    pub error: Option<String>,
}

#[derive(Debug, Clone)]
pub struct LinearWorkflowState {
    pub id: String,
    pub name: String,
    pub state_type: String,
}

/// A Linear project saved locally, optionally offered when creating timeboxes.
#[derive(Debug, Clone)]
pub struct LinearProject {
    pub id: i64,
    pub linear_project_id: String,
    pub linear_team_id: String,
    pub name: String,
    pub description: Option<String>,
    pub state: Option<String>,
    pub is_active_timebox_project: bool,
    pub created_at: String,
    pub updated_at: String,
    pub archived_at: Option<String>,
    pub deleted_at: Option<String>,
}

#[derive(Debug, Clone)]
pub struct SaveLinearProjectRequest {
    pub linear_project_id: String,
    pub linear_team_id: String,
    pub name: String,
    pub description: Option<String>,
    pub state: Option<String>,
}

/// One character as it stands inside a quoted GraphQL string: backslash, double quote and
/// newline are escaped with a backslash.
pub open spec fn escaped_char(c: char) -> Seq<char> {
    if c == '\\' {
        seq!['\\', '\\']
    } else if c == '"' {
        seq!['\\', '"']
    } else if c == '\n' {
        seq!['\\', 'n']
    } else {
        seq![c]
    }
}

/// A text as it stands inside a quoted GraphQL string.
pub open spec fn graphql_escaped(s: Seq<char>) -> Seq<char>
    decreases s.len(),
{
    if s.len() == 0 {
        Seq::empty()
    } else {
        graphql_escaped(s.drop_last()) + escaped_char(s.last())
    }
}

/// The texts of a list of strings.
pub open spec fn texts(v: Seq<String>) -> Seq<Seq<char>> {
    Seq::new(v.len(), |i: int| v[i]@)
}

/// The messages separated by a comma and a space.
pub open spec fn joined(ms: Seq<Seq<char>>) -> Seq<char>
    decreases ms.len(),
{
    if ms.len() == 0 {
        Seq::empty()
    } else if ms.len() == 1 {
        ms[0]
    } else {
        joined(ms.drop_last()) + ", "@ + ms.last()
    }
}

/// Escapes `s` for use inside a quoted GraphQL string.
pub fn escape_graphql(s: &str) -> (r: String)
    ensures
        r@ == graphql_escaped(s@),
{
    let n = s.unicode_len();
    let mut out = String::new();
    let mut i: usize = 0;
    while i < n
        invariant
            n == s@.len(),
            0 <= i <= n,
            out@ == graphql_escaped(s@.take(i as int)),
        decreases n - i,
    {
        let c = s.get_char(i);
        proof {
            assert(s@.take(i as int + 1).drop_last() =~= s@.take(i as int));
            assert(s@.take(i as int + 1).last() == c);
            reveal_strlit("\\\\");
            reveal_strlit("\\\"");
            reveal_strlit("\\n");
        }
        if c == '\\' {
            out.append("\\\\");
        } else if c == '"' {
            out.append("\\\"");
        } else if c == '\n' {
            out.append("\\n");
        } else {
            let one = s.substring_char(i, i + 1);
            assert(one@ =~= seq![c]);
            out.append(one);
        }
        i = i + 1;
    }
    assert(s@.take(n as int) =~= s@);
    out
}

/// Joins error messages with ", ".
pub fn join_messages(messages: &Vec<String>) -> (r: String)
    ensures
        r@ == joined(texts(messages@)),
{
    let mut out = String::new();
    let mut i: usize = 0;
    while i < messages.len()
        invariant
            0 <= i <= messages@.len(),
            out@ == joined(texts(messages@.take(i as int))),
        decreases messages@.len() - i,
    {
        proof {
            assert(texts(messages@.take(i as int + 1)).drop_last() =~= texts(
                messages@.take(i as int),
            ));
            assert(texts(messages@.take(i as int + 1)).last() == messages@[i as int]@);
            assert(texts(messages@.take(i as int + 1)).len() == i + 1);
        }
        if i > 0 {
            out.append(", ");
        } else {
            assert(texts(messages@.take(1))[0] == messages@[0]@);
            assert(out@ =~= Seq::<char>::empty());
        }
        out.append(messages[i].as_str());
        i = i + 1;
    }
    assert(messages@.take(messages@.len() as int) =~= messages@);
    out
}

/// `o` holds a string with text `t`.
pub open spec fn holds_text(o: Option<String>, t: Seq<char>) -> bool {
    o matches Some(m) && m@ == t
}

/// `r` is an error whose message has text `t`.
pub open spec fn fails_with<T>(r: Result<T, String>, t: Seq<char>) -> bool {
    r matches Err(m) && m@ == t
}

/// The message for a reply whose HTTP status is not a success.
pub open spec fn status_message(status: Seq<char>) -> Seq<char> {
    "Linear API returned status: "@ + status
}

fn status_error(status: &str) -> (r: String)
    ensures
        r@ == status_message(status@),
{
    let mut out = String::from_str("Linear API returned status: ");
    out.append(status);
    out
}

/// The request body that asks for the viewer of an API key.
pub fn viewer_query() -> (r: String)
    ensures
        r@ == "{ \"query\": \"{ viewer { id name email } }\" }"@,
{
    String::from_str("{ \"query\": \"{ viewer { id name email } }\" }")
}

/// The request body that asks for up to 100 teams.
pub fn teams_query() -> (r: String)
    ensures
        r@ == "{ \"query\": \"{ teams(first: 100) { nodes { id name } } }\" }"@,
{
    String::from_str("{ \"query\": \"{ teams(first: 100) { nodes { id name } } }\" }")
}

/// The request body that asks for up to 250 projects of team `team_id`.
pub fn team_projects_query(team_id: &str) -> (r: String)
    ensures
        r@ == "{ \"query\": \"{ team(id: \\\""@ + team_id@
            + "\\\") { projects(first: 250) { nodes { id name description state } } } }\" }"@,
{
    let mut q = String::from_str("{ \"query\": \"{ team(id: \\\"");
    q.append(team_id);
    q.append("\\\") { projects(first: 250) { nodes { id name description state } } } }\" }");
    q
}

/// The request body that asks for the workflow states of team `team_id`.
pub fn team_states_query(team_id: &str) -> (r: String)
    ensures
        r@ == "{ \"query\": \"{ team(id: \\\""@ + team_id@
            + "\\\") { states { nodes { id name type } } } }\" }"@,
{
    let mut q = String::from_str("{ \"query\": \"{ team(id: \\\"");
    q.append(team_id);
    q.append("\\\") { states { nodes { id name type } } } }\" }");
    q
}

/// The description of an issue request, empty when absent.
pub open spec fn description_text(request: CreateLinearIssueRequest) -> Seq<char> {
    match request.description {
        Some(d) => d@,
        None => Seq::empty(),
    }
}

/// The request body that creates an issue; title and description are escaped.
pub fn issue_create_query(request: &CreateLinearIssueRequest) -> (r: String)
    ensures
        r@ == "{ \"query\": \"mutation { issueCreate(input: { title: \\\""@ + graphql_escaped(
            request.title@,
        ) + "\\\", description: \\\""@ + graphql_escaped(description_text(*request))
            + "\\\", projectId: \\\""@ + request.project_id@ + "\\\", teamId: \\\""@
            + request.team_id@
            + "\\\" }) { success issue { id identifier url title } } }\" }"@,
{
    let title = escape_graphql(request.title.as_str());
    let description = match &request.description {
        Some(d) => escape_graphql(d.as_str()),
        None => String::new(),
    };
    proof {
        if request.description is None {
            assert(graphql_escaped(Seq::<char>::empty()) =~= Seq::<char>::empty());
        }
    }
    let mut q = String::from_str("{ \"query\": \"mutation { issueCreate(input: { title: \\\"");
    q.append(title.as_str());
    q.append("\\\", description: \\\"");
    q.append(description.as_str());
    q.append("\\\", projectId: \\\"");
    q.append(request.project_id.as_str());
    q.append("\\\", teamId: \\\"");
    q.append(request.team_id.as_str());
    q.append("\\\" }) { success issue { id identifier url title } } }\" }");
    q
}

/// The request body that moves issue `issue_id` to workflow state `state_id`.
pub fn issue_update_query(issue_id: &str, state_id: &str) -> (r: String)
    ensures
        r@ == "{ \"query\": \"mutation { issueUpdate(id: \\\""@ + issue_id@
            + "\\\", input: { stateId: \\\""@ + state_id@ + "\\\" }) { success } }\" }"@,
{
    let mut q = String::from_str("{ \"query\": \"mutation { issueUpdate(id: \\\"");
    q.append(issue_id);
    q.append("\\\", input: { stateId: \\\"");
    q.append(state_id);
    q.append("\\\" }) { success } }\" }");
    q
}

/// Reads the reply to a list query: a failed HTTP status or reported errors become an error
/// message; otherwise the listed nodes, none when the reply holds no data.
pub fn list_reply<T>(
    failed_status: Option<String>,
    errors: Option<Vec<String>>,
    nodes: Option<Vec<T>>,
) -> (r: Result<Vec<T>, String>)
    ensures
        failed_status matches Some(s) ==> fails_with(r, status_message(s@)),
        failed_status is None && errors is Some ==> fails_with(r, joined(texts(errors->Some_0@))),
        failed_status is None && errors is None ==> (r matches Ok(v) && v@ == match nodes {
            Some(n) => n@,
            None => Seq::<T>::empty(),
        }),
{
    if let Some(s) = failed_status {
        return Err(status_error(s.as_str()));
    }
    if let Some(es) = errors {
        return Err(join_messages(&es));
    }
    match nodes {
        Some(n) => Ok(n),
        None => Ok(Vec::new()),
    }
}

/// Reads the reply to a viewer query.
pub fn linear_test_result(
    failed_status: Option<String>,
    errors: Option<Vec<String>>,
    viewer: Option<(String, String)>,
) -> (r: LinearTestResult)
    ensures
        failed_status matches Some(s) ==> !r.success && r.user_name is None && r.user_email is None
            && holds_text(r.error, status_message(s@)),
        failed_status is None && errors is Some ==> !r.success && r.user_name is None
            && r.user_email is None && holds_text(r.error, joined(texts(errors->Some_0@))),
        failed_status is None && errors is None && viewer is Some ==> r.success && r.user_name
            == Some(viewer->Some_0.0) && r.user_email == Some(viewer->Some_0.1) && r.error is None,
        failed_status is None && errors is None && viewer is None ==> !r.success && r.user_name is None
            && r.user_email is None && holds_text(r.error, "No data returned from Linear"@),
{
    if let Some(s) = failed_status {
        return LinearTestResult {
            success: false,
            user_name: None,
            user_email: None,
            error: Some(status_error(s.as_str())),
        };
    }
    if let Some(es) = errors {
        return LinearTestResult {
            success: false,
            user_name: None,
            user_email: None,
            error: Some(join_messages(&es)),
        };
    }
    match viewer {
        Some((name, email)) => LinearTestResult {
            success: true,
            user_name: Some(name),
            user_email: Some(email),
            error: None,
        },
        None => LinearTestResult {
            success: false,
            user_name: None,
            user_email: None,
            error: Some(String::from_str("No data returned from Linear")),
        },
    }
}

/// Reads the reply to an issue creation.
pub fn issue_create_result(
    failed_status: Option<String>,
    errors: Option<Vec<String>>,
    created: Option<(bool, Option<LinearIssue>)>,
) -> (r: CreateLinearIssueResult)
    ensures
        failed_status matches Some(s) ==> !r.success && r.issue is None && holds_text(r.error, status_message(s@)),
        failed_status is None && errors is Some ==> !r.success && r.issue is None
            && holds_text(r.error, joined(texts(errors->Some_0@))),
        failed_status is None && errors is None && created is Some ==> r.success
            == created->Some_0.0 && r.issue == created->Some_0.1 && r.error is None,
        failed_status is None && errors is None && created is None ==> !r.success && r.issue is None
            && holds_text(r.error, "No data returned from Linear"@),
{
    if let Some(s) = failed_status {
        return CreateLinearIssueResult {
            success: false,
            issue: None,
            error: Some(status_error(s.as_str())),
        };
    }
    if let Some(es) = errors {
        return CreateLinearIssueResult { success: false, issue: None, error: Some(join_messages(&es)) };
    }
    match created {
        Some((success, issue)) => CreateLinearIssueResult { success, issue, error: None },
        None => CreateLinearIssueResult {
            success: false,
            issue: None,
            error: Some(String::from_str("No data returned from Linear")),
        },
    }
}

/// Reads the reply to an issue state change: whether Linear reported success.
pub fn issue_update_result(
    failed_status: Option<String>,
    errors: Option<Vec<String>>,
    success: Option<bool>,
) -> (r: Result<bool, String>)
    ensures
        failed_status matches Some(s) ==> fails_with(r, status_message(s@)),
        failed_status is None && errors is Some ==> fails_with(r, joined(texts(errors->Some_0@))),
        failed_status is None && errors is None ==> r == Ok::<bool, String>(
            success == Some(true),
        ),
{
    if let Some(s) = failed_status {
        return Err(status_error(s.as_str()));
    }
    if let Some(es) = errors {
        return Err(join_messages(&es));
    }
    match success {
        Some(b) => Ok(b),
        None => Ok(false),
    }
}

/// The message for a Todoist reply whose HTTP status is not a success.
pub open spec fn todoist_status_message(status: Seq<char>) -> Seq<char> {
    "Todoist API returned status: "@ + status
}

/// Reads the reply to a Todoist user query: the user's full name, unless the HTTP status failed.
pub fn todoist_test_result(failed_status: Option<String>, full_name: String) -> (r:
    TodoistTestResult)
    ensures
        failed_status matches Some(s) ==> !r.success && r.user_name is None && holds_text(
            r.error,
            todoist_status_message(s@),
        ),
        failed_status is None ==> r.success && r.user_name == Some(full_name) && r.error is None,
{
    if let Some(s) = failed_status {
        let mut m = String::from_str("Todoist API returned status: ");
        m.append(s.as_str());
        return TodoistTestResult { success: false, user_name: None, error: Some(m) };
    }
    TodoistTestResult { success: true, user_name: Some(full_name), error: None }
}

} // verus!
