//! What each endpoint decides: ticket numbering, the form token check, and
//! the data-access call it leads to. Rendering and redirects are left to the
//! web layer.
use crate::issue::{
    created_row, edited_issue_valid, new_contact, new_issue_valid, status_open, EditedIssue,
    Issue, IssueError, IssueView, NewIssue, row_markup_free,
};
use crate::table::{
    complete_outcome, completed, destroy_outcome, index_of, inserted, newest_first, destroyed, find_outcome, latest, outcome_view,
    replaced, update_outcome, views, IssueTable, LIST_LIMIT,
};
use crate::text::{same_text, token_accepted, token_matches};
use vstd::prelude::*;

verus! {

/// The ticket number that follows the newest of `last`: 1 when there is
/// none, else one more than its number; nothing when that would overflow.
pub open spec fn next_ticket(last: Seq<IssueView>) -> Option<i64> {
    if last.len() == 0 {
        Some(1)
    } else if last.last().ticket_number < i64::MAX {
        Some((last.last().ticket_number + 1) as i64)
    } else {
        None
    }
}

/// The ticket number for the next issue, from the newest issue read.
pub fn next_ticket_number(last: &Vec<Issue>) -> (r: Option<i64>)
    ensures
        r == next_ticket(views(last@)),
{
    let n = last.len();
    if n == 0 {
        Some(1)
    } else {
        assert(views(last@).last() == last@[n - 1]@);
        let t = last[n - 1].ticket_number;
        if t < i64::MAX {
            Some(t + 1)
        } else {
            None
        }
    }
}

/// The ticket number that a creation on `rows` is given.
pub open spec fn ticket_for(rows: Seq<IssueView>) -> Option<i64> {
    next_ticket(latest(rows, 1))
}

/// Handles a submitted new-issue form: checks the form, then its token,
/// numbers the ticket after the newest issue, and stores the issue. Returns
/// the ticket number given.
pub fn create_issue(table: &mut IssueTable, new_issue: &NewIssue, session_token: &str) -> (r:
    Result<i64, IssueError>)
    ensures
        !new_issue_valid(*new_issue) ==> r == Err::<i64, IssueError>(IssueError::ValidationError),
        new_issue_valid(*new_issue) && !token_accepted(
            session_token@,
            new_issue.authenticity_token@,
        ) ==> r == Err::<i64, IssueError>(IssueError::SecurityError),
        new_issue_valid(*new_issue) && token_accepted(
            session_token@,
            new_issue.authenticity_token@,
        ) && ticket_for(old(table)@) is None ==> r == Err::<i64, IssueError>(
            IssueError::StorageError,
        ),
        new_issue_valid(*new_issue) && token_accepted(
            session_token@,
            new_issue.authenticity_token@,
        ) && ticket_for(old(table)@) is Some && new_contact(*new_issue) is None ==> r == Err::<
            i64,
            IssueError,
        >(IssueError::InvalidInput),
        new_issue_valid(*new_issue) && token_accepted(
            session_token@,
            new_issue.authenticity_token@,
        ) && new_contact(*new_issue) is Some ==> (r is Ok || (r == Err::<i64, IssueError>(
            IssueError::StorageError,
        ) && old(table)@.len() > 0)),
        newest_first(old(table)@, latest(old(table)@, 1)),
        match r {
            Ok(t) => {
                &&& ticket_for(old(table)@) == Some(t)
                &&& new_issue_valid(*new_issue)
                &&& token_accepted(session_token@, new_issue.authenticity_token@)
                &&& exists|row: IssueView|
                    {
                        &&& #[trigger] inserted(old(table)@, row) == final(table)@
                        &&& row == created_row(
                            *new_issue,
                            new_contact(*new_issue).unwrap(),
                            t,
                            row.uuid,
                            row.created_at,
                        )
                        &&& index_of(old(table)@, row.uuid) == -1
                        &&& row_markup_free(row)
                    }
            },
            Err(_) => final(table)@ == old(table)@,
        },
{
    let last = Issue::find_last_token(table);
    new_issue.validate()?;
    if !token_matches(session_token, new_issue.authenticity_token.as_str()) {
        return Err(IssueError::SecurityError);
    }
    let ticket_number = match next_ticket_number(&last) {
        Some(t) => t,
        None => return Err(IssueError::StorageError),
    };
    match Issue::create(table, new_issue, ticket_number) {
        Ok(x) => {
            assert(inserted(old(table)@, x@) == table@);
            Ok(ticket_number)
        },
        Err(e) => Err(e),
    }
}

/// The issue whose identifier `uuid` spells.
pub fn get_issue(table: &IssueTable, uuid: &str) -> (r: Result<Issue, IssueError>)
    ensures
        outcome_view(r) == find_outcome(table@, uuid@),
{
    Issue::find(table, uuid)
}

/// The issue shown in the edit form for `uuid`.
pub fn edit_issue(table: &IssueTable, uuid: &str) -> (r: Result<Issue, IssueError>)
    ensures
        outcome_view(r) == find_outcome(table@, uuid@),
{
    Issue::find(table, uuid)
}

/// The issues listed on the index page: the newest, newest first.
pub fn get_issues(table: &IssueTable) -> (r: Vec<Issue>)
    ensures
        views(r@) == latest(table@, LIST_LIMIT as int),
{
    Issue::find_all(table)
}

/// The issues listed on the management page: the newest, newest first.
pub fn manage_issues(table: &IssueTable) -> (r: Vec<Issue>)
    ensures
        views(r@) == latest(table@, LIST_LIMIT as int),
{
    Issue::find_all(table)
}

/// The open issues among `rows`, in their order.
pub open spec fn open_only(rows: Seq<IssueView>) -> Seq<IssueView>
    decreases rows.len(),
{
    if rows.len() == 0 {
        Seq::empty()
    } else if rows.last().status == status_open() {
        open_only(rows.drop_last()).push(rows.last())
    } else {
        open_only(rows.drop_last())
    }
}

/// The open issues among the newest listed ones, newest first.
pub fn get_open(table: &IssueTable) -> (r: Vec<Issue>)
    ensures
        views(r@) == open_only(latest(table@, LIST_LIMIT as int)),
{
    let tickets = Issue::find_all(table);
    let ghost s = views(tickets@);
    let mut r: Vec<Issue> = Vec::new();
    let mut i: usize = 0;
    assert(s.take(0) =~= Seq::<IssueView>::empty());
    assert(views(r@) =~= Seq::<IssueView>::empty());
    while i < tickets.len()
        invariant
            s == views(tickets@),
            i <= tickets@.len(),
            views(r@) == open_only(s.take(i as int)),
        decreases tickets@.len() - i,
    {
        assert(s.take(i + 1).drop_last() =~= s.take(i as int));
        assert(s.take(i + 1).last() == tickets@[i as int]@);
        if tickets[i].is_open() {
            let ghost before = r@;
            r.push(tickets[i].duplicate());
            assert(views(r@) =~= views(before).push(tickets@[i as int]@));
        }
        i = i + 1;
    }
    assert(s.take(i as int) =~= s);
    r
}

/// Whether the edit form's method asks for an update.
pub open spec fn update_method(m: Seq<char>) -> bool {
    m == "PUT"@ || m == "PATCH"@
}

/// Handles a submitted edit form: checks it, then replaces the issue as
/// `PUT` and `PATCH` alike; any other method is refused.
pub fn update_issue(
    table: &mut IssueTable,
    uuid: &str,
    issue: &EditedIssue,
    session_token: &str,
) -> (r: Result<Issue, IssueError>)
    ensures
        !edited_issue_valid(*issue) ==> r == Err::<Issue, IssueError>(IssueError::ValidationError),
        edited_issue_valid(*issue) && !update_method(issue.method@) ==> r == Err::<
            Issue,
            IssueError,
        >(IssueError::InvalidInput),
        edited_issue_valid(*issue) && update_method(issue.method@) ==> put_outcome(
            old(table)@,
            final(table)@,
            uuid@,
            *issue,
            session_token@,
            r,
        ),
        r is Err ==> final(table)@ == old(table)@,
{
    issue.validate()?;
    if same_text(issue.method.as_str(), "PUT") || same_text(issue.method.as_str(), "PATCH") {
        put_issue(table, uuid, issue, session_token)
    } else {
        Err(IssueError::InvalidInput)
    }
}

/// What replacing an issue from an edit form does: a refused token changes
/// nothing; otherwise the table and result are those of the update at the
/// time the result carries.
pub open spec fn put_outcome(
    before: Seq<IssueView>,
    after: Seq<IssueView>,
    uuid: Seq<char>,
    issue: EditedIssue,
    session_token: Seq<char>,
    r: Result<Issue, IssueError>,
) -> bool {
    if !token_accepted(session_token, issue.authenticity_token@) {
        r == Err::<Issue, IssueError>(IssueError::SecurityError) && after == before
    } else {
        match r {
            Ok(x) => {
                &&& outcome_view(r) == update_outcome(before, uuid, issue, x.updated_at)
                &&& after == replaced(before, uuid, outcome_view(r))
                &&& row_markup_free(x@)
            },
            Err(e) => {
                &&& forall|now: i64| #[trigger]
                    update_outcome(before, uuid, issue, now) == Err::<IssueView, IssueError>(e)
                &&& after == before
            },
        }
    }
}

/// Replaces the issue named by `uuid` from an edit form whose token matches
/// the session's.
pub fn put_issue(table: &mut IssueTable, uuid: &str, issue: &EditedIssue, session_token: &str) -> (r:
    Result<Issue, IssueError>)
    ensures
        put_outcome(old(table)@, final(table)@, uuid@, *issue, session_token@, r),
{
    if !token_matches(session_token, issue.authenticity_token.as_str()) {
        return Err(IssueError::SecurityError);
    }
    Issue::update(table, uuid, issue)
}

/// The same as `put_issue`.
pub fn patch_issue(table: &mut IssueTable, uuid: &str, issue: &EditedIssue, session_token: &str) -> (r:
    Result<Issue, IssueError>)
    ensures
        put_outcome(old(table)@, final(table)@, uuid@, *issue, session_token@, r),
{
    put_issue(table, uuid, issue, session_token)
}

/// Deletes the issue named by `uuid` when the submitted token matches the
/// session's; deleting a missing issue succeeds.
pub fn delete_issue(table: &mut IssueTable, uuid: &str, session_token: &str, submitted_token: &str) -> (r:
    Result<(), IssueError>)
    ensures
        !token_accepted(session_token@, submitted_token@) ==> r == Err::<(), IssueError>(
            IssueError::SecurityError,
        ) && final(table)@ == old(table)@,
        token_accepted(session_token@, submitted_token@) ==> r == destroy_outcome(
            old(table)@,
            uuid@,
        ) && final(table)@ == destroyed(old(table)@, uuid@),
{
    if !token_matches(session_token, submitted_token) {
        return Err(IssueError::SecurityError);
    }
    Issue::destroy(table, uuid)
}

/// The same as `delete_issue`, for forms that can only post.
pub fn delete_issue_entry_point(
    table: &mut IssueTable,
    uuid: &str,
    session_token: &str,
    submitted_token: &str,
) -> (r: Result<(), IssueError>)
    ensures
        !token_accepted(session_token@, submitted_token@) ==> r == Err::<(), IssueError>(
            IssueError::SecurityError,
        ) && final(table)@ == old(table)@,
        token_accepted(session_token@, submitted_token@) ==> r == destroy_outcome(
            old(table)@,
            uuid@,
        ) && final(table)@ == destroyed(old(table)@, uuid@),
{
    delete_issue(table, uuid, session_token, submitted_token)
}

/// Closes the issue named by `uuid` when the submitted token matches the
/// session's.
pub fn complete(table: &mut IssueTable, uuid: &str, session_token: &str, submitted_token: &str) -> (r:
    Result<(), IssueError>)
    ensures
        !token_accepted(session_token@, submitted_token@) ==> r == Err::<(), IssueError>(
            IssueError::SecurityError,
        ) && final(table)@ == old(table)@,
        token_accepted(session_token@, submitted_token@) ==> r == complete_outcome(
            old(table)@,
            uuid@,
        ) && final(table)@ == completed(old(table)@, uuid@),
{
    if !token_matches(session_token, submitted_token) {
        return Err(IssueError::SecurityError);
    }
    Issue::complete(table, uuid)
}

} // verus!
