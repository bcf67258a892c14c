//! Properties that relate several operations on the issues table.
use crate::ids::parsed_issue_id;
use crate::issue::{created_row, new_contact, status_closed, IssueError, IssueView, NewIssue};
use crate::routes::ticket_for;
use crate::table::{
    complete_outcome, completed, create_outcome, destroy_outcome, destroyed, find_outcome,
    index_of, inserted, latest, lemma_index_of, lemma_insert_pos, lemma_inserted_ok, lookup,
    table_ok,
};
use vstd::prelude::*;

verus! {

/// A new-issue form with an empty issue name is refused as invalid, whatever
/// the table, ticket number, identifier or time.
pub proof fn law_empty_name_rejected(
    rows: Seq<IssueView>,
    f: NewIssue,
    ticket_number: i64,
    id: u128,
    now: i64,
)
    requires
        f.issue_name@.len() == 0,
    ensures
        create_outcome(rows, f, ticket_number, id, now) == Err::<IssueView, IssueError>(
            IssueError::ValidationError,
        ),
{
}

/// Once an issue is created, looking up its identifier gives back the row
/// that was stored: the form's sanitised fields, unchanged.
pub proof fn law_create_then_find(
    rows: Seq<IssueView>,
    f: NewIssue,
    ticket_number: i64,
    id: u128,
    now: i64,
    s: Seq<char>,
)
    requires
        table_ok(rows),
        create_outcome(rows, f, ticket_number, id, now) is Ok,
        parsed_issue_id(s) == Some(id),
    ensures
        find_outcome(
            inserted(rows, created_row(f, new_contact(f).unwrap(), ticket_number, id, now)),
            s,
        ) == Ok::<IssueView, IssueError>(
            created_row(f, new_contact(f).unwrap(), ticket_number, id, now),
        ),
{
    let row = created_row(f, new_contact(f).unwrap(), ticket_number, id, now);
    lemma_index_of(rows, id);
    lemma_inserted_ok(rows, row);
    lemma_insert_pos(rows, now);
}

/// On an empty table the newest-issue query finds nothing and the first
/// ticket is number 1; once an issue numbered `n` is the newest, the next
/// ticket is `n + 1`.
pub proof fn law_ticket_numbering(rows: Seq<IssueView>, row: IssueView)
    requires
        table_ok(rows),
        index_of(rows, row.uuid) == -1,
        rows.len() == 0 || rows.last().created_at <= row.created_at,
        row.ticket_number < i64::MAX,
    ensures
        latest(Seq::<IssueView>::empty(), 1) == Seq::<IssueView>::empty(),
        ticket_for(Seq::<IssueView>::empty()) == Some(1i64),
        ticket_for(inserted(rows, row)) == Some((row.ticket_number + 1) as i64),
{
    assert(latest(Seq::<IssueView>::empty(), 1) =~= Seq::<IssueView>::empty());
    lemma_insert_pos(rows, row.created_at);
    assert(inserted(rows, row) =~= rows.push(row));
    assert(latest(rows.push(row), 1).last() == row);
}

/// Closing an existing issue sets its status to closed and changes nothing
/// else: no other field of it (`updated_at` included), and no other row.
pub proof fn law_complete_only_closes(rows: Seq<IssueView>, s: Seq<char>)
    requires
        find_outcome(rows, s) is Ok,
    ensures
        complete_outcome(rows, s) == Ok::<(), IssueError>(()),
        completed(rows, s).len() == rows.len(),
        forall|j: int|
            0 <= j < rows.len() ==> {
                let before = rows[j];
                let after = #[trigger] completed(rows, s)[j];
                &&& after.uuid == before.uuid
                &&& after.issue_name == before.issue_name
                &&& after.description == before.description
                &&& after.reported_by == before.reported_by
                &&& after.company_name == before.company_name
                &&& after.contact_number == before.contact_number
                &&& after.ticket_number == before.ticket_number
                &&& after.ticket_owner == before.ticket_owner
                &&& after.created_at == before.created_at
                &&& after.updated_at == before.updated_at
                &&& after.status == if j == index_of(rows, parsed_issue_id(s).unwrap()) {
                    status_closed()
                } else {
                    before.status
                }
            },
{
    lemma_index_of(rows, parsed_issue_id(s).unwrap());
}

/// Deleting an identifier that no issue has succeeds and leaves the table as
/// it was.
pub proof fn law_delete_missing(rows: Seq<IssueView>, s: Seq<char>)
    requires
        parsed_issue_id(s) is Some,
        lookup(rows, parsed_issue_id(s).unwrap()) is None,
    ensures
        destroy_outcome(rows, s) == Ok::<(), IssueError>(()),
        destroyed(rows, s) == rows,
{
}


/// Deleting the same issue twice changes nothing the second time, and
/// succeeds both times.
pub proof fn law_delete_twice(rows: Seq<IssueView>, s: Seq<char>)
    requires
        table_ok(rows),
        parsed_issue_id(s) is Some,
    ensures
        destroy_outcome(destroyed(rows, s), s) == Ok::<(), IssueError>(()),
        destroyed(destroyed(rows, s), s) == destroyed(rows, s),
{
    let id = parsed_issue_id(s).unwrap();
    lemma_index_of(rows, id);
    let once = destroyed(rows, s);
    let p = index_of(rows, id);
    if p >= 0 {
        assert forall|j: int| 0 <= j < once.len() implies once[j].uuid != id by {
            let j2 = if j < p { j } else { j + 1 };
            assert(once[j] == rows[j2]);
        }
    }
    lemma_index_of(once, id);
}

} // verus!
