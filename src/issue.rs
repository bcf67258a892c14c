//! The issue record, the two forms that fill it, and their validation.
use crate::sanitize::cleaned;
use crate::text::parsed_i64;
use vstd::prelude::*;
use vstd::utf8::encode_utf8;

verus! {

/// Exclusive upper bound on the length of a short form field.
pub const SHORT_FIELD_LIMIT: usize = 20;

/// Exclusive upper bound on the length of a new issue's description.
pub const DESCRIPTION_LIMIT: usize = 50;

/// The ways an operation on issues can fail.
#[derive(Debug, Clone, Copy, PartialEq, Eq, Structural)]
pub enum IssueError {
    /// A form field is empty or too long.
    ValidationError,
    /// No issue has the given identifier.
    NotFound,
    /// An identifier or a numeric field is malformed.
    InvalidInput,
    /// The table refused the operation.
    StorageError,
    /// The form token is missing or does not match the session's.
    SecurityError,
}

/// One row of the issues table.
#[derive(Debug)]
pub struct Issue {
    pub uuid: u128,
    pub issue_name: String,
    pub description: String,
    pub reported_by: String,
    pub company_name: String,
    pub contact_number: i64,
    pub ticket_number: i64,
    pub ticket_owner: String,
    pub status: String,
    pub created_at: i64,
    pub updated_at: i64,
}

/// An issue as plain values.
pub struct IssueView {
    pub uuid: u128,
    pub issue_name: Seq<char>,
    pub description: Seq<char>,
    pub reported_by: Seq<char>,
    pub company_name: Seq<char>,
    pub contact_number: i64,
    pub ticket_number: i64,
    pub ticket_owner: Seq<char>,
    pub status: Seq<char>,
    pub created_at: i64,
    pub updated_at: i64,
}

impl View for Issue {
    type V = IssueView;

    open spec fn view(&self) -> IssueView {
        IssueView {
            uuid: self.uuid,
            issue_name: self.issue_name@,
            description: self.description@,
            reported_by: self.reported_by@,
            company_name: self.company_name@,
            contact_number: self.contact_number,
            ticket_number: self.ticket_number,
            ticket_owner: self.ticket_owner@,
            status: self.status@,
            created_at: self.created_at,
            updated_at: self.updated_at,
        }
    }
}

/// The status of an issue that is being worked on.
pub open spec fn status_open() -> Seq<char> {
    "open"@
}

/// The status of an issue that is done.
pub open spec fn status_closed() -> Seq<char> {
    "closed"@
}

/// The owner of an issue that nobody has taken yet.
pub open spec fn owner_unassigned() -> Seq<char> {
    "unassigned"@
}

impl Issue {
    /// A field-by-field copy.
    pub fn duplicate(&self) -> (r: Issue)
        ensures
            r@ == self@,
    {
        Issue {
            uuid: self.uuid,
            issue_name: self.issue_name.clone(),
            description: self.description.clone(),
            reported_by: self.reported_by.clone(),
            company_name: self.company_name.clone(),
            contact_number: self.contact_number,
            ticket_number: self.ticket_number,
            ticket_owner: self.ticket_owner.clone(),
            status: self.status.clone(),
            created_at: self.created_at,
            updated_at: self.updated_at,
        }
    }

    /// Whether the issue's status is `open`.
    pub fn is_open(&self) -> (r: bool)
        ensures
            r == (self@.status == status_open()),
    {
        crate::text::same_text(self.status.as_str(), "open")
    }
}

/// The length of a text in bytes of UTF-8.
pub open spec fn byte_len(s: Seq<char>) -> int {
    encode_utf8(s).len() as int
}

/// Whether a short form field is present and under its limit, in bytes.
pub open spec fn short_field_ok(s: Seq<char>) -> bool {
    1 <= byte_len(s) < SHORT_FIELD_LIMIT
}

fn check_short_field(s: &String) -> (r: bool)
    ensures
        r == short_field_ok(s@),
{
    let n = s.as_str().as_bytes().len();
    1 <= n && n < SHORT_FIELD_LIMIT
}

/// The form that reports a new issue.
#[derive(Debug)]
pub struct NewIssue {
    pub issue_name: String,
    pub description: String,
    pub reported_by: String,
    pub company_name: String,
    pub contact_number: String,
    pub authenticity_token: String,
}

/// Whether every field of a new-issue form is present and under its limit,
/// lengths counted in bytes.
pub open spec fn new_issue_valid(f: NewIssue) -> bool {
    &&& short_field_ok(f.issue_name@)
    &&& 1 <= byte_len(f.description@) < DESCRIPTION_LIMIT
    &&& short_field_ok(f.reported_by@)
    &&& short_field_ok(f.company_name@)
    &&& short_field_ok(f.contact_number@)
}

/// The contact number of a new-issue form, read after sanitising.
pub open spec fn new_contact(f: NewIssue) -> Option<i64> {
    parsed_i64(cleaned(f.contact_number@))
}

impl NewIssue {
    /// Checks the length of every field.
    pub fn validate(&self) -> (r: Result<(), IssueError>)
        ensures
            r is Ok <==> new_issue_valid(*self),
            r is Err ==> r == Err::<(), IssueError>(IssueError::ValidationError),
    {
        let d = self.description.as_str().as_bytes().len();
        if check_short_field(&self.issue_name) && 1 <= d && d < DESCRIPTION_LIMIT
            && check_short_field(&self.reported_by) && check_short_field(&self.company_name)
            && check_short_field(&self.contact_number) {
            Ok(())
        } else {
            Err(IssueError::ValidationError)
        }
    }
}

/// The row that a valid new-issue form becomes: text sanitised, status open,
/// no owner yet, both timestamps set to the time of creation.
pub open spec fn created_row(
    f: NewIssue,
    contact: i64,
    ticket_number: i64,
    id: u128,
    now: i64,
) -> IssueView {
    IssueView {
        uuid: id,
        issue_name: cleaned(f.issue_name@),
        description: cleaned(f.description@),
        reported_by: cleaned(f.reported_by@),
        company_name: cleaned(f.company_name@),
        contact_number: contact,
        ticket_number,
        ticket_owner: owner_unassigned(),
        status: status_open(),
        created_at: now,
        updated_at: now,
    }
}

/// The form that edits an issue; `method` carries the intended HTTP verb.
#[derive(Debug)]
pub struct EditedIssue {
    pub method: String,
    pub issue_name: String,
    pub description: String,
    pub reported_by: String,
    pub company_name: String,
    pub contact_number: String,
    pub ticket_number: String,
    pub ticket_owner: String,
    pub status: String,
    pub authenticity_token: String,
}

/// Whether every length-checked field of an edit form is present and under
/// its limit.
pub open spec fn edited_issue_valid(f: EditedIssue) -> bool {
    &&& short_field_ok(f.issue_name@)
    &&& short_field_ok(f.description@)
    &&& short_field_ok(f.reported_by@)
    &&& short_field_ok(f.company_name@)
    &&& short_field_ok(f.contact_number@)
}

/// The contact number of an edit form, read after sanitising.
pub open spec fn edited_contact(f: EditedIssue) -> Option<i64> {
    parsed_i64(cleaned(f.contact_number@))
}

/// The ticket number of an edit form, read after sanitising.
pub open spec fn edited_ticket(f: EditedIssue) -> Option<i64> {
    parsed_i64(cleaned(f.ticket_number@))
}

impl EditedIssue {
    /// Checks the length of every length-checked field.
    pub fn validate(&self) -> (r: Result<(), IssueError>)
        ensures
            r is Ok <==> edited_issue_valid(*self),
            r is Err ==> r == Err::<(), IssueError>(IssueError::ValidationError),
    {
        if check_short_field(&self.issue_name) && check_short_field(&self.description)
            && check_short_field(&self.reported_by) && check_short_field(&self.company_name)
            && check_short_field(&self.contact_number) {
            Ok(())
        } else {
            Err(IssueError::ValidationError)
        }
    }
}

/// The row that an edit form makes of `old`: every editable field replaced by
/// the form's sanitised value, `updated_at` set to `now`, identifier and
/// creation time kept.
pub open spec fn edited_row(
    old: IssueView,
    f: EditedIssue,
    contact: i64,
    ticket_number: i64,
    now: i64,
) -> IssueView {
    IssueView {
        uuid: old.uuid,
        issue_name: cleaned(f.issue_name@),
        description: cleaned(f.description@),
        reported_by: cleaned(f.reported_by@),
        company_name: cleaned(f.company_name@),
        contact_number: contact,
        ticket_number,
        ticket_owner: cleaned(f.ticket_owner@),
        status: cleaned(f.status@),
        created_at: old.created_at,
        updated_at: now,
    }
}

/// `row` with its status set to closed and nothing else changed.
pub open spec fn closed_row(row: IssueView) -> IssueView {
    IssueView { status: status_closed(), ..row }
}


/// Whether a text holds no markup: not a single `<`.
pub open spec fn markup_free(s: Seq<char>) -> bool {
    !s.contains('<')
}

/// Whether every text field of a row is free of markup.
pub open spec fn row_markup_free(row: IssueView) -> bool {
    &&& markup_free(row.issue_name)
    &&& markup_free(row.description)
    &&& markup_free(row.reported_by)
    &&& markup_free(row.company_name)
    &&& markup_free(row.ticket_owner)
    &&& markup_free(row.status)
}

} // verus!
