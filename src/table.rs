//! The issues table and the operations on it, each with the meaning of the
//! SQL statement it stands for. Rows are kept in order of creation time,
//! oldest first, and no two share an identifier.
use crate::ids::{new_issue_id, now_millis, parse_issue_id, parsed_issue_id};
use crate::issue::{
    closed_row, created_row, edited_contact, edited_issue_valid, edited_row, edited_ticket,
    new_contact, new_issue_valid, row_markup_free, EditedIssue, Issue, IssueError, IssueView, NewIssue,
};
use crate::sanitize::clean_html;
use crate::text::parse_i64;
use vstd::prelude::*;

verus! {

/// How many issues a listing shows at most.
pub const LIST_LIMIT: usize = 10;

/// The issues, oldest first.
pub struct IssueTable {
    rows: Vec<Issue>,
}

impl View for IssueTable {
    type V = Seq<IssueView>;

    closed spec fn view(&self) -> Seq<IssueView> {
        self.rows@.map_values(|r: Issue| r@)
    }
}

/// The position of the row with identifier `id`, or -1 if there is none.
/// Where several rows were to share it, the last would count.
pub open spec fn index_of(rows: Seq<IssueView>, id: u128) -> int
    decreases rows.len(),
{
    if rows.len() == 0 {
        -1
    } else if rows.last().uuid == id {
        rows.len() - 1
    } else {
        index_of(rows.drop_last(), id)
    }
}

/// The row with identifier `id`, if there is one.
pub open spec fn lookup(rows: Seq<IssueView>, id: u128) -> Option<IssueView> {
    if index_of(rows, id) >= 0 {
        Some(rows[index_of(rows, id)])
    } else {
        None
    }
}

pub proof fn lemma_index_of(rows: Seq<IssueView>, id: u128)
    ensures
        -1 <= index_of(rows, id) < rows.len(),
        index_of(rows, id) >= 0 ==> rows[index_of(rows, id)].uuid == id,
        index_of(rows, id) == -1 ==> forall|j: int| 0 <= j < rows.len() ==> rows[j].uuid != id,
    decreases rows.len(),
{
    if rows.len() > 0 && rows.last().uuid != id {
        lemma_index_of(rows.drop_last(), id);
        assert forall|j: int| 0 <= j < rows.len() - 1 implies rows[j] == rows.drop_last()[j] by {}
    }
}

/// The newest `n` rows, newest first.
pub open spec fn latest(rows: Seq<IssueView>, n: int) -> Seq<IssueView> {
    let k = if n < rows.len() { n } else { rows.len() as int };
    Seq::new(k as nat, |i: int| rows[rows.len() - 1 - i])
}

/// The views of a list of issues.
pub open spec fn views(v: Seq<Issue>) -> Seq<IssueView> {
    v.map_values(|r: Issue| r@)
}

/// An outcome with its issue seen as plain values.
pub open spec fn outcome_view(r: Result<Issue, IssueError>) -> Result<IssueView, IssueError> {
    match r {
        Ok(x) => Ok(x@),
        Err(e) => Err(e),
    }
}

/// What looking up the text `s` as an identifier gives.
pub open spec fn find_outcome(rows: Seq<IssueView>, s: Seq<char>) -> Result<IssueView, IssueError> {
    match parsed_issue_id(s) {
        None => Err(IssueError::InvalidInput),
        Some(id) => match lookup(rows, id) {
            Some(row) => Ok(row),
            None => Err(IssueError::NotFound),
        },
    }
}

/// What inserting a new-issue form gives, for a given identifier and time.
pub open spec fn create_outcome(
    rows: Seq<IssueView>,
    f: NewIssue,
    ticket_number: i64,
    id: u128,
    now: i64,
) -> Result<IssueView, IssueError> {
    if !new_issue_valid(f) {
        Err(IssueError::ValidationError)
    } else if new_contact(f) is None {
        Err(IssueError::InvalidInput)
    } else if index_of(rows, id) >= 0 {
        Err(IssueError::StorageError)
    } else {
        Ok(created_row(f, new_contact(f).unwrap(), ticket_number, id, now))
    }
}

/// What applying an edit form to the issue named by `s` gives, at time `now`.
pub open spec fn update_outcome(
    rows: Seq<IssueView>,
    s: Seq<char>,
    f: EditedIssue,
    now: i64,
) -> Result<IssueView, IssueError> {
    if !edited_issue_valid(f) {
        Err(IssueError::ValidationError)
    } else if edited_contact(f) is None || edited_ticket(f) is None {
        Err(IssueError::InvalidInput)
    } else {
        match find_outcome(rows, s) {
            Ok(row) => Ok(
                edited_row(row, f, edited_contact(f).unwrap(), edited_ticket(f).unwrap(), now),
            ),
            Err(e) => Err(e),
        }
    }
}

/// The table after an outcome that replaces the row named by `s`.
pub open spec fn replaced(
    rows: Seq<IssueView>,
    s: Seq<char>,
    r: Result<IssueView, IssueError>,
) -> Seq<IssueView> {
    match r {
        Ok(row) => rows.update(index_of(rows, parsed_issue_id(s).unwrap()), row),
        Err(_) => rows,
    }
}

/// What deleting the issue named by `s` gives.
pub open spec fn destroy_outcome(rows: Seq<IssueView>, s: Seq<char>) -> Result<(), IssueError> {
    match parsed_issue_id(s) {
        None => Err(IssueError::InvalidInput),
        Some(_) => Ok(()),
    }
}

/// The table after deleting the issue named by `s`: the row goes, if there
/// is one.
pub open spec fn destroyed(rows: Seq<IssueView>, s: Seq<char>) -> Seq<IssueView> {
    match parsed_issue_id(s) {
        Some(id) => if index_of(rows, id) >= 0 {
            rows.remove(index_of(rows, id))
        } else {
            rows
        },
        None => rows,
    }
}

/// What closing the issue named by `s` gives.
pub open spec fn complete_outcome(rows: Seq<IssueView>, s: Seq<char>) -> Result<(), IssueError> {
    match find_outcome(rows, s) {
        Ok(_) => Ok(()),
        Err(e) => Err(e),
    }
}

/// The table after closing the issue named by `s`.
pub open spec fn completed(rows: Seq<IssueView>, s: Seq<char>) -> Seq<IssueView> {
    match find_outcome(rows, s) {
        Ok(row) => rows.update(index_of(rows, parsed_issue_id(s).unwrap()), closed_row(row)),
        Err(_) => rows,
    }
}


/// No two rows share an identifier.
pub open spec fn ids_unique(rows: Seq<IssueView>) -> bool {
    forall|i: int, j: int|
        0 <= i < rows.len() && 0 <= j < rows.len() && i != j ==> rows[i].uuid != rows[j].uuid
}

/// Rows are in order of creation time, oldest first.
pub open spec fn created_sorted(rows: Seq<IssueView>) -> bool {
    forall|i: int, j: int| 0 <= i <= j < rows.len() ==> rows[i].created_at <= rows[j].created_at
}

/// What every issues table satisfies.
pub open spec fn table_ok(rows: Seq<IssueView>) -> bool {
    ids_unique(rows) && created_sorted(rows)
}

/// Where a row created at time `t` goes: after every row created no later.
pub open spec fn insert_pos(rows: Seq<IssueView>, t: i64) -> int
    decreases rows.len(),
{
    if rows.len() == 0 {
        0
    } else if rows.last().created_at <= t {
        rows.len() as int
    } else {
        insert_pos(rows.drop_last(), t)
    }
}

/// The table with `row` added in order of creation time.
pub open spec fn inserted(rows: Seq<IssueView>, row: IssueView) -> Seq<IssueView> {
    rows.insert(insert_pos(rows, row.created_at), row)
}

/// `out` lists issues of `rows` newest first: in decreasing creation time,
/// each at most once, and no row left out is newer than the last one listed.
pub open spec fn newest_first(rows: Seq<IssueView>, out: Seq<IssueView>) -> bool {
    &&& forall|i: int, j: int|
        0 <= i <= j < out.len() ==> out[i].created_at >= out[j].created_at
    &&& ids_unique(out)
    &&& forall|i: int| 0 <= i < out.len() ==> rows.contains(#[trigger] out[i])
    &&& out.len() > 0 ==> forall|x: IssueView|
        rows.contains(x) && !out.contains(x) ==> x.created_at <= out.last().created_at
}

pub proof fn lemma_insert_pos(rows: Seq<IssueView>, t: i64)
    ensures
        0 <= insert_pos(rows, t) <= rows.len(),
        forall|i: int| insert_pos(rows, t) <= i < rows.len() ==> rows[i].created_at > t,
        insert_pos(rows, t) > 0 ==> rows[insert_pos(rows, t) - 1].created_at <= t,
    decreases rows.len(),
{
    if rows.len() > 0 && rows.last().created_at > t {
        lemma_insert_pos(rows.drop_last(), t);
        assert forall|i: int| 0 <= i < rows.len() - 1 implies rows[i] == rows.drop_last()[i] by {}
    }
}

pub proof fn lemma_inserted_ok(rows: Seq<IssueView>, row: IssueView)
    requires
        table_ok(rows),
        index_of(rows, row.uuid) == -1,
    ensures
        table_ok(inserted(rows, row)),
        index_of(inserted(rows, row), row.uuid) == insert_pos(rows, row.created_at),
{
    let p = insert_pos(rows, row.created_at);
    let s = inserted(rows, row);
    lemma_insert_pos(rows, row.created_at);
    lemma_index_of(rows, row.uuid);
    assert forall|k: int| 0 <= k < s.len() implies #[trigger] s[k] == if k < p {
        rows[k]
    } else if k == p {
        row
    } else {
        rows[k - 1]
    } by {}
    assert forall|i: int, j: int| 0 <= i <= j < s.len() implies s[i].created_at
        <= s[j].created_at by {
        if i < p && j > p {
            assert(rows[i].created_at <= rows[p - 1].created_at);
        }
        if i == p && j > p {
            assert(rows[j - 1].created_at > row.created_at);
        }
        if i < p && j == p {
            assert(rows[i].created_at <= rows[p - 1].created_at);
        }
    }
    assert(ids_unique(s));
    lemma_index_of(s, row.uuid);
    assert(s[p].uuid == row.uuid);
}

pub proof fn lemma_removed_ok(rows: Seq<IssueView>, i: int)
    requires
        table_ok(rows),
        0 <= i < rows.len(),
    ensures
        table_ok(rows.remove(i)),
{
    let s = rows.remove(i);
    assert forall|k: int| 0 <= k < s.len() implies #[trigger] s[k] == if k < i {
        rows[k]
    } else {
        rows[k + 1]
    } by {}
    assert forall|a: int, b: int| 0 <= a <= b < s.len() implies s[a].created_at
        <= s[b].created_at by {
        let a2 = if a < i { a } else { a + 1 };
        let b2 = if b < i { b } else { b + 1 };
        assert(s[a] == rows[a2] && s[b] == rows[b2]);
    }
    assert forall|a: int, b: int|
        0 <= a < s.len() && 0 <= b < s.len() && a != b implies s[a].uuid != s[b].uuid by {
        let a2 = if a < i { a } else { a + 1 };
        let b2 = if b < i { b } else { b + 1 };
        assert(s[a] == rows[a2] && s[b] == rows[b2]);
    }
}

pub proof fn lemma_updated_ok(rows: Seq<IssueView>, i: int, row: IssueView)
    requires
        table_ok(rows),
        0 <= i < rows.len(),
        row.uuid == rows[i].uuid,
        row.created_at == rows[i].created_at,
    ensures
        table_ok(rows.update(i, row)),
{
    let s = rows.update(i, row);
    assert forall|k: int| 0 <= k < s.len() implies #[trigger] s[k].uuid == rows[k].uuid
        && s[k].created_at == rows[k].created_at by {}
}

pub proof fn lemma_latest_newest(rows: Seq<IssueView>, n: int)
    requires
        table_ok(rows),
        n >= 0,
    ensures
        newest_first(rows, latest(rows, n)),
{
    let out = latest(rows, n);
    let len = rows.len() as int;
    assert forall|i: int| 0 <= i < out.len() implies rows.contains(#[trigger] out[i]) by {
        assert(rows[len - 1 - i] == out[i]);
    }
    assert forall|a: int, b: int|
        0 <= a < out.len() && 0 <= b < out.len() && a != b implies out[a].uuid
        != out[b].uuid by {
        assert(out[a] == rows[len - 1 - a] && out[b] == rows[len - 1 - b]);
    }
    if out.len() > 0 {
        assert forall|x: IssueView| rows.contains(x) && !out.contains(x) implies x.created_at
            <= out.last().created_at by {
            let k = choose|k: int| 0 <= k < rows.len() && rows[k] == x;
            if k >= len - out.len() {
                assert(out[len - 1 - k] == x);
            }
            assert(out.last() == rows[len - out.len()]);
        }
    }
}

impl IssueTable {
    #[verifier::type_invariant]
    spec fn well_formed(&self) -> bool {
        table_ok(self@)
    }

    /// An empty table.
    pub fn new() -> (r: IssueTable)
        ensures
            r@ == Seq::<IssueView>::empty(),
    {
        let r = IssueTable { rows: Vec::new() };
        assert(r@ =~= Seq::<IssueView>::empty());
        r
    }

    /// The number of issues.
    pub fn len(&self) -> (r: usize)
        ensures
            r == self@.len(),
    {
        self.rows.len()
    }

    /// Takes the rows out, leaving the table empty.
    fn take_rows(&mut self) -> (r: Vec<Issue>)
        ensures
            views(r@) == old(self)@,
            table_ok(views(r@)),
            final(self)@ == Seq::<IssueView>::empty(),
    {
        proof {
            use_type_invariant(&*self);
        }
        let mut rows: Vec<Issue> = Vec::new();
        std::mem::swap(&mut rows, &mut self.rows);
        assert(self@ =~= Seq::<IssueView>::empty());
        rows
    }

    /// Puts rows back in place of the current ones.
    fn put_rows(&mut self, rows: Vec<Issue>)
        requires
            table_ok(views(rows@)),
        ensures
            final(self)@ == views(rows@),
    {
        self.rows = rows;
    }

    /// Where a row created at time `t` goes.
    fn insert_position(&self, t: i64) -> (r: usize)
        ensures
            r == insert_pos(self@, t),
    {
        let mut i = self.rows.len();
        assert(self@.take(i as int) =~= self@);
        while i > 0
            invariant
                i <= self.rows@.len(),
                self@.len() == self.rows@.len(),
                insert_pos(self@, t) == insert_pos(self@.take(i as int), t),
            decreases i,
        {
            assert(self@[i - 1] == self.rows@[i - 1]@);
            if self.rows[i - 1].created_at <= t {
                return i;
            }
            assert(self@.take(i as int).drop_last() =~= self@.take(i - 1));
            i = i - 1;
        }
        0
    }

    /// The position of the row with identifier `id`.
    fn position(&self, id: u128) -> (r: Option<usize>)
        ensures
            match r {
                Some(i) => i == index_of(self@, id),
                None => index_of(self@, id) == -1,
            },
    {
        let mut i = self.rows.len();
        assert(self@.take(i as int) =~= self@);
        while i > 0
            invariant
                i <= self.rows@.len(),
                self@.len() == self.rows@.len(),
                index_of(self@, id) == index_of(self@.take(i as int), id),
            decreases i,
        {
            assert(self@[i - 1] == self.rows@[i - 1]@);
            if self.rows[i - 1].uuid == id {
                return Some(i - 1);
            }
            assert(self@.take(i as int).drop_last() =~= self@.take(i - 1));
            i = i - 1;
        }
        None
    }

    /// The newest `n` issues, newest first.
    fn newest(&self, n: usize) -> (r: Vec<Issue>)
        ensures
            views(r@) == latest(self@, n as int),
    {
        let len = self.rows.len();
        let k = if n < len { n } else { len };
        let mut r: Vec<Issue> = Vec::new();
        let mut i: usize = 0;
        while i < k
            invariant
                k <= len,
                len == self.rows@.len(),
                k == latest(self@, n as int).len(),
                i <= k,
                r@.len() == i,
                forall|j: int| 0 <= j < i ==> (#[trigger] r@[j])@ == self.rows@[len - 1 - j]@,
            decreases k - i,
        {
            r.push(self.rows[len - 1 - i].duplicate());
            i = i + 1;
        }
        assert(views(r@) =~= latest(self@, n as int));
        r
    }

    /// Appends a row made from a new-issue form, with the given identifier and
    /// time of creation.
    pub fn insert(&mut self, new_issue: &NewIssue, ticket_number: i64, id: u128, now: i64) -> (r:
        Result<Issue, IssueError>)
        ensures
            outcome_view(r) == create_outcome(old(self)@, *new_issue, ticket_number, id, now),
            final(self)@ == match outcome_view(r) {
                Ok(row) => inserted(old(self)@, row),
                Err(_) => old(self)@,
            },
            r matches Ok(x) ==> row_markup_free(x@),
    {
        if new_issue.validate().is_err() {
            return Err(IssueError::ValidationError);
        }
        let issue_name = clean_html(new_issue.issue_name.as_str());
        let description = clean_html(new_issue.description.as_str());
        let reported_by = clean_html(new_issue.reported_by.as_str());
        let company_name = clean_html(new_issue.company_name.as_str());
        let contact = clean_html(new_issue.contact_number.as_str());
        let contact_number = match parse_i64(contact.as_str()) {
            Some(n) => n,
            None => return Err(IssueError::InvalidInput),
        };
        if self.position(id).is_some() {
            return Err(IssueError::StorageError);
        }
        proof {
            reveal_strlit("unassigned");
            reveal_strlit("open");
            assert(!"unassigned"@.contains('<')) by {
                assert(forall|i: int| 0 <= i < "unassigned"@.len() ==> "unassigned"@[i] != '<');
            }
            assert(!"open"@.contains('<')) by {
                assert(forall|i: int| 0 <= i < "open"@.len() ==> "open"@[i] != '<');
            }
        }
        let issue = Issue {
            uuid: id,
            issue_name,
            description,
            reported_by,
            company_name,
            contact_number,
            ticket_number,
            ticket_owner: String::from_str("unassigned"),
            status: String::from_str("open"),
            created_at: now,
            updated_at: now,
        };
        let out = issue.duplicate();
        let p = self.insert_position(now);
        proof {
            use_type_invariant(&*self);
            lemma_inserted_ok(self@, out@);
            lemma_insert_pos(self@, now);
        }
        let mut rows = self.take_rows();
        rows.insert(p, issue);
        assert(views(rows@) =~= inserted(old(self)@, out@));
        self.put_rows(rows);
        Ok(out)
    }
}


impl IssueTable {
    /// Replaces the editable fields of the issue named by `uuid` with those of
    /// an edit form, as of time `now`.
    pub fn replace(&mut self, uuid: &str, issue: &EditedIssue, now: i64) -> (r: Result<
        Issue,
        IssueError,
    >)
        ensures
            outcome_view(r) == update_outcome(old(self)@, uuid@, *issue, now),
            final(self)@ == replaced(old(self)@, uuid@, outcome_view(r)),
            r matches Ok(x) ==> row_markup_free(x@),
    {
        if issue.validate().is_err() {
            return Err(IssueError::ValidationError);
        }
        let issue_name = clean_html(issue.issue_name.as_str());
        let description = clean_html(issue.description.as_str());
        let reported_by = clean_html(issue.reported_by.as_str());
        let company_name = clean_html(issue.company_name.as_str());
        let contact = clean_html(issue.contact_number.as_str());
        let ticket = clean_html(issue.ticket_number.as_str());
        let ticket_owner = clean_html(issue.ticket_owner.as_str());
        let status = clean_html(issue.status.as_str());
        let contact_number = match parse_i64(contact.as_str()) {
            Some(n) => n,
            None => return Err(IssueError::InvalidInput),
        };
        let ticket_number = match parse_i64(ticket.as_str()) {
            Some(n) => n,
            None => return Err(IssueError::InvalidInput),
        };
        let id = match parse_issue_id(uuid) {
            Some(id) => id,
            None => return Err(IssueError::InvalidInput),
        };
        let i = match self.position(id) {
            Some(i) => i,
            None => return Err(IssueError::NotFound),
        };
        proof {
            lemma_index_of(self@, id);
        }
        assert(self@[i as int] == self.rows@[i as int]@);
        let row = Issue {
            uuid: self.rows[i].uuid,
            issue_name,
            description,
            reported_by,
            company_name,
            contact_number,
            ticket_number,
            ticket_owner,
            status,
            created_at: self.rows[i].created_at,
            updated_at: now,
        };
        let out = row.duplicate();
        proof {
            use_type_invariant(&*self);
            lemma_updated_ok(self@, i as int, out@);
        }
        let mut rows = self.take_rows();
        rows.set(i, row);
        assert(views(rows@) =~= old(self)@.update(i as int, out@));
        self.put_rows(rows);
        Ok(out)
    }

    /// Deletes the issue named by `uuid`; a missing issue is no error.
    pub fn remove(&mut self, uuid: &str) -> (r: Result<(), IssueError>)
        ensures
            r == destroy_outcome(old(self)@, uuid@),
            final(self)@ == destroyed(old(self)@, uuid@),
    {
        let id = match parse_issue_id(uuid) {
            Some(id) => id,
            None => return Err(IssueError::InvalidInput),
        };
        match self.position(id) {
            Some(i) => {
                proof {
                    lemma_index_of(self@, id);
                }
                proof {
                    use_type_invariant(&*self);
                    lemma_removed_ok(self@, i as int);
                }
                let mut rows = self.take_rows();
                rows.remove(i);
                assert(views(rows@) =~= old(self)@.remove(i as int));
                self.put_rows(rows);
            },
            None => {},
        }
        Ok(())
    }

    /// Sets the status of the issue named by `uuid` to closed.
    pub fn close(&mut self, uuid: &str) -> (r: Result<(), IssueError>)
        ensures
            r == complete_outcome(old(self)@, uuid@),
            final(self)@ == completed(old(self)@, uuid@),
    {
        let id = match parse_issue_id(uuid) {
            Some(id) => id,
            None => return Err(IssueError::InvalidInput),
        };
        let i = match self.position(id) {
            Some(i) => i,
            None => return Err(IssueError::NotFound),
        };
        proof {
            lemma_index_of(self@, id);
        }
        assert(self@[i as int] == self.rows@[i as int]@);
        let mut row = self.rows[i].duplicate();
        row.status = String::from_str("closed");
        let ghost closed = row@;
        proof {
            use_type_invariant(&*self);
            lemma_updated_ok(self@, i as int, closed);
        }
        let mut rows = self.take_rows();
        rows.set(i, row);
        assert(views(rows@) =~= old(self)@.update(i as int, closed));
        self.put_rows(rows);
        Ok(())
    }
}

impl Issue {
    /// The issue whose identifier `uuid` spells.
    pub fn find(table: &IssueTable, uuid: &str) -> (r: Result<Issue, IssueError>)
        ensures
            outcome_view(r) == find_outcome(table@, uuid@),
    {
        let id = match parse_issue_id(uuid) {
            Some(id) => id,
            None => return Err(IssueError::InvalidInput),
        };
        match table.position(id) {
            Some(i) => {
                proof {
                    lemma_index_of(table@, id);
                }
                assert(table@[i as int] == table.rows@[i as int]@);
                Ok(table.rows[i].duplicate())
            },
            None => Err(IssueError::NotFound),
        }
    }

    /// The newest issues, newest first, at most `LIST_LIMIT` of them.
    pub fn find_all(table: &IssueTable) -> (r: Vec<Issue>)
        ensures
            views(r@) == latest(table@, LIST_LIMIT as int),
            newest_first(table@, views(r@)),
            table_ok(table@),
    {
        proof {
            use_type_invariant(table);
            lemma_latest_newest(table@, LIST_LIMIT as int);
        }
        table.newest(LIST_LIMIT)
    }

    /// The newest issue alone, or nothing when the table is empty.
    pub fn find_last_token(table: &IssueTable) -> (r: Vec<Issue>)
        ensures
            views(r@) == latest(table@, 1),
            newest_first(table@, views(r@)),
            table_ok(table@),
    {
        proof {
            use_type_invariant(table);
            lemma_latest_newest(table@, 1);
        }
        table.newest(1)
    }

    /// Stores a new issue under a fresh random identifier, created now. It
    /// fails only on an invalid form, an unreadable contact number, or an
    /// identifier that is already taken, which cannot happen on an empty table.
    pub fn create(table: &mut IssueTable, new_issue: &NewIssue, ticket_number: i64) -> (r: Result<
        Issue,
        IssueError,
    >)
        ensures
            exists|id: u128, now: i64| #[trigger]
                create_outcome(old(table)@, *new_issue, ticket_number, id, now) == outcome_view(r),
            !new_issue_valid(*new_issue) ==> r == Err::<Issue, IssueError>(
                IssueError::ValidationError,
            ),
            new_issue_valid(*new_issue) && new_contact(*new_issue) is None ==> r == Err::<
                Issue,
                IssueError,
            >(IssueError::InvalidInput),
            old(table)@.len() == 0 && new_issue_valid(*new_issue) && new_contact(*new_issue) is Some
                ==> r is Ok,
            match r {
                Ok(x) => {
                    &&& x@ == created_row(
                        *new_issue,
                        new_contact(*new_issue).unwrap(),
                        ticket_number,
                        x.uuid,
                        x.created_at,
                    )
                    &&& index_of(old(table)@, x.uuid) == -1
                    &&& final(table)@ == inserted(old(table)@, x@)
                    &&& row_markup_free(x@)
                },
                Err(e) => {
                    &&& final(table)@ == old(table)@
                    &&& new_issue_valid(*new_issue) && new_contact(*new_issue) is Some ==> e
                        == IssueError::StorageError && old(table)@.len() > 0
                },
            },
            table_ok(old(table)@),
            table_ok(final(table)@),
    {
        proof {
            use_type_invariant(&*table);
        }
        let id = new_issue_id();
        let now = now_millis();
        proof {
            lemma_index_of(table@, id);
        }
        let r = table.insert(new_issue, ticket_number, id, now);
        if let Ok(x) = &r {
            assert(x.uuid == x@.uuid && x.created_at == x@.created_at);
            assert(x@.uuid == id && x@.created_at == now);
        }
        assert(create_outcome(old(table)@, *new_issue, ticket_number, id, now) == outcome_view(r));
        proof {
            use_type_invariant(&*table);
        }
        r
    }

    /// Replaces the editable fields of the issue named by `uuid`, stamping the
    /// change with the current time.
    pub fn update(table: &mut IssueTable, uuid: &str, issue: &EditedIssue) -> (r: Result<
        Issue,
        IssueError,
    >)
        ensures
            match r {
                Ok(x) => {
                    &&& outcome_view(r) == update_outcome(old(table)@, uuid@, *issue, x.updated_at)
                    &&& final(table)@ == replaced(old(table)@, uuid@, outcome_view(r))
                },
                Err(e) => {
                    &&& forall|now: i64| #[trigger]
                        update_outcome(old(table)@, uuid@, *issue, now) == Err::<
                            IssueView,
                            IssueError,
                        >(e)
                    &&& final(table)@ == old(table)@
                },
            },
            r matches Ok(x) ==> row_markup_free(x@),
    {
        let now = now_millis();
        let r = table.replace(uuid, issue, now);
        proof {
            if r is Err {
                assert forall|t: i64| #[trigger]
                    update_outcome(old(table)@, uuid@, *issue, t) == outcome_view(r) by {}
            }
        }
        r
    }

    /// Deletes the issue named by `uuid`; deleting a missing issue succeeds.
    pub fn destroy(table: &mut IssueTable, uuid: &str) -> (r: Result<(), IssueError>)
        ensures
            r == destroy_outcome(old(table)@, uuid@),
            final(table)@ == destroyed(old(table)@, uuid@),
            table_ok(old(table)@),
            table_ok(final(table)@),
    {
        proof {
            use_type_invariant(&*table);
        }
        let r = table.remove(uuid);
        proof {
            use_type_invariant(&*table);
        }
        r
    }

    /// Sets the status of the issue named by `uuid` to closed, touching no
    /// other field.
    pub fn complete(table: &mut IssueTable, uuid: &str) -> (r: Result<(), IssueError>)
        ensures
            r == complete_outcome(old(table)@, uuid@),
            final(table)@ == completed(old(table)@, uuid@),
    {
        table.close(uuid)
    }
}

} // verus!
