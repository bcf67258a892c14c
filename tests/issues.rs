use issue_tracker::issue::{EditedIssue, Issue, IssueError, NewIssue};
use issue_tracker::routes::{
    complete, create_issue, delete_issue, delete_issue_entry_point, edit_issue, get_issue,
    get_issues, get_open, manage_issues, next_ticket_number, patch_issue, put_issue,
    update_issue,
};
use issue_tracker::sanitize::clean_html;
use issue_tracker::table::IssueTable;
use issue_tracker::text::{same_text, token_matches};

const TOKEN: &str = "session-token-123";

fn form(name: &str, contact: &str) -> NewIssue {
    NewIssue {
        issue_name: name.to_string(),
        description: "printer is broken".to_string(),
        reported_by: "alice".to_string(),
        company_name: "acme".to_string(),
        contact_number: contact.to_string(),
        authenticity_token: TOKEN.to_string(),
    }
}

fn edit(method: &str, token: &str) -> EditedIssue {
    EditedIssue {
        method: method.to_string(),
        issue_name: "<i>new name</i>".to_string(),
        description: "still broken".to_string(),
        reported_by: "bob".to_string(),
        company_name: "initech".to_string(),
        contact_number: "555".to_string(),
        ticket_number: "77".to_string(),
        ticket_owner: "carol".to_string(),
        status: "open".to_string(),
        authenticity_token: token.to_string(),
    }
}

fn id_text(issue: &Issue) -> String {
    uuid::Uuid::from_u128(issue.uuid).to_string()
}

fn snapshot(table: &IssueTable) -> Vec<(u128, i64, String)> {
    let mut v: Vec<(u128, i64, String)> = Issue::find_all(table)
        .iter()
        .map(|i| (i.uuid, i.ticket_number, i.status.clone()))
        .collect();
    v.sort();
    v
}

fn add(table: &mut IssueTable, name: &str) -> Issue {
    let t = next_ticket_number(&Issue::find_last_token(table)).unwrap();
    Issue::create(table, &form(name, "12345"), t).unwrap()
}

#[test]
fn clean_html_strips_tags() {
    assert_eq!(clean_html("<b>hello</b> world"), "hello world");
    assert_eq!(clean_html("<script>alert(1)</script>safe"), "safe");
    assert_eq!(clean_html("plain text"), "plain text");
}

#[test]
fn clean_html_output_has_no_markup() {
    let inputs = [
        "<a href=\"x\" onclick=\"evil()\">link</a>",
        "<<b>>nested<</b>>",
        "1 < 2 and <img src=x onerror=alert(1)>",
        "<!-- comment --><div><p>para</p></div>",
        "<style>p{}</style><svg><g/></svg>text",
    ];
    for s in inputs.iter() {
        let out = clean_html(s);
        assert!(!out.contains('<'), "{} gave {}", s, out);
    }
}

#[test]
fn text_comparison() {
    assert!(same_text("abc", "abc"));
    assert!(!same_text("abc", "abd"));
    assert!(!same_text("abc", "ab"));
    assert!(token_matches("tok", "tok"));
    assert!(!token_matches("tok", "tik"));
    assert!(!token_matches("", ""));
    assert!(!token_matches("tok", ""));
}

#[test]
fn empty_issue_name_is_rejected() {
    let mut table = IssueTable::new();
    let r = create_issue(&mut table, &form("", "12345"), TOKEN);
    assert_eq!(r, Err(IssueError::ValidationError));
    assert_eq!(table.len(), 0);
    let r = Issue::create(&mut table, &form("", "12345"), 1);
    assert!(matches!(r, Err(IssueError::ValidationError)));
    assert_eq!(table.len(), 0);
}

#[test]
fn overlong_fields_are_rejected() {
    let mut table = IssueTable::new();
    let r = create_issue(&mut table, &form("twenty characters!!!", "12345"), TOKEN);
    assert_eq!(r, Err(IssueError::ValidationError));
    let mut f = form("ok", "12345");
    f.description = "d".repeat(50);
    assert_eq!(create_issue(&mut table, &f, TOKEN), Err(IssueError::ValidationError));
    f.description = "d".repeat(49);
    assert_eq!(create_issue(&mut table, &f, TOKEN), Ok(1));
    assert_eq!(table.len(), 1);
}

#[test]
fn malformed_contact_number_is_invalid_input() {
    let mut table = IssueTable::new();
    let r = create_issue(&mut table, &form("name", "12a"), TOKEN);
    assert_eq!(r, Err(IssueError::InvalidInput));
    assert_eq!(table.len(), 0);
    let r = create_issue(&mut table, &form("name", "99999999999999999999"), TOKEN);
    assert_eq!(r, Err(IssueError::ValidationError));
    let r = create_issue(&mut table, &form("name", "9999999999999999999"), TOKEN);
    assert_eq!(r, Err(IssueError::InvalidInput));
    assert_eq!(table.len(), 0);
}

#[test]
fn create_then_find_round_trip() {
    let mut table = IssueTable::new();
    let mut f = form("<b>Printer</b>", "<i>+42</i>");
    f.description = "jams <script>x</script>daily".to_string();
    let created = Issue::create(&mut table, &f, 7).unwrap();
    let found = Issue::find(&table, &id_text(&created)).unwrap();
    assert_eq!(found.uuid, created.uuid);
    assert_eq!(found.issue_name, "Printer");
    assert_eq!(found.description, "jams daily");
    assert_eq!(found.reported_by, "alice");
    assert_eq!(found.company_name, "acme");
    assert_eq!(found.contact_number, 42);
    assert_eq!(found.ticket_number, 7);
    assert_eq!(found.ticket_owner, "unassigned");
    assert_eq!(found.status, "open");
    assert_eq!(found.created_at, created.created_at);
    assert_eq!(found.updated_at, created.created_at);
    let shown = get_issue(&table, &id_text(&created)).unwrap();
    assert_eq!(shown.issue_name, "Printer");
    let editing = edit_issue(&table, &id_text(&created)).unwrap();
    assert_eq!(editing.uuid, created.uuid);
}

#[test]
fn find_errors() {
    let mut table = IssueTable::new();
    add(&mut table, "one");
    assert!(matches!(Issue::find(&table, "not-a-uuid"), Err(IssueError::InvalidInput)));
    let missing = "550e8400-e29b-41d4-a716-446655440000";
    assert!(matches!(Issue::find(&table, missing), Err(IssueError::NotFound)));
}

#[test]
fn ticket_numbers_start_at_one_and_increase() {
    let mut table = IssueTable::new();
    assert!(Issue::find_last_token(&table).is_empty());
    assert_eq!(create_issue(&mut table, &form("first", "1"), TOKEN), Ok(1));
    assert_eq!(create_issue(&mut table, &form("second", "2"), TOKEN), Ok(2));
    let last = Issue::find_last_token(&table);
    assert_eq!(last.len(), 1);
    assert_eq!(last[0].ticket_number, 2);
    assert_eq!(last[0].issue_name, "second");
}

#[test]
fn next_ticket_number_overflow() {
    let mut table = IssueTable::new();
    let created = Issue::create(&mut table, &form("big", "1"), i64::MAX).unwrap();
    assert_eq!(created.ticket_number, i64::MAX);
    assert_eq!(next_ticket_number(&Issue::find_last_token(&table)), None);
    assert_eq!(create_issue(&mut table, &form("next", "1"), TOKEN), Err(IssueError::StorageError));
    assert_eq!(table.len(), 1);
}

#[test]
fn complete_changes_only_status() {
    let mut table = IssueTable::new();
    let a = add(&mut table, "a");
    let b = add(&mut table, "b");
    let before_b = Issue::find(&table, &id_text(&b)).unwrap();
    assert_eq!(Issue::complete(&mut table, &id_text(&a)), Ok(()));
    let after_a = Issue::find(&table, &id_text(&a)).unwrap();
    assert_eq!(after_a.status, "closed");
    assert_eq!(after_a.issue_name, a.issue_name);
    assert_eq!(after_a.description, a.description);
    assert_eq!(after_a.reported_by, a.reported_by);
    assert_eq!(after_a.company_name, a.company_name);
    assert_eq!(after_a.contact_number, a.contact_number);
    assert_eq!(after_a.ticket_number, a.ticket_number);
    assert_eq!(after_a.ticket_owner, a.ticket_owner);
    assert_eq!(after_a.created_at, a.created_at);
    assert_eq!(after_a.updated_at, a.updated_at);
    let after_b = Issue::find(&table, &id_text(&b)).unwrap();
    assert_eq!(after_b.status, before_b.status);
    assert_eq!(table.len(), 2);
}

#[test]
fn complete_missing_or_malformed() {
    let mut table = IssueTable::new();
    add(&mut table, "a");
    let missing = "550e8400-e29b-41d4-a716-446655440000";
    assert_eq!(Issue::complete(&mut table, missing), Err(IssueError::NotFound));
    assert_eq!(Issue::complete(&mut table, "zz"), Err(IssueError::InvalidInput));
}

#[test]
fn complete_route_checks_token() {
    let mut table = IssueTable::new();
    let a = add(&mut table, "a");
    assert_eq!(complete(&mut table, &id_text(&a), TOKEN, "wrong"), Err(IssueError::SecurityError));
    assert_eq!(Issue::find(&table, &id_text(&a)).unwrap().status, "open");
    assert_eq!(complete(&mut table, &id_text(&a), TOKEN, TOKEN), Ok(()));
    assert_eq!(Issue::find(&table, &id_text(&a)).unwrap().status, "closed");
}

#[test]
fn delete_missing_is_not_an_error() {
    let mut table = IssueTable::new();
    add(&mut table, "a");
    let missing = "550e8400-e29b-41d4-a716-446655440000";
    assert_eq!(Issue::destroy(&mut table, missing), Ok(()));
    assert_eq!(Issue::destroy(&mut table, missing), Ok(()));
    assert_eq!(table.len(), 1);
    assert_eq!(Issue::destroy(&mut table, "bad id"), Err(IssueError::InvalidInput));
}

#[test]
fn delete_removes_the_row() {
    let mut table = IssueTable::new();
    let a = add(&mut table, "a");
    let b = add(&mut table, "b");
    assert_eq!(delete_issue(&mut table, &id_text(&a), TOKEN, TOKEN), Ok(()));
    assert_eq!(table.len(), 1);
    assert!(matches!(Issue::find(&table, &id_text(&a)), Err(IssueError::NotFound)));
    assert!(Issue::find(&table, &id_text(&b)).is_ok());
    assert_eq!(delete_issue_entry_point(&mut table, &id_text(&b), TOKEN, TOKEN), Ok(()));
    assert_eq!(table.len(), 0);
}

#[test]
fn unsynchronised_creations_can_share_a_ticket_number() {
    let mut table = IssueTable::new();
    add(&mut table, "seed");
    let seen_by_first = next_ticket_number(&Issue::find_last_token(&table)).unwrap();
    let seen_by_second = next_ticket_number(&Issue::find_last_token(&table)).unwrap();
    let x = Issue::create(&mut table, &form("first", "1"), seen_by_first).unwrap();
    let y = Issue::create(&mut table, &form("second", "2"), seen_by_second).unwrap();
    assert_eq!(x.ticket_number, 2);
    assert_eq!(y.ticket_number, 2);
    assert_ne!(x.uuid, y.uuid);
}

#[test]
fn wrong_or_missing_token_mutates_nothing() {
    let mut table = IssueTable::new();
    let a = add(&mut table, "a");
    let before = snapshot(&table);

    let mut f = form("new", "1");
    f.authenticity_token = "".to_string();
    assert_eq!(create_issue(&mut table, &f, TOKEN), Err(IssueError::SecurityError));
    f.authenticity_token = "forged".to_string();
    assert_eq!(create_issue(&mut table, &f, TOKEN), Err(IssueError::SecurityError));

    let r = update_issue(&mut table, &id_text(&a), &edit("PUT", "forged"), TOKEN);
    assert!(matches!(r, Err(IssueError::SecurityError)));
    let r = put_issue(&mut table, &id_text(&a), &edit("PUT", ""), TOKEN);
    assert!(matches!(r, Err(IssueError::SecurityError)));

    assert_eq!(delete_issue(&mut table, &id_text(&a), TOKEN, ""), Err(IssueError::SecurityError));
    assert_eq!(delete_issue(&mut table, &id_text(&a), TOKEN, "x"), Err(IssueError::SecurityError));

    assert_eq!(snapshot(&table), before);
    assert_eq!(Issue::find(&table, &id_text(&a)).unwrap().issue_name, "a");
}

#[test]
fn update_replaces_fields() {
    let mut table = IssueTable::new();
    let a = add(&mut table, "a");
    let updated = update_issue(&mut table, &id_text(&a), &edit("PUT", TOKEN), TOKEN).unwrap();
    assert_eq!(updated.uuid, a.uuid);
    let found = Issue::find(&table, &id_text(&a)).unwrap();
    assert_eq!(found.issue_name, "new name");
    assert_eq!(found.description, "still broken");
    assert_eq!(found.reported_by, "bob");
    assert_eq!(found.company_name, "initech");
    assert_eq!(found.contact_number, 555);
    assert_eq!(found.ticket_number, 77);
    assert_eq!(found.ticket_owner, "carol");
    assert_eq!(found.status, "open");
    assert_eq!(found.created_at, a.created_at);
    assert!(found.updated_at >= a.created_at);
    let patched = patch_issue(&mut table, &id_text(&a), &edit("PATCH", TOKEN), TOKEN).unwrap();
    assert_eq!(patched.ticket_number, 77);
    assert_eq!(table.len(), 1);
}

#[test]
fn update_errors() {
    let mut table = IssueTable::new();
    let a = add(&mut table, "a");
    let r = update_issue(&mut table, &id_text(&a), &edit("POST", TOKEN), TOKEN);
    assert!(matches!(r, Err(IssueError::InvalidInput)));
    let mut e = edit("PUT", TOKEN);
    e.issue_name = "".to_string();
    let r = update_issue(&mut table, &id_text(&a), &e, TOKEN);
    assert!(matches!(r, Err(IssueError::ValidationError)));
    let mut e = edit("PUT", TOKEN);
    e.ticket_number = "seven".to_string();
    let r = Issue::update(&mut table, &id_text(&a), &e);
    assert!(matches!(r, Err(IssueError::InvalidInput)));
    let missing = "550e8400-e29b-41d4-a716-446655440000";
    let r = Issue::update(&mut table, missing, &edit("PUT", TOKEN));
    assert!(matches!(r, Err(IssueError::NotFound)));
    let r = Issue::update(&mut table, "nope", &edit("PUT", TOKEN));
    assert!(matches!(r, Err(IssueError::InvalidInput)));
    assert_eq!(Issue::find(&table, &id_text(&a)).unwrap().issue_name, "a");
}

#[test]
fn listings_show_ten_newest_first() {
    let mut table = IssueTable::new();
    for i in 0..12 {
        add(&mut table, &format!("n{}", i));
    }
    let all = Issue::find_all(&table);
    assert_eq!(all.len(), 10);
    assert_eq!(all[0].issue_name, "n11");
    assert_eq!(all[9].issue_name, "n2");
    assert_eq!(all[0].ticket_number, 12);
    assert_eq!(get_issues(&table).len(), 10);
    assert_eq!(manage_issues(&table)[0].issue_name, "n11");
}

#[test]
fn open_listing_filters_within_the_newest() {
    let mut table = IssueTable::new();
    let old_open = add(&mut table, "old");
    let mut newer = Vec::new();
    for i in 0..10 {
        newer.push(add(&mut table, &format!("m{}", i)));
    }
    Issue::complete(&mut table, &id_text(&newer[9])).unwrap();
    Issue::complete(&mut table, &id_text(&newer[0])).unwrap();
    let open = get_open(&table);
    assert_eq!(open.len(), 8);
    assert_eq!(open[0].issue_name, "m8");
    assert_eq!(open[7].issue_name, "m1");
    assert!(open.iter().all(|i| i.status == "open"));
    assert!(open.iter().all(|i| i.uuid != old_open.uuid));
}

#[test]
fn field_limits_count_bytes() {
    let mut table = IssueTable::new();
    let r = create_issue(&mut table, &form(&"é".repeat(10), "1"), TOKEN);
    assert_eq!(r, Err(IssueError::ValidationError));
    assert_eq!(table.len(), 0);
    let r = create_issue(&mut table, &form(&"é".repeat(9), "1"), TOKEN);
    assert_eq!(r, Ok(1));
    assert_eq!(Issue::find_all(&table)[0].issue_name, "é".repeat(9));
}

#[test]
fn validation_comes_before_ticket_numbering() {
    let mut table = IssueTable::new();
    Issue::create(&mut table, &form("big", "1"), i64::MAX).unwrap();
    let r = create_issue(&mut table, &form("", "1"), TOKEN);
    assert_eq!(r, Err(IssueError::ValidationError));
    let mut f = form("x", "1");
    f.authenticity_token = "forged".to_string();
    assert_eq!(create_issue(&mut table, &f, TOKEN), Err(IssueError::SecurityError));
    assert_eq!(create_issue(&mut table, &form("x", "1"), TOKEN), Err(IssueError::StorageError));
}

#[test]
fn listings_are_in_decreasing_creation_time() {
    let mut table = IssueTable::new();
    for i in 0..6 {
        add(&mut table, &format!("k{}", i));
    }
    let all = Issue::find_all(&table);
    assert_eq!(all.len(), 6);
    for w in all.windows(2) {
        assert!(w[0].created_at >= w[1].created_at);
    }
    let last = Issue::find_last_token(&table);
    assert!(all.iter().all(|i| i.created_at <= last[0].created_at));
}

#[test]
fn deleting_twice_is_a_no_op() {
    let mut table = IssueTable::new();
    let a = add(&mut table, "a");
    add(&mut table, "b");
    assert_eq!(Issue::destroy(&mut table, &id_text(&a)), Ok(()));
    let after_first = snapshot(&table);
    assert_eq!(Issue::destroy(&mut table, &id_text(&a)), Ok(()));
    assert_eq!(snapshot(&table), after_first);
    assert_eq!(table.len(), 1);
}
