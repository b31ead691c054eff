use shara_core::analysis::{ClassifierOutcome, ImageDetections, RawDetection, DEFAULT_LABEL};
use shara_core::clock::{now, timestamp};
use shara_core::config::{parse_port, port_from, DEFAULT_PORT};
use shara_core::firestore::{Firestore, ISSUES_URL_HEAD, ISSUES_URL_MIDDLE};
use shara_core::ids::{fresh_id, prefixed, UUID_LENGTH};
use shara_core::message::Message;
use shara_core::records::{
    Group, Issue, NewIssue, NewMessage, User, GROUP_PREFIX, ISSUE_PREFIX, MESSAGE_PREFIX,
    UNVERIFIED, USER_PREFIX,
};
use shara_core::store::{delete_issue, groups_of_issue, history, join_group, leave_group};

fn text(s: &str) -> String {
    s.to_string()
}

fn is_uuid(s: &str) -> bool {
    s.len() == 36
        && s.char_indices().all(|(i, c)| match i {
            8 | 13 | 18 | 23 => c == '-',
            14 => c == '4',
            _ => c.is_ascii_hexdigit() && !c.is_ascii_uppercase(),
        })
}

fn group(id: &str, issue: &str, members: &[&str]) -> Group {
    Group {
        id: text(id),
        issue_id: text(issue),
        name: format!("group {}", id),
        members: members.iter().map(|m| text(m)).collect(),
        created_at: 7,
    }
}

fn issue(id: &str) -> Issue {
    Issue {
        id: text(id),
        title: format!("issue {}", id),
        description: text("a hole"),
        coords: [525_200_000, 134_050_000],
        image_url: None,
        category: text("unverified"),
        ai: None,
        reports: 1,
        created_at: 7,
    }
}

fn stored_message(id: &str, group: &str) -> Message {
    Message {
        id: text(id),
        group_id: text(group),
        sender_id: text("usr_1"),
        sender_name: text("Ada"),
        text: text("hello"),
        created_at: 7,
    }
}

#[test]
fn a_fresh_id_is_its_prefix_and_a_uuid() {
    assert_eq!(UUID_LENGTH, 36);
    let id = fresh_id("usr_");
    assert_eq!(id.len(), 40);
    assert!(id.starts_with("usr_"));
    assert!(is_uuid(&id[4..]));
    let bare = fresh_id("");
    assert!(is_uuid(&bare));
}

#[test]
fn fresh_ids_differ() {
    assert_ne!(fresh_id("msg_"), fresh_id("msg_"));
}

#[test]
fn prefixed_joins_its_parts() {
    assert_eq!(prefixed("grp_", "abc"), "grp_abc");
    assert_eq!(prefixed("", ""), "");
}

#[test]
fn a_reading_from_before_the_epoch_is_stamped_zero() {
    assert_eq!(timestamp(None), 0);
    assert_eq!(timestamp(Some(0)), 0);
    assert_eq!(timestamp(Some(1_700_000_000)), 1_700_000_000);
    assert_eq!(timestamp(Some(u64::MAX)), u64::MAX);
}

#[test]
fn now_reads_a_time_after_the_epoch() {
    let first = now();
    assert!(first >= 1_000_000_000);
    assert!(now() >= first);
}

#[test]
fn a_user_is_registered_under_a_fresh_id() {
    let user = User::create(text("ada"));
    assert_eq!(user.username, "ada");
    assert!(user.id.starts_with("usr_"));
    assert!(is_uuid(&user.id[4..]));
    assert!(user.created_at >= 1_000_000_000);
}

#[test]
fn an_issue_without_an_image_is_not_analysed() {
    let input = NewIssue {
        title: text("Pothole"),
        description: text("deep"),
        coords: [-1, 2],
        image_url: None,
    };
    let outcome = ClassifierOutcome::Answer {
        images: Some(vec![ImageDetections {
            results: Some(vec![RawDetection {
                x1: Some(0),
                y1: Some(0),
                x2: Some(5),
                y2: Some(5),
                confidence: Some(1),
                name: None,
            }]),
        }]),
    };
    let issue = Issue::create(input, &outcome);
    assert!(issue.id.starts_with("iss_"));
    assert!(is_uuid(&issue.id[4..]));
    assert_eq!(issue.title, "Pothole");
    assert_eq!(issue.description, "deep");
    assert_eq!(issue.coords, [-1, 2]);
    assert_eq!(issue.image_url, None);
    assert_eq!(issue.category, "unverified");
    assert_eq!(issue.ai, None);
    assert_eq!(issue.reports, 1);
}

#[test]
fn an_issue_with_an_image_keeps_the_analysis() {
    let input = NewIssue {
        title: text("Pothole"),
        description: text("deep"),
        coords: [0, 0],
        image_url: Some(text("http://example.org/p.jpg")),
    };
    let outcome = ClassifierOutcome::Answer {
        images: Some(vec![ImageDetections {
            results: Some(vec![RawDetection {
                x1: Some(0),
                y1: Some(0),
                x2: Some(5),
                y2: Some(5),
                confidence: Some(640_000),
                name: Some(text("pothole")),
            }]),
        }]),
    };
    let issue = Issue::create(input, &outcome);
    assert_eq!(issue.image_url, Some(text("http://example.org/p.jpg")));
    let ai = issue.ai.unwrap();
    assert_eq!(ai.boxes.len(), 1);
    assert_eq!(ai.boxes[0].label, "pothole");
    assert_eq!(ai.avg_confidence, 640_000);
    assert_eq!(ai.severity, 1);
}

#[test]
fn an_issue_whose_image_could_not_be_classified_has_an_empty_analysis() {
    let input = NewIssue {
        title: text("Pothole"),
        description: text("deep"),
        coords: [0, 0],
        image_url: Some(text("http://example.org/p.jpg")),
    };
    let issue = Issue::create(input, &ClassifierOutcome::Unavailable);
    let ai = issue.ai.unwrap();
    assert!(ai.boxes.is_empty());
    assert_eq!(ai.avg_confidence, 0);
    assert_eq!(ai.severity, 0);
}

#[test]
fn a_group_is_founded_with_its_first_member() {
    let group = Group::create(text("iss_1"), text("Neighbours"), text("usr_1"));
    assert!(group.id.starts_with("grp_"));
    assert!(is_uuid(&group.id[4..]));
    assert_eq!(group.issue_id, "iss_1");
    assert_eq!(group.name, "Neighbours");
    assert_eq!(group.members, vec!["usr_1"]);
}

#[test]
fn a_message_is_made_for_its_group() {
    let input = NewMessage { sender_id: text("usr_1"), sender_name: text("Ada"), text: text("hi") };
    let message = Message::create(text("grp_1"), input);
    assert!(message.id.starts_with("msg_"));
    assert!(is_uuid(&message.id[4..]));
    assert_eq!(message.group_id, "grp_1");
    assert_eq!(message.sender_id, "usr_1");
    assert_eq!(message.sender_name, "Ada");
    assert_eq!(message.text, "hi");
}

#[test]
fn a_member_is_added_once_and_at_the_end() {
    let mut g = group("g", "i", &["a", "b"]);
    assert!(g.is_member(&text("a")));
    assert!(!g.is_member(&text("c")));
    g.add_member(text("c"));
    assert_eq!(g.members, vec!["a", "b", "c"]);
    g.add_member(text("a"));
    g.add_member(text("c"));
    assert_eq!(g.members, vec!["a", "b", "c"]);
    assert_eq!(g.name, "group g");
}

#[test]
fn a_member_is_removed_and_the_others_keep_their_order() {
    let mut g = group("g", "i", &["a", "b", "c"]);
    g.remove_member(&text("b"));
    assert_eq!(g.members, vec!["a", "c"]);
    g.remove_member(&text("x"));
    assert_eq!(g.members, vec!["a", "c"]);
    let mut twice = group("g", "i", &["a", "b", "a"]);
    twice.remove_member(&text("a"));
    assert_eq!(twice.members, vec!["b"]);
}

#[test]
fn joining_changes_the_named_group_only() {
    let mut groups = vec![group("g1", "i", &["a"]), group("g2", "i", &["a"]), group("g1", "j", &[])];
    join_group(&mut groups, &text("g1"), &text("b"));
    assert_eq!(
        groups,
        vec![group("g1", "i", &["a", "b"]), group("g2", "i", &["a"]), group("g1", "j", &["b"])]
    );
    join_group(&mut groups, &text("g1"), &text("b"));
    assert_eq!(groups[0].members, vec!["a", "b"]);
    join_group(&mut groups, &text("none"), &text("b"));
    assert_eq!(groups[1].members, vec!["a"]);
}

#[test]
fn leaving_changes_the_named_group_only() {
    let mut groups = vec![group("g1", "i", &["a", "b"]), group("g2", "i", &["a", "b"])];
    leave_group(&mut groups, &text("g1"), &text("a"));
    assert_eq!(groups, vec![group("g1", "i", &["b"]), group("g2", "i", &["a", "b"])]);
    leave_group(&mut groups, &text("g1"), &text("a"));
    assert_eq!(groups[0].members, vec!["b"]);
}

#[test]
fn deleting_an_issue_says_whether_there_was_one() {
    let mut issues = vec![issue("i1"), issue("i2"), issue("i3")];
    assert!(delete_issue(&mut issues, &text("i2")));
    assert_eq!(issues, vec![issue("i1"), issue("i3")]);
    assert!(!delete_issue(&mut issues, &text("i2")));
    assert_eq!(issues, vec![issue("i1"), issue("i3")]);
    let mut none: Vec<Issue> = vec![];
    assert!(!delete_issue(&mut none, &text("i1")));
    let mut twice = vec![issue("i1"), issue("i1")];
    assert!(delete_issue(&mut twice, &text("i1")));
    assert!(twice.is_empty());
}

#[test]
fn groups_are_found_by_their_issue() {
    let groups = vec![group("g1", "i1", &[]), group("g2", "i2", &[]), group("g3", "i1", &[])];
    assert_eq!(
        groups_of_issue(groups.clone(), &Some(text("i1"))),
        vec![group("g1", "i1", &[]), group("g3", "i1", &[])]
    );
    assert_eq!(groups_of_issue(groups.clone(), &Some(text("i9"))), vec![]);
    assert_eq!(groups_of_issue(groups.clone(), &None), groups);
}

#[test]
fn the_history_of_a_group_holds_its_messages_oldest_first() {
    let stored = vec![stored_message("1", "g1"), stored_message("2", "g2"), stored_message("3", "g1")];
    assert_eq!(history(stored, &text("g1")), vec![stored_message("1", "g1"), stored_message("3", "g1")]);
    assert_eq!(history(vec![stored_message("1", "g1")], &text("g2")), vec![]);
}

#[test]
fn a_stored_message_is_the_newest_of_its_history() {
    let mut stored = vec![stored_message("1", "g1"), stored_message("2", "g2")];
    stored.push(stored_message("3", "g1"));
    let found = history(stored, &text("g1"));
    assert_eq!(found.last(), Some(&stored_message("3", "g1")));
}

#[test]
fn the_issues_collection_is_addressed_by_project_and_key() {
    let firestore = Firestore::new(text("secret"), text("shara"));
    assert_eq!(firestore.api_key, "secret");
    assert_eq!(firestore.project_id, "shara");
    assert_eq!(
        firestore.issues_url(),
        "https://firestore.googleapis.com/v1/projects/shara/databases/(default)/documents/issues?key=secret"
    );
}

#[test]
fn a_port_is_read_from_decimal_digits() {
    assert_eq!(parse_port("8000"), Some(8000));
    assert_eq!(parse_port("0"), Some(0));
    assert_eq!(parse_port("65535"), Some(65535));
    assert_eq!(parse_port("+443"), Some(443));
    assert_eq!(parse_port("0008080"), Some(8080));
}

#[test]
fn what_names_no_port_is_refused() {
    for text in [
        "", "+", "-1", "-0", "65536", "70000", "99999999999999999999", " 80", "80 ", "8 0", "80a",
        "a80", "0x50", "8_000", "++80", "80+", "8.0", "\u{0661}\u{0662}", "\u{ff18}0",
    ] {
        assert_eq!(parse_port(text), None, "{:?}", text);
    }
}

#[test]
fn ports_are_read_as_the_standard_library_reads_them() {
    for text in
        ["8000", "+1", "65535", "65536", "", "+", "-5", "12ab", "00000000000000000001", "\u{0663}"]
    {
        assert_eq!(parse_port(text), text.parse::<u16>().ok(), "{:?}", text);
    }
    for n in 0..=u16::MAX {
        assert_eq!(parse_port(&format!("{}", n)), Some(n));
    }
}

#[test]
fn the_default_port_stands_in_where_none_is_set() {
    assert_eq!(DEFAULT_PORT, 8000);
    assert_eq!(port_from(None), Some(8000));
    assert_eq!(port_from(Some("9000")), Some(9000));
    assert_eq!(port_from(Some("")), None);
    assert_eq!(port_from(Some("port")), None);
}

#[test]
fn identifiers_and_addresses_begin_as_documented() {
    assert_eq!(USER_PREFIX, "usr_");
    assert_eq!(ISSUE_PREFIX, "iss_");
    assert_eq!(GROUP_PREFIX, "grp_");
    assert_eq!(MESSAGE_PREFIX, "msg_");
    assert_eq!(UNVERIFIED, "unverified");
    assert_eq!(DEFAULT_LABEL, "unknown");
    assert_eq!(ISSUES_URL_HEAD, "https://firestore.googleapis.com/v1/projects/");
    assert_eq!(ISSUES_URL_MIDDLE, "/databases/(default)/documents/issues?key=");
}

#[test]
fn a_user_is_assembled_from_the_drawn_values() {
    let user = User::assemble(text("usr_7"), text("ada"), 1_700_000_123);
    assert_eq!(user, User { id: text("usr_7"), username: text("ada"), created_at: 1_700_000_123 });
}

#[test]
fn a_group_is_assembled_from_the_drawn_values() {
    let made = Group::assemble(text("grp_7"), text("iss_1"), text("Neighbours"), text("usr_1"), 42);
    assert_eq!(
        made,
        Group {
            id: text("grp_7"),
            issue_id: text("iss_1"),
            name: text("Neighbours"),
            members: vec![text("usr_1")],
            created_at: 42,
        }
    );
}

#[test]
fn a_message_is_assembled_from_the_drawn_values() {
    let input = NewMessage { sender_id: text("usr_1"), sender_name: text("Ada"), text: text("hi") };
    let made = Message::assemble(text("msg_7"), text("grp_1"), input, 1_700_000_456);
    assert_eq!(
        made,
        Message {
            id: text("msg_7"),
            group_id: text("grp_1"),
            sender_id: text("usr_1"),
            sender_name: text("Ada"),
            text: text("hi"),
            created_at: 1_700_000_456,
        }
    );
}

#[test]
fn an_issue_is_assembled_from_the_drawn_values() {
    let input = NewIssue {
        title: text("Pothole"),
        description: text("deep"),
        coords: [525_200_000, -134_050_000],
        image_url: None,
    };
    let made = Issue::assemble(text("iss_7"), input, &ClassifierOutcome::Unavailable, 1_700_000_789);
    assert_eq!(
        made,
        Issue {
            id: text("iss_7"),
            title: text("Pothole"),
            description: text("deep"),
            coords: [525_200_000, -134_050_000],
            image_url: None,
            category: text("unverified"),
            ai: None,
            reports: 1,
            created_at: 1_700_000_789,
        }
    );
}

#[test]
fn an_assembled_issue_with_an_image_keeps_the_analysis() {
    let input = NewIssue {
        title: text("Pothole"),
        description: text("deep"),
        coords: [0, 0],
        image_url: Some(text("http://example.org/p.jpg")),
    };
    let outcome = ClassifierOutcome::Answer {
        images: Some(vec![ImageDetections {
            results: Some(vec![RawDetection {
                x1: Some(0),
                y1: Some(0),
                x2: Some(5),
                y2: Some(5),
                confidence: Some(640_000),
                name: None,
            }]),
        }]),
    };
    let made = Issue::assemble(text("iss_8"), input, &outcome, 9);
    assert_eq!(made.created_at, 9);
    assert_eq!(made.id, "iss_8");
    let ai = made.ai.unwrap();
    assert_eq!(ai.boxes.len(), 1);
    assert_eq!(ai.boxes[0].label, "unknown");
    assert_eq!(ai.avg_confidence, 640_000);
    assert_eq!(ai.severity, 1);
}

#[test]
fn created_records_are_stamped_by_the_clock() {
    let before = now();
    let user = User::create(text("ada"));
    let group = Group::create(text("iss_1"), text("Neighbours"), text("usr_1"));
    let input = NewMessage { sender_id: text("usr_1"), sender_name: text("Ada"), text: text("hi") };
    let message = Message::create(text("grp_1"), input);
    let issue = Issue::create(
        NewIssue { title: text("t"), description: text("d"), coords: [0, 0], image_url: None },
        &ClassifierOutcome::Unavailable,
    );
    let after = now();
    for stamp in [user.created_at, group.created_at, message.created_at, issue.created_at] {
        assert!(before <= stamp && stamp <= after);
    }
}
