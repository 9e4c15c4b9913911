use cizrna::abstraction::IntoAbstract;
use cizrna::extra_fields::{
    BugFlag, BugRecord, Config, DocTextStatus, ExtraFields, ExtractError, Fields, IssueRecord,
};
use cizrna::json::JsonValue;
use cizrna::note::content_lines;
use cizrna::references::{ReferenceQueries, ReferenceSignatures, TicketQuery};
use cizrna::templating::{can_format, format_document, DocumentVariant, Filter, Section, Template};
use cizrna::ticket::{AbstractTicket, TicketId, Tracker};

fn s(text: &str) -> String {
    text.to_string()
}

fn fields() -> Fields {
    Fields {
        doc_type: s("cf_doc_type"),
        doc_text: s("cf_release_notes"),
        target_release: s("cf_internal_target_release"),
        subsystems: s("pool"),
        doc_text_status: s("requires_doc_text"),
        docs_contact: s("customfield_docs_contact"),
    }
}

fn obj(members: Vec<(&str, JsonValue)>) -> JsonValue {
    JsonValue::Object(members.into_iter().map(|(k, v)| (s(k), v)).collect())
}

fn jstr(text: &str) -> JsonValue {
    JsonValue::Str(s(text))
}

fn bug(key: &str, public: bool, flag: Option<&str>, extra: JsonValue) -> BugRecord {
    BugRecord {
        key: s(key),
        url: format!("https://bugzilla.example.com/show_bug.cgi?id={}", key),
        summary: s("A bug"),
        public,
        docs_contact: Some(s("writer@example.com")),
        components: vec![s("kernel")],
        flags: match flag {
            Some(f) => vec![BugFlag { name: s("requires_doc_text"), status: s(f) }],
            None => vec![],
        },
        extra,
    }
}

fn good_bug_extra() -> JsonValue {
    obj(vec![
        ("cf_doc_type", jstr("Bug Fix")),
        ("cf_release_notes", jstr("Fixed a crash.")),
        ("pool", obj(vec![("team", obj(vec![("name", jstr("Storage"))]))])),
    ])
}

fn issue(key: &str, extra: JsonValue) -> IssueRecord {
    IssueRecord {
        key: s(key),
        url: format!("https://jira.example.com/browse/{}", key),
        summary: s("An issue"),
        public: true,
        fix_versions: vec![s("9.1"), s("9.2")],
        components: vec![s("network")],
        extra,
    }
}

fn good_issue_extra() -> JsonValue {
    obj(vec![
        ("cf_doc_type", obj(vec![("value", jstr("Feature"))])),
        ("cf_release_notes", jstr("A new feature.")),
        ("pool", JsonValue::Array(vec![obj(vec![("value", jstr("Networking"))])])),
        ("requires_doc_text", obj(vec![("value", jstr("?"))])),
        ("customfield_docs_contact", obj(vec![("emailAddress", jstr("docs@example.com"))])),
    ])
}

fn ticket(key: &str, public: bool, doc_type: Option<&str>, doc_text: &str) -> AbstractTicket {
    AbstractTicket {
        id: TicketId { tracker: Tracker::Bugzilla, key: s(key) },
        public,
        url: format!("https://bz.example.com/{}", key),
        summary: s("Summary"),
        doc_type: doc_type.map(s),
        doc_text: s(doc_text),
        doc_text_status: DocTextStatus::Approved,
        docs_contact: s(""),
        target_release: None,
        subsystems: vec![s("Storage")],
        components: vec![s("kernel")],
        references: vec![],
    }
}

fn no_filter() -> Filter {
    Filter { doc_type: None, subsystem: None, component: None }
}

fn doc_type_filter(doc_type: &str) -> Filter {
    Filter { doc_type: Some(vec![s(doc_type)]), subsystem: None, component: None }
}

#[test]
fn status_from_bug_flags() {
    let f = fields();
    assert_eq!(bug("1", true, Some("+"), good_bug_extra()).doc_text_status(&f), DocTextStatus::Approved);
    assert_eq!(bug("1", true, Some("?"), good_bug_extra()).doc_text_status(&f), DocTextStatus::InProgress);
    assert_eq!(bug("1", true, Some("-"), good_bug_extra()).doc_text_status(&f), DocTextStatus::NoDocumentation);
    assert_eq!(bug("1", true, None, good_bug_extra()).doc_text_status(&f), DocTextStatus::NoDocumentation);
}

#[test]
fn status_from_issue_field() {
    let f = fields();
    assert_eq!(issue("A-1", good_issue_extra()).doc_text_status(&f), DocTextStatus::InProgress);
    let approved = obj(vec![("requires_doc_text", obj(vec![("value", jstr("+"))]))]);
    assert_eq!(issue("A-1", approved).doc_text_status(&f), DocTextStatus::Approved);
    let other = obj(vec![("requires_doc_text", obj(vec![("value", jstr("++"))]))]);
    assert_eq!(issue("A-1", other).doc_text_status(&f), DocTextStatus::NoDocumentation);
    assert_eq!(issue("A-1", obj(vec![])).doc_text_status(&f), DocTextStatus::NoDocumentation);
}

#[test]
fn status_short_forms() {
    assert_eq!(DocTextStatus::Approved.short_form(), "RDT+");
    assert_eq!(DocTextStatus::InProgress.short_form(), "RDT?");
    assert_eq!(DocTextStatus::NoDocumentation.short_form(), "RDT-");
    assert_eq!(DocTextStatus::from_flag("+"), DocTextStatus::Approved);
    assert_eq!(DocTextStatus::from_flag(""), DocTextStatus::NoDocumentation);
}

#[test]
fn bug_fields_extracted() {
    let f = fields();
    let b = bug("7", true, Some("+"), good_bug_extra());
    assert_eq!(b.doc_type(&f).unwrap(), Some(s("Bug Fix")));
    assert_eq!(b.doc_text(&f).unwrap(), Some(s("Fixed a crash.")));
    assert_eq!(b.target_release(&f), None);
    assert_eq!(b.subsystems(&f).unwrap(), vec![s("Storage")]);
    assert_eq!(b.docs_contact(&f).unwrap(), Some(s("writer@example.com")));
}

#[test]
fn bug_without_pool_fails() {
    let f = fields();
    let b = bug("7", true, Some("+"), obj(vec![]));
    assert!(matches!(b.subsystems(&f), Err(ExtractError::MissingField(name)) if name == "pool"));
    let bad = bug("7", true, Some("+"), obj(vec![("pool", jstr("Storage"))]));
    assert!(matches!(bad.subsystems(&f), Err(ExtractError::UnexpectedStructure(name)) if name == "pool"));
    assert!(bad.into_abstract(vec![], &f).is_err());
}

#[test]
fn issue_fields_extracted() {
    let f = fields();
    let i = issue("PROJ-5", good_issue_extra());
    assert_eq!(i.doc_type(&f).unwrap(), Some(s("Feature")));
    assert_eq!(i.doc_text(&f).unwrap(), Some(s("A new feature.")));
    assert_eq!(i.target_release(&f), Some(s("9.1")));
    assert_eq!(i.subsystems(&f).unwrap(), vec![s("Networking")]);
    assert_eq!(i.docs_contact(&f).unwrap(), Some(s("docs@example.com")));
    let empty = issue("PROJ-6", obj(vec![("pool", JsonValue::Array(vec![]))]));
    assert_eq!(empty.doc_type(&f).unwrap(), None);
    assert_eq!(empty.doc_text(&f).unwrap(), None);
    assert_eq!(empty.docs_contact(&f).unwrap(), None);
    assert_eq!(empty.subsystems(&f).unwrap(), Vec::<String>::new());
}

#[test]
fn issue_malformed_fields_fail() {
    let f = fields();
    let bad_entry = issue("P-1", obj(vec![("pool", JsonValue::Array(vec![obj(vec![("name", jstr("x"))])]))]));
    assert!(matches!(bad_entry.subsystems(&f), Err(ExtractError::UnexpectedStructure(_))));
    let no_pool = issue("P-1", obj(vec![]));
    assert!(matches!(no_pool.subsystems(&f), Err(ExtractError::MissingField(_))));
    let bad_doc_type = issue("P-1", obj(vec![("cf_doc_type", jstr("Feature"))]));
    assert!(matches!(bad_doc_type.doc_type(&f), Err(ExtractError::UnexpectedStructure(_))));
    let bad_text = issue("P-1", obj(vec![("cf_release_notes", JsonValue::Bool(true))]));
    assert!(matches!(bad_text.doc_text(&f), Err(ExtractError::UnexpectedStructure(_))));
}

#[test]
fn bug_into_abstract() {
    let f = fields();
    let t = bug("42", false, Some("+"), good_bug_extra()).into_abstract(vec![s("X-1")], &f).unwrap();
    assert_eq!(t.id.key, "42");
    assert_eq!(t.id.tracker, Tracker::Bugzilla);
    assert!(!t.public);
    assert_eq!(t.doc_type, Some(s("Bug Fix")));
    assert_eq!(t.doc_text, "Fixed a crash.");
    assert_eq!(t.doc_text_status, DocTextStatus::Approved);
    assert_eq!(t.docs_contact, "writer@example.com");
    assert_eq!(t.subsystems, vec![s("Storage")]);
    assert_eq!(t.components, vec![s("kernel")]);
    assert_eq!(t.references, vec![s("X-1")]);
}

#[test]
fn issue_into_abstract() {
    let f = fields();
    let t = issue("PROJ-5", good_issue_extra()).into_abstract(vec![], &f).unwrap();
    assert_eq!(t.id.tracker, Tracker::Jira);
    assert_eq!(t.target_release, Some(s("9.1")));
    assert_eq!(t.doc_text_status, DocTextStatus::InProgress);
    assert_eq!(t.docs_contact, "docs@example.com");
    assert_eq!(t.signature(), "link:https://jira.example.com/browse/PROJ-5[PROJ-5]");
}

#[test]
fn signature_public_and_private() {
    let public = ticket("123", true, None, "text");
    assert_eq!(public.signature(), "link:https://bz.example.com/123[123]");
    let private = ticket("123", false, None, "text");
    assert_eq!(private.signature(), "123");
    let mut odd = ticket("9", false, None, "text");
    odd.url = s("link:weird[]");
    assert_eq!(odd.signature(), "9");
}

#[test]
fn release_note_internal() {
    let mut t = ticket("123", true, Some("Bug Fix"), "Fixed it.");
    t.references = vec![s("456"), s("link:u[789]")];
    assert_eq!(
        t.release_note(DocumentVariant::Internal),
        "[id=\"BZ-123\"]\nFixed it.\n\n(link:https://bz.example.com/123[123], 456, link:u[789]) | No docs contact | RDT+ | link:https://bz.example.com/123[]"
    );
}

#[test]
fn release_note_public() {
    let t = ticket("123", false, Some("Bug Fix"), "Fixed it.");
    assert_eq!(t.release_note(DocumentVariant::Public), "[id=\"BZ-123\"]\nFixed it.\n\n(123) ");
}

#[test]
fn release_note_idempotent() {
    let t = ticket("5", true, None, "Some text\nmore");
    assert_eq!(t.release_note(DocumentVariant::Internal), t.release_note(DocumentVariant::Internal));
    assert_eq!(t.release_note(DocumentVariant::Public), t.release_note(DocumentVariant::Public));
}

#[test]
fn release_note_placeholder_for_comments() {
    let mut t = ticket("77", true, None, "\n   \n// a comment\n\t\n//another\n");
    t.docs_contact = s("me@example.com");
    let expected = "[id=\"BZ-77\"]\n.\u{1f6a7} Summary | me@example.com | RDT+ | link:https://bz.example.com/77[] \n\n**No release note.**";
    assert_eq!(t.release_note(DocumentVariant::Internal), expected);
    assert_eq!(t.release_note(DocumentVariant::Public), expected);
    let empty = ticket("78", true, None, "");
    assert!(empty.release_note(DocumentVariant::Public).ends_with("**No release note.**"));
}

#[test]
fn release_note_strips_carriage_returns() {
    let t = ticket("8", false, None, "Line one\r\nLine two\r\n");
    let note = t.release_note(DocumentVariant::Internal);
    assert!(!note.contains('\r'));
    assert!(note.contains("Line one\nLine two\n"));
}

#[test]
fn release_note_variants_differ_by_debug_line() {
    let t = ticket("9", true, None, "Text");
    let internal = t.release_note(DocumentVariant::Internal);
    let public = t.release_note(DocumentVariant::Public);
    assert_eq!(internal, format!("{}| No docs contact | RDT+ | link:https://bz.example.com/9[]", public));
}

#[test]
fn content_lines_filters_blank_and_comments() {
    assert_eq!(content_lines("a\n\n// c\n  b  \r\n"), vec!["a", "  b  "]);
    assert_eq!(content_lines(""), Vec::<&str>::new());
    assert_eq!(content_lines("   \n\t"), Vec::<&str>::new());
    assert_eq!(content_lines("x/ y\n/ z"), vec!["x/ y", "/ z"]);
    assert_eq!(content_lines("last"), vec!["last"]);
}

#[test]
fn doc_type_filter_matches_only_that_type() {
    let tickets = vec![
        ticket("1", false, Some("Bug Fix"), "one"),
        ticket("2", false, Some("Feature"), "two"),
    ];
    let template = Template {
        chapters: vec![Section { title: s("Fixes"), filter: doc_type_filter("Bug Fix"), sections: None }],
        sections: None,
    };
    assert!(can_format(&tickets, &template));
    let doc = format_document(&tickets, &template, DocumentVariant::Public);
    assert_eq!(doc, "= Fixes\n\n[id=\"BZ-1\"]\none\n\n(1) ");
}

#[test]
fn empty_filter_matches_every_ticket() {
    let tickets = vec![ticket("1", false, None, "one"), ticket("2", false, Some("Feature"), "two")];
    let template = Template {
        chapters: vec![Section { title: s("All"), filter: no_filter(), sections: None }],
        sections: None,
    };
    let doc = format_document(&tickets, &template, DocumentVariant::Public);
    assert_eq!(doc, "= All\n\n[id=\"BZ-1\"]\none\n\n(1) \n\n[id=\"BZ-2\"]\ntwo\n\n(2) ");
}

#[test]
fn two_chapters_render_each_ticket_once() {
    let tickets = vec![ticket("1", false, Some("Feature"), "new"), ticket("2", false, Some("Bug Fix"), "fix")];
    let template = Template {
        chapters: vec![
            Section { title: s("Features"), filter: doc_type_filter("Feature"), sections: None },
            Section { title: s("Fixes"), filter: doc_type_filter("Bug Fix"), sections: None },
        ],
        sections: None,
    };
    let doc = format_document(&tickets, &template, DocumentVariant::Public);
    assert_eq!(
        doc,
        "= Features\n\n[id=\"BZ-1\"]\nnew\n\n(1) \n\n= Fixes\n\n[id=\"BZ-2\"]\nfix\n\n(2) "
    );
    assert_eq!(doc.matches("[id=\"BZ-1\"]").count(), 1);
    assert_eq!(doc.matches("[id=\"BZ-2\"]").count(), 1);
}

#[test]
fn chapter_without_matches_has_heading_only() {
    let tickets = vec![ticket("1", false, Some("Feature"), "new")];
    let template = Template {
        chapters: vec![Section { title: s("Fixes"), filter: doc_type_filter("Bug Fix"), sections: None }],
        sections: None,
    };
    assert_eq!(format_document(&tickets, &template, DocumentVariant::Internal), "= Fixes\n\n");
    let none = Template { chapters: vec![], sections: None };
    assert_eq!(format_document(&tickets, &none, DocumentVariant::Internal), "");
}

#[test]
fn can_format_rejects_missing_doc_type() {
    let tickets = vec![ticket("1", false, None, "x")];
    let template = Template {
        chapters: vec![Section { title: s("Fixes"), filter: doc_type_filter("Bug Fix"), sections: None }],
        sections: None,
    };
    assert!(!can_format(&tickets, &template));
    let mut no_subsystem = ticket("2", false, Some("Bug Fix"), "x");
    no_subsystem.subsystems = vec![];
    let by_subsystem = Template {
        chapters: vec![Section {
            title: s("Storage"),
            filter: Filter { doc_type: None, subsystem: Some(vec![s("Storage")]), component: None },
            sections: None,
        }],
        sections: None,
    };
    assert!(!can_format(&[no_subsystem], &by_subsystem));
    assert!(can_format(&[ticket("3", false, None, "x")], &by_subsystem));
}

fn query(key: &str, references: Vec<usize>) -> TicketQuery {
    TicketQuery { tracker: Tracker::Bugzilla, key: s(key), references }
}

#[test]
fn reference_queries_keep_duplicates() {
    let queries = vec![query("A", vec![2]), query("B", vec![2, 3])];
    let refs = ReferenceQueries::from(&queries);
    assert_eq!(refs.0, vec![2, 2, 3]);
}

#[test]
fn shared_reference_resolves_for_both_referrers() {
    let config = Config { bugzilla: fields(), jira: fields() };
    let a = query("A", vec![2]);
    let b = query("B", vec![2]);
    let refs = vec![(2usize, bug("R", true, Some("+"), good_bug_extra()))];
    let sigs = ReferenceSignatures::new(refs, vec![], &config).unwrap();
    let for_a = sigs.reattach_to(&a);
    let for_b = sigs.reattach_to(&b);
    assert_eq!(for_a, vec![s("link:https://bugzilla.example.com/show_bug.cgi?id=R[R]")]);
    assert_eq!(for_a, for_b);
}

#[test]
fn signatures_group_by_query() {
    let config = Config { bugzilla: fields(), jira: fields() };
    let bugs = vec![
        (5usize, bug("10", false, None, good_bug_extra())),
        (6usize, bug("11", false, None, good_bug_extra())),
        (5usize, bug("12", false, None, good_bug_extra())),
    ];
    let issues = vec![(6usize, issue("J-1", good_issue_extra()))];
    let sigs = ReferenceSignatures::new(bugs, issues, &config).unwrap();
    assert_eq!(sigs.reattach_to(&query("M", vec![5])), vec![s("10"), s("12")]);
    assert_eq!(
        sigs.reattach_to(&query("N", vec![6, 5])),
        vec![s("10"), s("12"), s("11"), s("link:https://jira.example.com/browse/J-1[J-1]")]
    );
    assert_eq!(sigs.reattach_to(&query("O", vec![9])), Vec::<String>::new());
}

#[test]
fn failing_reference_aborts_resolution() {
    let config = Config { bugzilla: fields(), jira: fields() };
    let bugs = vec![
        (1usize, bug("10", false, None, good_bug_extra())),
        (2usize, bug("11", false, None, obj(vec![]))),
    ];
    let result = ReferenceSignatures::new(bugs, vec![], &config);
    assert!(matches!(result, Err(ExtractError::MissingField(name)) if name == "pool"));
    let issues = vec![(1usize, issue("J-2", obj(vec![])))];
    let result = ReferenceSignatures::new(vec![], issues, &config);
    assert!(matches!(result, Err(ExtractError::MissingField(_))));
}

#[test]
fn missing_status_flag_is_reported() {
    let f = fields();
    assert!(bug("1", true, None, good_bug_extra()).lacks_status_flag(&f));
    assert!(!bug("1", true, Some("-"), good_bug_extra()).lacks_status_flag(&f));
}
