use jmap_client::display::{format_date, parse_addresses, role_sort_order};
use jmap_client::mail::{EmailAddress, Mailbox};
use jmap_client::router::{mailbox_id_to_slug, slug_to_mailbox_id};
use jmap_client::tree::flatten_tree;
use jmap_client::value::Value;

fn mailbox(id: &str, role: Option<&str>) -> Mailbox {
    let mut e = vec![("id".to_string(), Value::Str(id.to_string())), ("name".to_string(), Value::Str(id.to_string()))];
    if let Some(r) = role {
        e.push(("role".to_string(), Value::Str(r.to_string())));
    }
    Mailbox::from_value(&Value::Object(e)).unwrap()
}

fn boxes() -> Vec<Mailbox> {
    vec![
        mailbox("mb-in", Some("inbox")),
        mailbox("mb-imp", Some("important")),
        mailbox("mb-plain", None),
        mailbox("mb-sent", Some("sent")),
    ]
}

#[test]
fn slug_uses_well_known_role_else_id() {
    let ms = boxes();
    assert_eq!(mailbox_id_to_slug(&ms, "mb-in"), "inbox");
    assert_eq!(mailbox_id_to_slug(&ms, "mb-sent"), "sent");
    assert_eq!(mailbox_id_to_slug(&ms, "mb-imp"), "mb-imp");
    assert_eq!(mailbox_id_to_slug(&ms, "mb-plain"), "mb-plain");
    assert_eq!(mailbox_id_to_slug(&ms, "unknown"), "unknown");
}

#[test]
fn slug_maps_back_to_id() {
    let ms = boxes();
    assert_eq!(slug_to_mailbox_id(&ms, "inbox"), Some("mb-in".to_string()));
    assert_eq!(slug_to_mailbox_id(&ms, "mb-plain"), Some("mb-plain".to_string()));
    assert_eq!(slug_to_mailbox_id(&ms, "important"), None);
    assert_eq!(slug_to_mailbox_id(&ms, "trash"), None);
    assert_eq!(slug_to_mailbox_id(&ms, "nothing"), None);
}

#[test]
fn parse_addresses_splits_trims_and_drops_empty() {
    let got = parse_addresses(" a@x.org , ,b@y.org,\t");
    assert_eq!(
        got,
        vec![
            EmailAddress { name: None, email: "a@x.org".to_string() },
            EmailAddress { name: None, email: "b@y.org".to_string() },
        ]
    );
    assert!(parse_addresses("").is_empty());
    assert_eq!(parse_addresses("solo@z.org").len(), 1);
}

#[test]
fn format_date_keeps_part_before_t() {
    assert_eq!(format_date("2024-01-15T10:30:00Z"), "2024-01-15");
    assert_eq!(format_date("yesterday"), "yesterday");
    assert_eq!(format_date(""), "");
}

#[test]
fn role_order_puts_inbox_first_and_no_role_last() {
    assert_eq!(role_sort_order(Some("inbox")), 0);
    assert_eq!(role_sort_order(Some("drafts")), 1);
    assert_eq!(role_sort_order(Some("sent")), 2);
    assert_eq!(role_sort_order(Some("junk")), 3);
    assert_eq!(role_sort_order(Some("trash")), 4);
    assert_eq!(role_sort_order(Some("archive")), 5);
    assert_eq!(role_sort_order(None), 6);
}

#[test]
fn address_display_string() {
    let named = EmailAddress { name: Some("Ann".to_string()), email: "ann@x.org".to_string() };
    assert_eq!(named.display_string(), "Ann <ann@x.org>");
    let empty = EmailAddress { name: Some(String::new()), email: "b@x.org".to_string() };
    assert_eq!(empty.display_string(), "b@x.org");
    let bare = EmailAddress { name: None, email: "c@x.org".to_string() };
    assert_eq!(bare.display_string(), "c@x.org");
}

fn boxed(id: &str, name: &str, parent: Option<&str>, role: Option<&str>, order: u64) -> Mailbox {
    let mut e = vec![
        ("id".to_string(), Value::Str(id.to_string())),
        ("name".to_string(), Value::Str(name.to_string())),
        ("sortOrder".to_string(), Value::UInt(order)),
    ];
    if let Some(p) = parent {
        e.push(("parentId".to_string(), Value::Str(p.to_string())));
    }
    if let Some(r) = role {
        e.push(("role".to_string(), Value::Str(r.to_string())));
    }
    Mailbox::from_value(&Value::Object(e)).unwrap()
}

#[test]
fn flatten_tree_orders_siblings_and_nests_children() {
    let ms = vec![
        boxed("p", "Projects", None, None, 0),
        boxed("t", "Trash", None, Some("trash"), 0),
        boxed("b", "Beta", Some("p"), None, 0),
        boxed("i", "Inbox", None, Some("inbox"), 9),
        boxed("a", "Alpha", Some("p"), None, 0),
        boxed("z", "Zed", Some("p"), None, 1),
        boxed("x", "Deep", Some("a"), None, 0),
        boxed("s", "Sent", None, Some("sent"), 0),
    ];
    let flat: Vec<(&str, u32)> =
        flatten_tree(&ms, None, 0).into_iter().map(|(i, d)| (ms[i].id.as_str(), d)).collect();
    assert_eq!(
        flat,
        vec![("i", 0), ("s", 0), ("t", 0), ("p", 0), ("a", 1), ("x", 2), ("b", 1), ("z", 1)]
    );
    let under: Vec<usize> = flatten_tree(&ms, Some("a"), 5).into_iter().map(|(i, _)| i).collect();
    assert_eq!(under, vec![6]);
}

#[test]
fn flatten_tree_stops_on_cycles() {
    let ms = vec![boxed("a", "A", Some("b"), None, 0), boxed("b", "B", Some("a"), None, 0)];
    assert!(flatten_tree(&ms, None, 0).is_empty());
    let from_a = flatten_tree(&ms, Some("a"), 0);
    assert_eq!(from_a, vec![(1, 0), (0, 1)]);
}
