use pbuild::document::{decode, find_entry, strings_of, Node};

fn keys(node: &Node) -> Vec<String> {
    node.as_table()
        .unwrap()
        .iter()
        .map(|(key, _)| key.clone())
        .collect()
}

#[test]
fn decode_keeps_the_order_of_the_document() {
    let doc = decode("zeta = 1\nalpha = 2\n[mid]\nx = true\n[aaa]\n").unwrap();
    assert_eq!(keys(&doc), vec!["zeta", "alpha", "mid", "aaa"]);
}

#[test]
fn decode_scalars() {
    let doc = decode(
        "s = \"text\"\ni = -7\nb = false\nf = 1.5\nd = 1979-05-27T07:32:00Z\na = [1, \"x\"]\n",
    )
    .unwrap();
    assert_eq!(doc.get("s").unwrap().as_str(), Some("text"));
    assert_eq!(doc.get("i").unwrap().as_integer(), Some(-7));
    assert_eq!(doc.get("b").unwrap().as_bool(), Some(false));
    assert!(matches!(doc.get("f"), Some(Node::Float)));
    assert!(matches!(doc.get("d"), Some(Node::Datetime)));
    let items = doc.get("a").unwrap().as_array().unwrap();
    assert_eq!(items.len(), 2);
    assert_eq!(items[0].as_integer(), Some(1));
    assert_eq!(items[1].as_str(), Some("x"));
    assert!(doc.get("missing").is_none());
}

#[test]
fn decode_nested_tables() {
    let doc = decode("[a.b]\nc = { d = 1 }\n").unwrap();
    let d = doc
        .get("a")
        .and_then(|a| a.get("b"))
        .and_then(|b| b.get("c"))
        .and_then(|c| c.get("d"))
        .and_then(|d| d.as_integer());
    assert_eq!(d, Some(1));
}

#[test]
fn decode_rejects_malformed_text() {
    assert!(decode("a = ").is_err());
    assert!(decode("[a\n").is_err());
    assert!(decode("a = 1\na = 2\n").is_err());
}

#[test]
fn decode_empty_text_is_an_empty_table() {
    let doc = decode("").unwrap();
    assert_eq!(doc.as_table().map(|t| t.len()), Some(0));
}

#[test]
fn accessors_answer_only_for_their_kind() {
    let text = Node::String("x".to_string());
    assert_eq!(text.as_str(), Some("x"));
    assert_eq!(text.as_integer(), None);
    assert_eq!(text.as_bool(), None);
    assert!(text.as_array().is_none());
    assert!(text.as_table().is_none());
    assert!(text.get("x").is_none());
    assert_eq!(Node::Integer(3).as_integer(), Some(3));
    assert_eq!(Node::Integer(3).as_str(), None);
    assert_eq!(Node::Boolean(true).as_bool(), Some(true));
    assert_eq!(Node::Float.as_integer(), None);
}

#[test]
fn find_entry_takes_the_first_of_a_name() {
    let entries = vec![
        ("a".to_string(), Node::Integer(1)),
        ("b".to_string(), Node::Integer(2)),
        ("a".to_string(), Node::Integer(3)),
    ];
    assert_eq!(find_entry(&entries, "a").and_then(|n| n.as_integer()), Some(1));
    assert_eq!(find_entry(&entries, "b").and_then(|n| n.as_integer()), Some(2));
    assert!(find_entry(&entries, "c").is_none());
}

#[test]
fn strings_of_needs_every_item_a_string() {
    let all = vec![Node::String("a".to_string()), Node::String("b".to_string())];
    assert_eq!(strings_of(&all), Some(vec!["a", "b"]));
    let mixed = vec![Node::String("a".to_string()), Node::Integer(1)];
    assert_eq!(strings_of(&mixed), None);
    assert_eq!(strings_of(&vec![]), Some(vec![]));
}

#[test]
fn copy_of_a_document() {
    let doc = decode("a = [1, { b = \"x\" }]\n[c]\nd = true\n").unwrap();
    let copy = doc.clone();
    assert_eq!(keys(&copy), vec!["a", "c"]);
    let items = copy.get("a").unwrap().as_array().unwrap();
    assert_eq!(items[0].as_integer(), Some(1));
    assert_eq!(items[1].get("b").unwrap().as_str(), Some("x"));
    assert_eq!(copy.get("c").unwrap().get("d").unwrap().as_bool(), Some(true));
}
