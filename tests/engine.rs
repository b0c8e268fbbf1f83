use rule_engine::detection::Detection;
use rule_engine::pattern::contains_text;
use rule_engine::resolve::{get_event_value, EventKeyAliasConfig};
use rule_engine::rule::{parse_rule, RuleNode};
use rule_engine::matcher::{concat_selection_key, RegexMatcher};
use rule_engine::selection::{AndSelectionNode, LeafSelectionNode, OrSelectionNode, SelectionNode};
use rule_engine::value::{DocNode, JsonValue};

fn s(t: &str) -> String {
    t.to_string()
}

fn obj(fields: Vec<(&str, JsonValue)>) -> JsonValue {
    JsonValue::Object(fields.into_iter().map(|(k, v)| (s(k), v)).collect())
}

fn hash(entries: Vec<(&str, DocNode)>) -> DocNode {
    DocNode::Hash(entries.into_iter().map(|(k, v)| (s(k), v)).collect())
}

fn no_aliases() -> EventKeyAliasConfig {
    EventKeyAliasConfig::new(vec![])
}

fn rule_with_selection(selection: DocNode) -> RuleNode {
    parse_rule(hash(vec![("detection", hash(vec![("selection", selection)]))]))
}

fn validated_rule(selection: DocNode) -> RuleNode {
    let mut rule = rule_with_selection(selection);
    assert!(rule.init().is_ok());
    rule
}

fn field_matches(pattern: DocNode, value: Option<JsonValue>) -> bool {
    let rule = validated_rule(hash(vec![("F", pattern)]));
    let record = match value {
        Some(v) => obj(vec![("F", v)]),
        None => obj(vec![]),
    };
    rule.select(&no_aliases(), &record)
}

#[test]
fn empty_and_node_is_true() {
    let node = SelectionNode::And(AndSelectionNode::new());
    assert!(node.select(&no_aliases(), &JsonValue::Null));
    assert!(node.select(&no_aliases(), &obj(vec![("A", JsonValue::UInt(1))])));
}

#[test]
fn empty_or_node_is_false() {
    let node = SelectionNode::Or(OrSelectionNode::new());
    assert!(!node.select(&no_aliases(), &JsonValue::Null));
    assert!(!node.select(&no_aliases(), &obj(vec![("A", JsonValue::UInt(1))])));
}

#[test]
fn unbound_leaf_is_false() {
    let leaf = LeafSelectionNode::new(vec![s("A")], DocNode::Null);
    let node = SelectionNode::Leaf(leaf);
    assert!(!node.select(&no_aliases(), &obj(vec![])));
    assert!(!node.select(&no_aliases(), &obj(vec![("A", JsonValue::Null)])));
}

#[test]
fn failed_leaf_stays_unbound() {
    let mut rule = rule_with_selection(hash(vec![("A", DocNode::Text(s("(")))]));
    assert!(rule.init().is_err());
    assert!(!rule.select(&no_aliases(), &obj(vec![("A", JsonValue::Str(s("(")))])));
    assert!(!rule.select(&no_aliases(), &obj(vec![])));
}

#[test]
fn null_selector_matches_empty_values_only() {
    assert!(field_matches(DocNode::Null, None));
    assert!(field_matches(DocNode::Null, Some(JsonValue::Null)));
    assert!(field_matches(DocNode::Null, Some(JsonValue::Str(s("")))));
    assert!(!field_matches(DocNode::Null, Some(JsonValue::Str(s("x")))));
    assert!(!field_matches(DocNode::Null, Some(JsonValue::UInt(0))));
    assert!(!field_matches(DocNode::Null, Some(JsonValue::Bool(false))));
    assert!(!field_matches(DocNode::Null, Some(JsonValue::Array(vec![]))));
    assert!(!field_matches(DocNode::Null, Some(obj(vec![]))));
}

#[test]
fn pattern_must_match_whole_value() {
    let abc = || DocNode::Text(s("abc"));
    assert!(field_matches(abc(), Some(JsonValue::Str(s("abc")))));
    assert!(!field_matches(abc(), Some(JsonValue::Str(s("xabcx")))));
    assert!(!field_matches(abc(), Some(JsonValue::Str(s("abcd")))));
    assert!(!field_matches(abc(), None));
    assert!(!field_matches(abc(), Some(JsonValue::Null)));
}

#[test]
fn full_match_through_compiled_pattern() {
    let mut m = RegexMatcher::new();
    assert!(m.init(&vec![s("F")], &DocNode::Text(s("a.c"))).is_ok());
    let p = m.re.as_ref().unwrap();
    assert!(p.is_full_match(&s("abc")));
    assert!(!p.is_full_match(&s("xabc")));
    assert!(m.is_match(Some(&JsonValue::Str(s("axc")))));
    assert!(m.init(&vec![s("F")], &DocNode::Text(s("b"))).is_ok());
    let q = m.re.as_ref().unwrap();
    assert!(!q.is_full_match(&s("abc")));
    assert!(q.is_full_match(&s("b")));
    assert!(m.init(&vec![s("F")], &DocNode::Text(s("a("))).is_err());
    assert!(m.re.is_none());
}

#[test]
fn contains_text_compares_whole_texts() {
    let texts = vec![s("ab"), s("abc")];
    assert!(contains_text(&texts, &s("abc")));
    assert!(!contains_text(&texts, &s("a")));
    assert!(!contains_text(&vec![], &s("")));
}

#[test]
fn composite_values_never_match() {
    let any = || DocNode::Text(s(".*"));
    assert!(field_matches(any(), Some(JsonValue::Str(s("")))));
    assert!(!field_matches(any(), Some(JsonValue::Array(vec![JsonValue::UInt(1)]))));
    assert!(!field_matches(any(), Some(obj(vec![("x", JsonValue::UInt(1))]))));
}

#[test]
fn scalar_types_are_stringified() {
    assert!(field_matches(DocNode::Boolean(true), Some(JsonValue::Bool(true))));
    assert!(field_matches(DocNode::Text(s("true")), Some(JsonValue::Bool(true))));
    assert!(!field_matches(DocNode::Text(s("true")), Some(JsonValue::Bool(false))));
    assert!(field_matches(DocNode::Integer(42), Some(JsonValue::UInt(42))));
    assert!(field_matches(DocNode::Text(s("42")), Some(JsonValue::UInt(42))));
    assert!(!field_matches(DocNode::Text(s("42")), Some(JsonValue::UInt(420))));
    assert!(field_matches(DocNode::Integer(-5), Some(JsonValue::Int(-5))));
    assert!(field_matches(DocNode::Real(s("1.5")), Some(JsonValue::Float(s("1.5")))));
    assert!(field_matches(DocNode::Text(s("Hello World")), Some(JsonValue::Str(s("Hello World")))));
    assert!(!field_matches(DocNode::Text(s("hello world")), Some(JsonValue::Str(s("Hello World")))));
}

#[test]
fn alias_takes_precedence() {
    let aliases = EventKeyAliasConfig::new(vec![(s("X"), s("a.b.c"))]);
    let record = obj(vec![(
        "a",
        obj(vec![("b", obj(vec![("c", JsonValue::UInt(7))]))]),
    )]);
    match get_event_value(&aliases, &s("X"), &record) {
        Some(JsonValue::UInt(7)) => {},
        _ => panic!("alias X should resolve to 7"),
    }
    let record2 = obj(vec![("Y", JsonValue::Str(s("y")))]);
    match get_event_value(&aliases, &s("Y"), &record2) {
        Some(JsonValue::Str(v)) => assert_eq!(v, "y"),
        _ => panic!("Y should resolve to itself"),
    }
    let dotted = obj(vec![("p", obj(vec![("q", JsonValue::Bool(true))]))]);
    assert!(matches!(get_event_value(&aliases, &s("p.q"), &dotted), Some(JsonValue::Bool(true))));
}

#[test]
fn resolution_misses_are_absent() {
    let aliases = no_aliases();
    let record = obj(vec![("a", JsonValue::UInt(1))]);
    assert!(get_event_value(&aliases, &s(""), &record).is_none());
    assert!(get_event_value(&aliases, &s("b"), &record).is_none());
    assert!(get_event_value(&aliases, &s("a.b"), &record).is_none());
    assert!(get_event_value(&aliases, &s("a"), &JsonValue::UInt(3)).is_none());
}

#[test]
fn alias_used_by_rule() {
    let aliases = EventKeyAliasConfig::new(vec![(s("EventID"), s("Event.System.EventID"))]);
    let rule = validated_rule(hash(vec![("EventID", DocNode::Integer(4624))]));
    let record = obj(vec![(
        "Event",
        obj(vec![("System", obj(vec![("EventID", JsonValue::UInt(4624))]))]),
    )]);
    assert!(rule.select(&aliases, &record));
    assert!(!rule.select(&no_aliases(), &record));
}

#[test]
fn validation_reports_every_error() {
    let mut rule = rule_with_selection(hash(vec![
        ("A", DocNode::Integer(1)),
        ("B", hash(vec![("contains", DocNode::Text(s("x")))])),
        ("C", hash(vec![("startswith", DocNode::Text(s("y")))])),
    ]));
    let errs = rule.init().unwrap_err();
    assert_eq!(errs.len(), 2);
    assert_eq!(errs[0], "Found unknown key. key:detection -> selection -> B -> contains");
    assert_eq!(errs[1], "Found unknown key. key:detection -> selection -> C -> startswith");
}

#[test]
fn regex_error_names_pattern_and_path() {
    let mut rule = rule_with_selection(hash(vec![
        ("A", DocNode::Text(s("("))),
        ("B", DocNode::Alias(0)),
    ]));
    let errs = rule.init().unwrap_err();
    assert_eq!(errs.len(), 2);
    assert_eq!(errs[0], "cannot parse regex. [regex:(, key:detection -> selection -> A]");
    assert_eq!(errs[1], "unknown error occurred. [key:detection -> selection -> B]");
}

#[test]
fn regex_matcher_binding() {
    let mut m = RegexMatcher::new();
    assert!(m.init(&vec![s("A")], &DocNode::Integer(12)).is_ok());
    assert!(m.is_match(Some(&JsonValue::UInt(12))));
    assert!(!m.is_match(Some(&JsonValue::UInt(123))));
    assert!(m.init(&vec![s("A")], &DocNode::Null).is_ok());
    assert!(m.is_match(None));
    assert!(m.is_target_key(&vec![]));
    assert!(!m.is_target_key(&vec![s("contains")]));
}

#[test]
fn selection_key_rendering() {
    assert_eq!(concat_selection_key(&vec![]), "detection -> selection");
    assert_eq!(
        concat_selection_key(&vec![s("a"), s("b")]),
        "detection -> selection -> a -> b"
    );
}

#[test]
fn logon_scenario() {
    let rule = validated_rule(hash(vec![
        ("EventID", DocNode::Integer(4624)),
        ("LogonType", DocNode::Array(vec![DocNode::Integer(2), DocNode::Integer(10)])),
    ]));
    let sel = rule.detection.as_ref().unwrap().selection.as_ref().unwrap();
    match sel {
        SelectionNode::And(a) => {
            assert_eq!(a.child_nodes.len(), 2);
            match &a.child_nodes[0] {
                SelectionNode::Leaf(l) => assert_eq!(l.key_list, vec![s("EventID")]),
                _ => panic!("first child should be a leaf"),
            }
            match &a.child_nodes[1] {
                SelectionNode::Or(o) => {
                    assert_eq!(o.child_nodes.len(), 2);
                    for c in o.child_nodes.iter() {
                        match c {
                            SelectionNode::Leaf(l) => assert_eq!(l.key_list, vec![s("LogonType")]),
                            _ => panic!("alternatives should be leaves"),
                        }
                    }
                },
                _ => panic!("second child should be a disjunction"),
            }
        },
        _ => panic!("root should be a conjunction"),
    }
    let rec = |id: u64, lt: u64| obj(vec![("EventID", JsonValue::UInt(id)), ("LogonType", JsonValue::UInt(lt))]);
    let aliases = no_aliases();
    assert!(rule.select(&aliases, &rec(4624, 10)));
    assert!(!rule.select(&aliases, &rec(4624, 3)));
    assert!(!rule.select(&aliases, &rec(4625, 2)));
}

#[test]
fn detection_without_selection() {
    let mut rule = parse_rule(hash(vec![("detection", hash(vec![("other", DocNode::Integer(1))]))]));
    assert!(rule.detection.is_some());
    assert!(rule.detection.as_ref().unwrap().selection.is_none());
    assert!(rule.init().is_ok());
    assert!(!rule.select(&no_aliases(), &obj(vec![])));
    assert!(!rule.select(&no_aliases(), &obj(vec![("other", JsonValue::UInt(1))])));
}

#[test]
fn document_without_detection() {
    let mut rule = parse_rule(hash(vec![("title", DocNode::Text(s("t")))]));
    assert!(rule.detection.is_none());
    assert!(rule.init().is_ok());
    assert!(!rule.select(&no_aliases(), &obj(vec![])));
    let mut scalar_doc = parse_rule(DocNode::Integer(3));
    assert!(scalar_doc.detection.is_none());
    assert!(scalar_doc.init().is_ok());
}

#[test]
fn matches_are_listed_per_rule() {
    let r1 = validated_rule(hash(vec![("A", DocNode::Integer(1))]));
    let r2 = validated_rule(hash(vec![("B", DocNode::Null)]));
    let records = vec![
        obj(vec![("A", JsonValue::UInt(1))]),
        obj(vec![("A", JsonValue::UInt(2)), ("B", JsonValue::Str(s("x")))]),
        obj(vec![("A", JsonValue::UInt(1)), ("B", JsonValue::Str(s("")))]),
    ];
    let d = Detection::new();
    let hits = d.select_matches(&vec![r1, r2], &records, &no_aliases());
    assert_eq!(hits, vec![(0, 0), (0, 2), (1, 0), (1, 2)]);
}

#[test]
fn validation_can_be_repeated() {
    let mut rule = rule_with_selection(hash(vec![
        ("A", DocNode::Text(s("a+"))),
        ("B", hash(vec![("contains", DocNode::Text(s("x")))])),
    ]));
    let first = rule.init().unwrap_err();
    let second = rule.init().unwrap_err();
    assert_eq!(first, second);
    let mut ok_rule = rule_with_selection(hash(vec![("A", DocNode::Text(s("a+")))]));
    assert!(ok_rule.init().is_ok());
    assert!(ok_rule.init().is_ok());
    let record = obj(vec![("A", JsonValue::Str(s("aaa")))]);
    assert!(ok_rule.select(&no_aliases(), &record));
}
