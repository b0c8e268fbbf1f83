use vstd::prelude::*;
use crate::matcher::texts_of;
use crate::resolve::EventKeyAliasConfig;
use crate::selection::{
    all_bound, children, node_errors, node_select, validated, AndSelectionNode, LeafSelectionNode,
    OrSelectionNode, SelectionNode,
};
use crate::value::{DocNode, JsonValue};

verus! {

/// The value stored under `key` among a mapping's entries; the first wins.
pub open spec fn hash_lookup(h: Seq<(String, DocNode)>, key: Seq<char>) -> Option<DocNode>
    decreases h.len(),
{
    if h.len() == 0 {
        None
    } else if h[0].0@ == key {
        Some(h[0].1)
    } else {
        hash_lookup(h.drop_first(), key)
    }
}

/// The value under `key` when `d` is a mapping that has it.
pub open spec fn doc_get(d: DocNode, key: Seq<char>) -> Option<DocNode> {
    match d {
        DocNode::Hash(h) => hash_lookup(h@, key),
        _ => None,
    }
}

/// The selection section of a rule document, when there is one.
pub open spec fn selection_of(d: DocNode) -> Option<DocNode> {
    match doc_get(d, "detection"@) {
        Some(det) => doc_get(det, "selection"@),
        None => None,
    }
}

/// `n` is the tree compiled from the document node `d` found under the key
/// path `keys`: a mapping becomes a conjunction with one child per entry,
/// whose key extends the path; a sequence becomes a disjunction with one
/// child per element, on the same path; anything else becomes an unbound
/// leaf carrying the path and the value.
pub open spec fn compiled_from(n: SelectionNode, keys: Seq<Seq<char>>, d: DocNode) -> bool
    decreases d,
{
    match d {
        DocNode::Hash(h) => n is And && children(n).len() == h.len() && forall|i: int|
            #![trigger h[i]]
            0 <= i < h.len() ==> compiled_from(children(n)[i], keys.push(h[i].0@), h[i].1),
        DocNode::Array(v) => n is Or && children(n).len() == v.len() && forall|i: int|
            #![trigger v[i]]
            0 <= i < v.len() ==> compiled_from(children(n)[i], keys, v[i]),
        _ => match n {
            SelectionNode::Leaf(l) => l.keys() == keys && l.select_value == d && l.matcher is None,
            _ => false,
        },
    }
}

proof fn lemma_hash_lookup_step(h: Seq<(String, DocNode)>, key: Seq<char>, i: int)
    requires
        0 <= i < h.len(),
    ensures
        hash_lookup(h.subrange(i, h.len() as int), key) == (if h[i].0@ == key {
            Some(h[i].1)
        } else {
            hash_lookup(h.subrange(i + 1, h.len() as int), key)
        }),
{
    assert(h.subrange(i, h.len() as int).drop_first() =~= h.subrange(i + 1, h.len() as int));
}

/// The value under `key` in a mapping node.
#[verifier::loop_isolation(false)]
pub fn doc_get_key<'a>(d: &'a DocNode, key: &String) -> (r: Option<&'a DocNode>)
    ensures
        doc_get(*d, key@) == match r {
            Some(v) => Some(*v),
            None => None::<DocNode>,
        },
{
    match d {
        DocNode::Hash(h) => {
            let n = h.len();
            let mut i: usize = 0;
            assert(h@.subrange(0, n as int) =~= h@);
            while i < n
                invariant
                    0 <= i <= n,
                    n == h.len(),
                    hash_lookup(h@, key@) == hash_lookup(h@.subrange(i as int, n as int), key@),
                decreases n - i,
            {
                proof {
                    lemma_hash_lookup_step(h@, key@, i as int);
                }
                if h[i].0 == *key {
                    return Some(&h[i].1);
                }
                i = i + 1;
            }
            None
        },
        _ => None,
    }
}

/// A copy of a scalar document node.
fn clone_scalar(d: &DocNode) -> (r: DocNode)
    requires
        !(d is Hash),
        !(d is Array),
    ensures
        r == *d,
{
    match d {
        DocNode::Null => DocNode::Null,
        DocNode::Boolean(b) => DocNode::Boolean(*b),
        DocNode::Integer(i) => DocNode::Integer(*i),
        DocNode::Real(t) => DocNode::Real(t.clone()),
        DocNode::Text(t) => DocNode::Text(t.clone()),
        DocNode::Alias(a) => DocNode::Alias(*a),
        DocNode::Array(_) => DocNode::Null,
        DocNode::Hash(_) => DocNode::Null,
    }
}

/// A copy of a key path.
fn clone_keys(v: &Vec<String>) -> (r: Vec<String>)
    ensures
        r@ == v@,
{
    let mut r: Vec<String> = Vec::new();
    let mut i: usize = 0;
    while i < v.len()
        invariant
            0 <= i <= v.len(),
            r@ == v@.subrange(0, i as int),
        decreases v.len() - i,
    {
        r.push(v[i].clone());
        assert(r@ =~= v@.subrange(0, i + 1));
        i = i + 1;
    }
    assert(v@.subrange(0, i as int) =~= v@);
    r
}

/// Compiles the document node `yaml`, found under the key path `key_list`,
/// into a selection tree.
#[verifier::loop_isolation(false)]
pub fn parse_selection_recursively(key_list: Vec<String>, yaml: &DocNode) -> (r: SelectionNode)
    ensures
        compiled_from(r, texts_of(key_list@), *yaml),
    decreases yaml,
{
    match yaml {
        DocNode::Hash(h) => {
            let mut and_node = AndSelectionNode::new();
            let mut i: usize = 0;
            while i < h.len()
                invariant
                    0 <= i <= h.len(),
                    and_node.child_nodes@.len() == i,
                    forall|j: int| #![trigger h[j]] 0 <= j < i ==> compiled_from(
                        and_node.child_nodes@[j],
                        texts_of(key_list@).push(h[j].0@),
                        h[j].1,
                    ),
                decreases h.len() - i,
            {
                let mut child_key_list = clone_keys(&key_list);
                child_key_list.push(h[i].0.clone());
                assert(texts_of(child_key_list@) =~= texts_of(key_list@).push(h[i as int].0@));
                proof {
                    assert(decreases_to!(h => h[i as int]));
                    assert(decreases_to!(*yaml => h[i as int].1));
                }
                let child_node = parse_selection_recursively(child_key_list, &h[i].1);
                and_node.child_nodes.push(child_node);
                i = i + 1;
            }
            let r = SelectionNode::And(and_node);
            assert(children(r) == and_node.child_nodes@);
            r
        },
        DocNode::Array(v) => {
            let mut or_node = OrSelectionNode::new();
            let mut i: usize = 0;
            while i < v.len()
                invariant
                    0 <= i <= v.len(),
                    or_node.child_nodes@.len() == i,
                    forall|j: int| #![trigger v[j]] 0 <= j < i ==> compiled_from(
                        or_node.child_nodes@[j],
                        texts_of(key_list@),
                        v[j],
                    ),
                decreases v.len() - i,
            {
                let child_key_list = clone_keys(&key_list);
                proof {
                    assert(decreases_to!(v => v[i as int]));
                    assert(decreases_to!(*yaml => v[i as int]));
                }
                let child_node = parse_selection_recursively(child_key_list, &v[i]);
                or_node.child_nodes.push(child_node);
                i = i + 1;
            }
            let r = SelectionNode::Or(or_node);
            assert(children(r) == or_node.child_nodes@);
            r
        },
        _ => SelectionNode::Leaf(LeafSelectionNode::new(key_list, clone_scalar(yaml))),
    }
}

} // verus!

verus! {

/// The detection section of a rule, compiled.
pub struct DetectionNode {
    pub selection: Option<SelectionNode>,
}

/// A compiled rule: the document it came from and its detection, if the
/// document has one.
pub struct RuleNode {
    pub yaml: DocNode,
    pub detection: Option<DetectionNode>,
}

/// The selection tree of a rule, if it has one.
pub open spec fn rule_selection(r: RuleNode) -> Option<SelectionNode> {
    match r.detection {
        Some(d) => d.selection,
        None => None,
    }
}

/// What a rule says of a record: its selection tree's verdict, false when
/// it has none.
pub open spec fn rule_select(r: RuleNode, aliases: Seq<(String, String)>, record: JsonValue) -> bool {
    match rule_selection(r) {
        Some(n) => node_select(n, aliases, record),
        None => false,
    }
}

/// The validation errors of a rule, in the order of its leaves.
pub open spec fn rule_errors(r: RuleNode) -> Seq<Seq<char>> {
    match rule_selection(r) {
        Some(n) => node_errors(n),
        None => Seq::empty(),
    }
}

/// `r` is the rule compiled from `d`: it has a detection exactly when `d`
/// has a `detection` key, and a selection tree, compiled from the root key
/// path, exactly when that has a `selection` key.
pub open spec fn rule_compiled_from(r: RuleNode, d: DocNode) -> bool {
    &&& r.yaml == d
    &&& (r.detection is Some <==> doc_get(d, "detection"@) is Some)
    &&& match selection_of(d) {
        Some(s) => rule_selection(r) matches Some(n) && compiled_from(n, Seq::empty(), s),
        None => rule_selection(r) is None,
    }
}

/// Compiles the selection section of a rule document, if there is one.
pub fn parse_selection(yaml: &DocNode) -> (r: Option<SelectionNode>)
    ensures
        match selection_of(*yaml) {
            Some(s) => r matches Some(n) && compiled_from(n, Seq::empty(), s),
            None => r is None,
        },
{
    let detection_key = String::from_str("detection");
    let selection_key = String::from_str("selection");
    proof {
        reveal_strlit("detection");
        reveal_strlit("selection");
    }
    let detection = match doc_get_key(yaml, &detection_key) {
        Some(d) => d,
        None => {
            return None;
        },
    };
    let selection_yaml = match doc_get_key(detection, &selection_key) {
        Some(s) => s,
        None => {
            return None;
        },
    };
    let key_list: Vec<String> = Vec::new();
    assert(texts_of(key_list@) =~= Seq::empty());
    Some(parse_selection_recursively(key_list, selection_yaml))
}

/// Compiles the detection section of a rule document, if there is one.
pub fn parse_detection(yaml: &DocNode) -> (r: Option<DetectionNode>)
    ensures
        r is Some <==> doc_get(*yaml, "detection"@) is Some,
        match selection_of(*yaml) {
            Some(s) => r matches Some(d) && d.selection matches Some(n) && compiled_from(n, Seq::empty(), s),
            None => r matches Some(d) ==> d.selection is None,
        },
{
    let detection_key = String::from_str("detection");
    proof {
        reveal_strlit("detection");
    }
    match doc_get_key(yaml, &detection_key) {
        None => None,
        Some(_) => Some(DetectionNode { selection: parse_selection(yaml) }),
    }
}

/// Compiles a rule document. Compilation never fails: a document without a
/// detection or selection section gives a rule that matches nothing.
pub fn parse_rule(yaml: DocNode) -> (r: RuleNode)
    ensures
        rule_compiled_from(r, yaml),
{
    let detection = parse_detection(&yaml);
    RuleNode { yaml, detection }
}

impl DetectionNode {
    pub fn init(&mut self) -> (r: Result<(), Vec<String>>)
        ensures
            final(self).selection is Some == old(self).selection is Some,
            final(self).selection matches Some(n) ==> validated(n, old(self).selection->Some_0),
            match old(self).selection {
                Some(n) => {
                    &&& (r is Ok == (node_errors(n).len() == 0))
                    &&& (r matches Err(e) ==> texts_of(e@) == node_errors(n))
                },
                None => r is Ok,
            },
            r is Ok ==> (final(self).selection matches Some(n) ==> all_bound(n)),
    {
        match &mut self.selection {
            None => Ok(()),
            Some(n) => n.init(),
        }
    }
}

impl RuleNode {
    /// Validates the rule: binds every leaf of its selection tree to a
    /// matcher and reports every error, in the order of the leaves. A rule
    /// without a selection tree is valid.
    pub fn init(&mut self) -> (r: Result<(), Vec<String>>)
        ensures
            final(self).yaml == old(self).yaml,
            final(self).detection is Some == old(self).detection is Some,
            rule_selection(*final(self)) is Some == rule_selection(*old(self)) is Some,
            rule_selection(*final(self)) matches Some(n) ==> validated(n, rule_selection(*old(self))->Some_0),
            r is Ok == (rule_errors(*old(self)).len() == 0),
            r matches Err(e) ==> texts_of(e@) == rule_errors(*old(self)),
            r is Ok ==> (rule_selection(*final(self)) matches Some(n) ==> all_bound(n)),
    {
        match &mut self.detection {
            None => Ok(()),
            Some(d) => d.init(),
        }
    }

    /// Whether the rule fires on a record.
    pub fn select(&self, aliases: &EventKeyAliasConfig, event_record: &JsonValue) -> (r: bool)
        ensures
            r == rule_select(*self, aliases.entries@, *event_record),
    {
        match &self.detection {
            None => false,
            Some(d) => match &d.selection {
                None => false,
                Some(n) => n.select(aliases, event_record),
            },
        }
    }
}

} // verus!

verus! {

/// A rule compiled from a document without a selection section matches no
/// record and validates without error; it has a detection exactly when the
/// document has a `detection` key.
pub proof fn lemma_rule_without_selection(r: RuleNode, d: DocNode, aliases: Seq<(String, String)>, record: JsonValue)
    requires
        rule_compiled_from(r, d),
        selection_of(d) is None,
    ensures
        r.detection is Some <==> doc_get(d, "detection"@) is Some,
        !rule_select(r, aliases, record),
        rule_errors(r).len() == 0,
{
}

} // verus!
