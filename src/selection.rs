use vstd::prelude::*;
use crate::matcher::{
    concat_selection_key, opt_value, regex_accepts, regex_binding, selection_key_text, texts_of, value_is_empty,
    LeafMatcher, RegexMatcher,
};
use crate::pattern::regex_match_texts;
use crate::resolve::{EventKeyAliasConfig, get_event_value, resolve_field};
use crate::value::{DocNode, JsonValue, doc_text, json_text};

verus! {

/// A conjunction of its children.
pub struct AndSelectionNode {
    pub child_nodes: Vec<SelectionNode>,
}

/// A disjunction of its children.
pub struct OrSelectionNode {
    pub child_nodes: Vec<SelectionNode>,
}

/// A leaf: compares one field of the record with the configured value,
/// through the matcher that validation bound to it.
pub struct LeafSelectionNode {
    pub key_list: Vec<String>,
    pub select_value: DocNode,
    pub matcher: Option<LeafMatcher>,
}

/// A node of a compiled selection tree.
pub enum SelectionNode {
    And(AndSelectionNode),
    Or(OrSelectionNode),
    Leaf(LeafSelectionNode),
}

impl AndSelectionNode {
    pub fn new() -> (r: AndSelectionNode)
        ensures
            r.child_nodes@.len() == 0,
    {
        AndSelectionNode { child_nodes: Vec::new() }
    }
}

impl OrSelectionNode {
    pub fn new() -> (r: OrSelectionNode)
        ensures
            r.child_nodes@.len() == 0,
    {
        OrSelectionNode { child_nodes: Vec::new() }
    }
}

/// The logical field name of a key path: its first key.
pub open spec fn field_name(keys: Seq<Seq<char>>) -> Seq<char> {
    if keys.len() > 0 {
        keys[0]
    } else {
        Seq::empty()
    }
}

/// The modifiers of a key path: every key after the field name.
pub open spec fn modifiers(keys: Seq<Seq<char>>) -> Seq<Seq<char>> {
    if keys.len() > 0 {
        keys.drop_first()
    } else {
        Seq::empty()
    }
}

/// The outcome of validating a leaf: the pattern its matcher holds, or the
/// message of the error. Only the regular-expression matcher exists, and it
/// takes the leaves without modifiers.
pub open spec fn leaf_outcome(keys: Seq<Seq<char>>, v: DocNode) -> Result<Option<Seq<char>>, Seq<char>> {
    if modifiers(keys).len() != 0 {
        Err("Found unknown key. key:"@ + selection_key_text(keys))
    } else {
        regex_binding(keys, v)
    }
}

/// The pattern that a leaf's bound matcher holds; `None` when unbound.
pub open spec fn binding(m: Option<LeafMatcher>) -> Option<Option<Seq<char>>> {
    match m {
        Some(x) => Some(x.pattern()),
        None => None,
    }
}

impl LeafSelectionNode {
    pub open spec fn keys(&self) -> Seq<Seq<char>> {
        texts_of(self.key_list@)
    }

    pub fn new(key_list: Vec<String>, value_yaml: DocNode) -> (r: LeafSelectionNode)
        ensures
            r.key_list@ == key_list@,
            r.select_value == value_yaml,
            r.matcher is None,
    {
        LeafSelectionNode { key_list, select_value: value_yaml, matcher: None }
    }

    /// Resolves this leaf's field in the record.
    pub fn get_event_value<'a>(&self, aliases: &EventKeyAliasConfig, event_value: &'a JsonValue) -> (r: Option<&'a JsonValue>)
        ensures
            opt_value(r) == resolve_field(aliases.entries@, field_name(self.keys()), *event_value),
    {
        if self.key_list.len() == 0 {
            return None;
        }
        get_event_value(aliases, &self.key_list[0], event_value)
    }

    /// The matchers that a leaf may be bound to, in order of preference.
    pub fn get_matchers(&self) -> (r: Vec<LeafMatcher>)
        ensures
            r@.len() == 1,
            r@[0] matches LeafMatcher::Regex(m) && m.pattern() is None,
    {
        vec![LeafMatcher::Regex(RegexMatcher::new())]
    }

    /// The modifiers of this leaf's key path.
    pub fn modifier_keys(&self) -> (r: Vec<String>)
        ensures
            texts_of(r@) == modifiers(self.keys()),
    {
        let mut r: Vec<String> = Vec::new();
        let mut i: usize = 1;
        while i < self.key_list.len()
            invariant
                1 <= i,
                i <= self.key_list.len() || self.key_list.len() == 0,
                self.key_list.len() > 0 ==> r@ == self.key_list@.subrange(1, i as int),
                self.key_list.len() == 0 ==> r@.len() == 0,
            decreases self.key_list.len() - i,
        {
            r.push(self.key_list[i].clone());
            assert(r@ =~= self.key_list@.subrange(1, i + 1));
            i = i + 1;
        }
        assert(texts_of(r@) =~= modifiers(self.keys()));
        r
    }

    /// The first matcher that takes this leaf's modifiers.
    pub fn get_matcher(&self) -> (r: Option<LeafMatcher>)
        ensures
            r is Some == (modifiers(self.keys()).len() == 0),
            r matches Some(m) ==> m.pattern() is None,
    {
        let mut matchers = self.get_matchers();
        let match_key_list = self.modifier_keys();
        while matchers.len() > 0
            invariant
                matchers@.len() <= 1,
                texts_of(match_key_list@) == modifiers(self.keys()),
                matchers@.len() == 0 ==> modifiers(self.keys()).len() != 0,
                matchers@.len() == 1 ==> (matchers@[0] matches LeafMatcher::Regex(m) && m.pattern() is None),
            decreases matchers.len(),
        {
            let m = matchers.remove(0);
            let claims = match &m {
                LeafMatcher::Regex(x) => x.is_target_key(&match_key_list),
            };
            if claims {
                return Some(m);
            }
        }
        None
    }

    pub fn select(&self, aliases: &EventKeyAliasConfig, event_record: &JsonValue) -> (r: bool)
        ensures
            r == leaf_select(*self, aliases.entries@, *event_record),
    {
        match &self.matcher {
            None => false,
            Some(m) => {
                let event_value = self.get_event_value(aliases, event_record);
                m.is_match(event_value)
            },
        }
    }

    /// Binds this leaf to its matcher; on an error the leaf stays unbound.
    pub fn init(&mut self) -> (r: Result<(), Vec<String>>)
        ensures
            final(self).key_list@ == old(self).key_list@,
            final(self).select_value == old(self).select_value,
            leaf_validated(*final(self), *old(self)),
            match leaf_outcome(old(self).keys(), old(self).select_value) {
                Ok(_) => r is Ok,
                Err(m) => r matches Err(e) && texts_of(e@) == seq![m],
            },
    {
        self.matcher = None;
        match self.get_matcher() {
            None => {
                let mut msg = String::from_str("Found unknown key. key:");
                let key = concat_selection_key(&self.key_list);
                msg.append(key.as_str());
                let errs = vec![msg];
                assert(texts_of(errs@) =~= seq![msg@]);
                Err(errs)
            },
            Some(LeafMatcher::Regex(mut m)) => {
                let res = m.init(&self.key_list, &self.select_value);
                match res {
                    Ok(()) => {
                        self.matcher = Some(LeafMatcher::Regex(m));
                        Ok(())
                    },
                    Err(e) => Err(e),
                }
            },
        }
    }
}

/// What a leaf says of a record: false while no matcher is bound, else the
/// matcher's verdict on the resolved field.
pub open spec fn leaf_select(l: LeafSelectionNode, aliases: Seq<(String, String)>, record: JsonValue) -> bool {
    match l.matcher {
        None => false,
        Some(m) => regex_accepts(m.pattern(), resolve_field(aliases, field_name(l.keys()), record)),
    }
}

/// `new` is the leaf `old` after validation: same key path and value, bound
/// to the matcher that validation gives, or unbound where it fails.
pub open spec fn leaf_validated(new: LeafSelectionNode, old: LeafSelectionNode) -> bool {
    &&& new.key_list@ == old.key_list@
    &&& new.select_value == old.select_value
    &&& binding(new.matcher) == match leaf_outcome(old.keys(), old.select_value) {
        Ok(p) => Some(p),
        Err(_) => None::<Option<Seq<char>>>,
    }
}

/// The children of a combinator node; none for a leaf.
pub open spec fn children(n: SelectionNode) -> Seq<SelectionNode> {
    match n {
        SelectionNode::And(a) => a.child_nodes@,
        SelectionNode::Or(o) => o.child_nodes@,
        SelectionNode::Leaf(_) => Seq::empty(),
    }
}

/// What a node says of a record: a conjunction holds when all its children
/// hold, a disjunction when one of them does, a leaf as its matcher says.
pub open spec fn node_select(n: SelectionNode, aliases: Seq<(String, String)>, record: JsonValue) -> bool
    decreases n, 1int, 0int,
{
    match n {
        SelectionNode::And(a) => prefix_select(n, a.child_nodes.len() as int, aliases, record),
        SelectionNode::Or(o) => prefix_select(n, o.child_nodes.len() as int, aliases, record),
        SelectionNode::Leaf(l) => leaf_select(l, aliases, record),
    }
}

/// For a conjunction, whether all of its first `k` children hold; for a
/// disjunction, whether one of them does.
pub open spec fn prefix_select(n: SelectionNode, k: int, aliases: Seq<(String, String)>, record: JsonValue) -> bool
    decreases n, 0int, k,
{
    if k <= 0 || k > children(n).len() {
        n is And
    } else {
        match n {
            SelectionNode::And(a) => prefix_select(n, k - 1, aliases, record) && node_select(
                a.child_nodes[k - 1],
                aliases,
                record,
            ),
            SelectionNode::Or(o) => prefix_select(n, k - 1, aliases, record) || node_select(
                o.child_nodes[k - 1],
                aliases,
                record,
            ),
            SelectionNode::Leaf(_) => false,
        }
    }
}

} // verus!

verus! {

/// The validation errors of a node, children in order, none dropped.
pub open spec fn node_errors(n: SelectionNode) -> Seq<Seq<char>>
    decreases n, 1int, 0int,
{
    match n {
        SelectionNode::Leaf(l) => match leaf_outcome(l.keys(), l.select_value) {
            Ok(_) => Seq::empty(),
            Err(m) => seq![m],
        },
        _ => prefix_errors(n, children(n).len() as int),
    }
}

/// The validation errors of the first `k` children of a node, in order.
pub open spec fn prefix_errors(n: SelectionNode, k: int) -> Seq<Seq<char>>
    decreases n, 0int, k,
{
    if k <= 0 || k > children(n).len() {
        Seq::empty()
    } else {
        match n {
            SelectionNode::And(a) => prefix_errors(n, k - 1) + node_errors(a.child_nodes[k - 1]),
            SelectionNode::Or(o) => prefix_errors(n, k - 1) + node_errors(o.child_nodes[k - 1]),
            SelectionNode::Leaf(_) => Seq::empty(),
        }
    }
}

/// `new` is the tree `old` after validation: the same shape, key paths and
/// values, with every leaf bound as its own validation decides.
pub open spec fn validated(new: SelectionNode, old: SelectionNode) -> bool
    decreases old, 1int, 0int,
{
    match old {
        SelectionNode::And(a) => new is And && children(new).len() == a.child_nodes.len()
            && prefix_validated(new, old, a.child_nodes.len() as int),
        SelectionNode::Or(o) => new is Or && children(new).len() == o.child_nodes.len()
            && prefix_validated(new, old, o.child_nodes.len() as int),
        SelectionNode::Leaf(l) => match new {
            SelectionNode::Leaf(m) => leaf_validated(m, l),
            _ => false,
        },
    }
}

/// The first `k` children of `new` are those of `old` after validation.
pub open spec fn prefix_validated(new: SelectionNode, old: SelectionNode, k: int) -> bool
    decreases old, 0int, k,
{
    if k <= 0 || k > children(old).len() {
        true
    } else {
        match old {
            SelectionNode::And(a) => prefix_validated(new, old, k - 1) && validated(
                children(new)[k - 1],
                a.child_nodes[k - 1],
            ),
            SelectionNode::Or(o) => prefix_validated(new, old, k - 1) && validated(
                children(new)[k - 1],
                o.child_nodes[k - 1],
            ),
            SelectionNode::Leaf(_) => true,
        }
    }
}

/// Every leaf of the tree has a matcher.
pub open spec fn all_bound(n: SelectionNode) -> bool
    decreases n, 1int, 0int,
{
    match n {
        SelectionNode::Leaf(l) => l.matcher is Some,
        _ => prefix_bound(n, children(n).len() as int),
    }
}

/// Every leaf under the first `k` children of `n` has a matcher.
pub open spec fn prefix_bound(n: SelectionNode, k: int) -> bool
    decreases n, 0int, k,
{
    if k <= 0 || k > children(n).len() {
        true
    } else {
        match n {
            SelectionNode::And(a) => prefix_bound(n, k - 1) && all_bound(a.child_nodes[k - 1]),
            SelectionNode::Or(o) => prefix_bound(n, k - 1) && all_bound(o.child_nodes[k - 1]),
            SelectionNode::Leaf(_) => true,
        }
    }
}

/// A child of a combinator node, by position.
proof fn lemma_child(n: SelectionNode, i: int)
    requires
        0 <= i < children(n).len(),
    ensures
        decreases_to!(n => children(n)[i]),
        n matches SelectionNode::And(a) ==> a.child_nodes[i] == children(n)[i],
        n matches SelectionNode::Or(o) ==> o.child_nodes[i] == children(n)[i],
{
    match n {
        SelectionNode::And(a) => {
            assert(decreases_to!(a.child_nodes => a.child_nodes[i]));
        },
        SelectionNode::Or(o) => {
            assert(decreases_to!(o.child_nodes => o.child_nodes[i]));
        },
        SelectionNode::Leaf(_) => {},
    }
}

proof fn lemma_prefix_validated_from_all(new: SelectionNode, old: SelectionNode, k: int)
    requires
        !(old is Leaf),
        0 <= k <= children(old).len(),
        children(new).len() == children(old).len(),
        forall|j: int| 0 <= j < k ==> #[trigger] validated(children(new)[j], children(old)[j]),
    ensures
        prefix_validated(new, old, k),
    decreases k,
{
    if k > 0 {
        lemma_child(old, k - 1);
        assert(validated(children(new)[k - 1], children(old)[k - 1]));
        lemma_prefix_validated_from_all(new, old, k - 1);
    }
}

/// A tree validated without error has a matcher on every leaf.
pub proof fn lemma_valid_tree_fully_bound(new: SelectionNode, old: SelectionNode)
    requires
        validated(new, old),
        node_errors(old).len() == 0,
    ensures
        all_bound(new),
    decreases old, 1int, 0int,
{
    match old {
        SelectionNode::Leaf(l) => {},
        _ => {
            lemma_prefix_fully_bound(new, old, children(old).len() as int);
        },
    }
}

proof fn lemma_prefix_fully_bound(new: SelectionNode, old: SelectionNode, k: int)
    requires
        !(old is Leaf),
        !(new is Leaf),
        0 <= k <= children(old).len(),
        children(new).len() == children(old).len(),
        prefix_validated(new, old, k),
        prefix_errors(old, k).len() == 0,
    ensures
        prefix_bound(new, k),
    decreases old, 0int, k,
{
    if k > 0 {
        lemma_child(old, k - 1);
        lemma_child(new, k - 1);
        let c = children(old)[k - 1];
        assert(prefix_errors(old, k) == prefix_errors(old, k - 1) + node_errors(c));
        lemma_prefix_fully_bound(new, old, k - 1);
        lemma_valid_tree_fully_bound(children(new)[k - 1], c);
    }
}

/// Once a conjunction's prefix fails, or a disjunction's prefix holds,
/// longer prefixes agree.
proof fn lemma_prefix_select_stays(n: SelectionNode, k: int, m: int, aliases: Seq<(String, String)>, record: JsonValue)
    requires
        !(n is Leaf),
        0 <= k <= m <= children(n).len(),
        prefix_select(n, k, aliases, record) != (n is And),
    ensures
        prefix_select(n, m, aliases, record) != (n is And),
    decreases m - k,
{
    if k < m {
        lemma_prefix_select_stays(n, k + 1, m, aliases, record);
    }
}

impl SelectionNode {
    /// Evaluates the node against a record: a conjunction needs every child
    /// (true when it has none), a disjunction needs one (false when it has
    /// none), a leaf asks its matcher.
    #[verifier::loop_isolation(false)]
    pub fn select(&self, aliases: &EventKeyAliasConfig, event_record: &JsonValue) -> (r: bool)
        ensures
            r == node_select(*self, aliases.entries@, *event_record),
        decreases self,
    {
        match self {
            SelectionNode::And(a) => {
                let mut i: usize = 0;
                while i < a.child_nodes.len()
                    invariant
                        0 <= i <= a.child_nodes.len(),
                        prefix_select(*self, i as int, aliases.entries@, *event_record),
                    decreases a.child_nodes.len() - i,
                {
                    proof {
                        assert(decreases_to!(a.child_nodes => a.child_nodes[i as int]));
                        assert(decreases_to!(*self => a.child_nodes[i as int]));
                    }
                    let b = a.child_nodes[i].select(aliases, event_record);
                    assert(b == node_select(a.child_nodes[i as int], aliases.entries@, *event_record));
                    if !b {
                        proof {
                            lemma_prefix_select_stays(*self, i + 1, a.child_nodes.len() as int, aliases.entries@, *event_record);
                        }
                        return false;
                    }
                    i = i + 1;
                }
                true
            },
            SelectionNode::Or(o) => {
                let mut i: usize = 0;
                while i < o.child_nodes.len()
                    invariant
                        0 <= i <= o.child_nodes.len(),
                        !prefix_select(*self, i as int, aliases.entries@, *event_record),
                    decreases o.child_nodes.len() - i,
                {
                    proof {
                        assert(decreases_to!(o.child_nodes => o.child_nodes[i as int]));
                        assert(decreases_to!(*self => o.child_nodes[i as int]));
                    }
                    let b = o.child_nodes[i].select(aliases, event_record);
                    assert(b == node_select(o.child_nodes[i as int], aliases.entries@, *event_record));
                    if b {
                        proof {
                            lemma_prefix_select_stays(*self, i + 1, o.child_nodes.len() as int, aliases.entries@, *event_record);
                        }
                        return true;
                    }
                    i = i + 1;
                }
                false
            },
            SelectionNode::Leaf(l) => l.select(aliases, event_record),
        }
    }

    /// Validates a whole tree, consuming it: every leaf is bound or left
    /// unbound, and the errors of all leaves are gathered in order.
    pub fn validate(self) -> (r: (SelectionNode, Vec<String>))
        ensures
            validated(r.0, self),
            texts_of(r.1@) == node_errors(self),
        decreases self,
    {
        let ghost whole = self;
        let (is_and, mut rest) = match self {
            SelectionNode::Leaf(l) => {
                let mut leaf = l;
                let res = leaf.init();
                let errs = match res {
                    Ok(()) => Vec::new(),
                    Err(e) => e,
                };
                assert(texts_of(errs@) =~= node_errors(whole));
                return (SelectionNode::Leaf(leaf), errs);
            },
            SelectionNode::And(a) => (true, a.child_nodes),
            SelectionNode::Or(o) => (false, o.child_nodes),
        };
        assert(rest.len() == rest@.len());
        let ghost orig = rest@;
        let ghost n = orig.len();
        let mut done: Vec<SelectionNode> = Vec::new();
        let mut errs: Vec<String> = Vec::new();
        let mut i: usize = 0;
        assert(orig.subrange(0, n as int) =~= orig);
        assert(texts_of(errs@) =~= prefix_errors(whole, 0));
        while rest.len() > 0
            invariant
                orig == children(whole),
                whole == self,
                n == orig.len(),
                n <= usize::MAX,
                is_and == (whole is And),
                !(whole is Leaf),
                0 <= i <= n,
                rest@ == orig.subrange(i as int, n as int),
                done@.len() == i,
                forall|j: int| 0 <= j < i ==> #[trigger] validated(done@[j], orig[j]),
                texts_of(errs@) == prefix_errors(whole, i as int),
            decreases rest.len(),
        {
            let c = rest.remove(0);
            assert(c == orig[i as int]);
            proof {
                match whole {
                    SelectionNode::And(a) => {
                        assert(decreases_to!(a.child_nodes => a.child_nodes[i as int]));
                        assert(decreases_to!(whole => a.child_nodes[i as int]));
                    },
                    SelectionNode::Or(o) => {
                        assert(decreases_to!(o.child_nodes => o.child_nodes[i as int]));
                        assert(decreases_to!(whole => o.child_nodes[i as int]));
                    },
                    SelectionNode::Leaf(_) => {},
                }
            }
            let (nc, mut e) = c.validate();
            let ghost before = errs@;
            done.push(nc);
            errs.append(&mut e);
            assert(texts_of(errs@) =~= texts_of(before) + node_errors(orig[i as int]));
            i = i + 1;
            assert(rest@ =~= orig.subrange(i as int, n as int));
        }
        let node = if is_and {
            SelectionNode::And(AndSelectionNode { child_nodes: done })
        } else {
            SelectionNode::Or(OrSelectionNode { child_nodes: done })
        };
        assert(children(node) == done@);
        assert(done@.len() == n);
        proof {
            assert forall|j: int| 0 <= j < n implies #[trigger] validated(children(node)[j], children(whole)[j]) by {
                lemma_child(whole, j);
            }
            lemma_prefix_validated_from_all(node, whole, n as int);
        }
        (node, errs)
    }

    /// Validates the tree in place; `Ok` exactly when no leaf has an error,
    /// else every error, in the order of the leaves.
    pub fn init(&mut self) -> (r: Result<(), Vec<String>>)
        ensures
            validated(*final(self), *old(self)),
            r is Ok == (node_errors(*old(self)).len() == 0),
            r matches Err(e) ==> texts_of(e@) == node_errors(*old(self)),
            r is Ok ==> all_bound(*final(self)),
    {
        let mut tmp = SelectionNode::And(AndSelectionNode::new());
        std::mem::swap(self, &mut tmp);
        let (node, errs) = tmp.validate();
        *self = node;
        proof {
            if errs@.len() == 0 {
                lemma_valid_tree_fully_bound(node, tmp);
            }
        }
        if errs.len() == 0 {
            Ok(())
        } else {
            Err(errs)
        }
    }
}

} // verus!

verus! {

/// A conjunction without children holds on every record.
pub proof fn lemma_empty_and_holds(a: AndSelectionNode, aliases: Seq<(String, String)>, record: JsonValue)
    requires
        a.child_nodes.len() == 0,
    ensures
        node_select(SelectionNode::And(a), aliases, record),
{
}

/// A disjunction without children holds on no record.
pub proof fn lemma_empty_or_fails(o: OrSelectionNode, aliases: Seq<(String, String)>, record: JsonValue)
    requires
        o.child_nodes.len() == 0,
    ensures
        !node_select(SelectionNode::Or(o), aliases, record),
{
}

/// A leaf without a bound matcher holds on no record; validation leaves a
/// leaf unbound exactly when the leaf has an error.
pub proof fn lemma_unbound_leaf_fails(new: LeafSelectionNode, old: LeafSelectionNode, aliases: Seq<(String, String)>, record: JsonValue)
    requires
        new.matcher is None || (leaf_validated(new, old) && leaf_outcome(old.keys(), old.select_value) is Err),
    ensures
        !node_select(SelectionNode::Leaf(new), aliases, record),
{
}

/// A leaf configured with null and validated holds exactly on the records
/// where its field is absent, null or an empty string.
pub proof fn lemma_null_selector(new: LeafSelectionNode, old: LeafSelectionNode, aliases: Seq<(String, String)>, record: JsonValue)
    requires
        leaf_validated(new, old),
        old.select_value is Null,
        old.key_list.len() <= 1,
    ensures
        node_select(SelectionNode::Leaf(new), aliases, record) == value_is_empty(
            resolve_field(aliases, field_name(new.keys()), record),
        ),
{
    assert(modifiers(old.keys()).len() == 0);
}

/// A bound pattern accepts a value only when one of its matches is the
/// value's whole text.
pub proof fn lemma_match_is_whole(p: Seq<char>, v: JsonValue)
    requires
        regex_accepts(Some(p), Some(v)),
    ensures
        json_text(v) matches Some(t) && exists|i: int|
            0 <= i < regex_match_texts(p, t).len() && regex_match_texts(p, t)[i] == t,
{
}

/// A scalar written in a record and the same scalar written in a rule have
/// the same text; a string keeps its text unchanged.
pub proof fn lemma_text_forms(b: bool, i: i64, s: String)
    ensures
        json_text(JsonValue::Bool(b)) == doc_text(DocNode::Boolean(b)),
        json_text(JsonValue::Int(i)) == doc_text(DocNode::Integer(i)),
        i >= 0 ==> json_text(JsonValue::UInt(i as u64)) == doc_text(DocNode::Integer(i)),
        json_text(JsonValue::Str(s)) == Some(s@),
        doc_text(DocNode::Text(s)) == Some(s@),
{
}

/// The number of children among the first `k` of a node that are leaves
/// whose validation fails.
pub open spec fn failing_leaves(n: SelectionNode, k: int) -> nat
    decreases k,
{
    if k <= 0 || k > children(n).len() {
        0
    } else {
        failing_leaves(n, k - 1) + match children(n)[k - 1] {
            SelectionNode::Leaf(l) => if leaf_outcome(l.keys(), l.select_value) is Err {
                1nat
            } else {
                0nat
            },
            _ => 0nat,
        }
    }
}

/// Validation does not stop at the first failure: a combinator whose
/// children are leaves reports one error for each failing leaf.
pub proof fn lemma_errors_aggregate(n: SelectionNode)
    requires
        !(n is Leaf),
        forall|i: int| 0 <= i < children(n).len() ==> #[trigger] children(n)[i] is Leaf,
    ensures
        node_errors(n).len() == failing_leaves(n, children(n).len() as int),
{
    lemma_prefix_errors_count(n, children(n).len() as int);
}

proof fn lemma_prefix_errors_count(n: SelectionNode, k: int)
    requires
        !(n is Leaf),
        0 <= k <= children(n).len(),
        forall|i: int| 0 <= i < children(n).len() ==> #[trigger] children(n)[i] is Leaf,
    ensures
        prefix_errors(n, k).len() == failing_leaves(n, k),
    decreases k,
{
    if k > 0 {
        lemma_prefix_errors_count(n, k - 1);
        let c = children(n)[k - 1];
        assert(c is Leaf);
        match n {
            SelectionNode::And(a) => assert(a.child_nodes[k - 1] == c),
            SelectionNode::Or(o) => assert(o.child_nodes[k - 1] == c),
            SelectionNode::Leaf(_) => {},
        }
        assert(prefix_errors(n, k) == prefix_errors(n, k - 1) + node_errors(c));
    }
}

} // verus!

verus! {

/// Validation is idempotent: validating an already validated tree binds
/// every leaf as the first validation did, and reports the same errors.
pub proof fn lemma_validation_idempotent(t2: SelectionNode, t1: SelectionNode, t0: SelectionNode)
    requires
        validated(t1, t0),
        validated(t2, t1),
    ensures
        validated(t2, t0),
        node_errors(t1) == node_errors(t0),
    decreases t0, 1int, 0int,
{
    match t0 {
        SelectionNode::Leaf(_) => {},
        _ => {
            lemma_prefix_idempotent(t2, t1, t0, children(t0).len() as int);
        },
    }
}

proof fn lemma_prefix_idempotent(t2: SelectionNode, t1: SelectionNode, t0: SelectionNode, k: int)
    requires
        !(t0 is Leaf),
        t1 is And == t0 is And,
        t1 is Or == t0 is Or,
        0 <= k <= children(t0).len(),
        children(t1).len() == children(t0).len(),
        children(t2).len() == children(t1).len(),
        prefix_validated(t1, t0, k),
        prefix_validated(t2, t1, k),
    ensures
        prefix_validated(t2, t0, k),
        prefix_errors(t1, k) == prefix_errors(t0, k),
    decreases t0, 0int, k,
{
    if k > 0 {
        lemma_child(t0, k - 1);
        lemma_child(t1, k - 1);
        lemma_child(t2, k - 1);
        lemma_prefix_idempotent(t2, t1, t0, k - 1);
        lemma_validation_idempotent(children(t2)[k - 1], children(t1)[k - 1], children(t0)[k - 1]);
    }
}

} // verus!
