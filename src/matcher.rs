use vstd::prelude::*;
use crate::pattern::{CompiledPattern, full_match, regex_compiles};
use crate::value::{DocNode, JsonValue, doc_text, doc_to_text, json_text, json_to_text};

verus! {

/// The views of a list of strings.
pub open spec fn texts_of(v: Seq<String>) -> Seq<Seq<char>> {
    v.map_values(|t: String| t@)
}

/// The fully qualified name of a selection key path, as shown in errors:
/// `detection -> selection -> k1 -> k2 ...`.
pub open spec fn selection_key_text(keys: Seq<Seq<char>>) -> Seq<char>
    decreases keys.len(),
{
    if keys.len() == 0 {
        "detection -> selection"@
    } else {
        selection_key_text(keys.drop_last()) + " -> "@ + keys.last()
    }
}

/// Renders a key path for messages.
pub fn concat_selection_key(key_list: &Vec<String>) -> (r: String)
    ensures
        r@ == selection_key_text(texts_of(key_list@)),
{
    let mut acc = String::from_str("detection -> selection");
    let mut i: usize = 0;
    while i < key_list.len()
        invariant
            0 <= i <= key_list.len(),
            acc@ == selection_key_text(texts_of(key_list@.subrange(0, i as int))),
        decreases key_list.len() - i,
    {
        assert(texts_of(key_list@.subrange(0, i + 1)).drop_last() =~= texts_of(key_list@.subrange(0, i as int)));
        acc.append(" -> ");
        acc.append(key_list[i].as_str());
        i = i + 1;
    }
    assert(key_list@.subrange(0, i as int) =~= key_list@);
    acc
}

/// A record value counts as empty when it is absent, null, or an empty
/// string.
pub open spec fn value_is_empty(v: Option<JsonValue>) -> bool {
    match v {
        None => true,
        Some(JsonValue::Null) => true,
        Some(JsonValue::Str(s)) => s@.len() == 0,
        _ => false,
    }
}

/// What a regular-expression matcher bound to `pattern` says of a resolved
/// field value. With no pattern (a null selector) it accepts exactly the
/// empty values; with one, it accepts a scalar whose text the pattern
/// matches in full, and nothing else.
pub open spec fn regex_accepts(pattern: Option<Seq<char>>, v: Option<JsonValue>) -> bool {
    match pattern {
        None => value_is_empty(v),
        Some(p) => match v {
            Some(x) => match json_text(x) {
                Some(t) => full_match(p, t),
                None => false,
            },
            None => false,
        },
    }
}

/// Compares field values with a regular expression taken from the rule.
pub struct RegexMatcher {
    pub re: Option<CompiledPattern>,
}

impl RegexMatcher {
    pub open spec fn pattern(&self) -> Option<Seq<char>> {
        match self.re {
            Some(c) => Some(c.source_text()),
            None => None,
        }
    }

    pub fn new() -> (r: RegexMatcher)
        ensures
            r.pattern() is None,
    {
        RegexMatcher { re: None }
    }

    /// The default matcher: it takes the leaves that carry no modifier.
    pub fn is_target_key(&self, key_list: &Vec<String>) -> (r: bool)
        ensures
            r == (key_list@.len() == 0),
    {
        key_list.len() == 0
    }

    /// Binds the matcher to a leaf's configured value: a null value binds
    /// no pattern; a scalar is turned into text and compiled.
    pub fn init(&mut self, key_list: &Vec<String>, select_value: &DocNode) -> (r: Result<(), Vec<String>>)
        ensures
            match regex_binding(texts_of(key_list@), *select_value) {
                Ok(p) => r is Ok && final(self).pattern() == p,
                Err(m) => r matches Err(e) && texts_of(e@) == seq![m] && final(self).pattern() is None,
            },
    {
        self.re = None;
        if let DocNode::Null = select_value {
            return Ok(());
        }
        let text = match doc_to_text(select_value) {
            Some(t) => t,
            None => {
                let mut msg = String::from_str("unknown error occurred. [key:");
                let key = concat_selection_key(key_list);
                msg.append(key.as_str());
                msg.append("]");
                let errs = vec![msg];
                assert(texts_of(errs@) =~= seq![msg@]);
                return Err(errs);
            },
        };
        match CompiledPattern::compile(text.as_str()) {
            Ok(c) => {
                self.re = Some(c);
                Ok(())
            },
            Err(_) => {
                let mut msg = String::from_str("cannot parse regex. [regex:");
                msg.append(text.as_str());
                msg.append(", key:");
                let key = concat_selection_key(key_list);
                msg.append(key.as_str());
                msg.append("]");
                let errs = vec![msg];
                assert(texts_of(errs@) =~= seq![msg@]);
                Err(errs)
            },
        }
    }

    pub fn is_regex_fullmatch(&self, re: &CompiledPattern, value: &String) -> (r: bool)
        ensures
            r == full_match(re.source_text(), value@),
    {
        re.is_full_match(value)
    }

    pub fn is_match(&self, event_value: Option<&JsonValue>) -> (r: bool)
        ensures
            r == regex_accepts(self.pattern(), opt_value(event_value)),
    {
        let is_event_value_null = match event_value {
            None => true,
            Some(JsonValue::Null) => true,
            Some(JsonValue::Str(s)) => s.unicode_len() == 0,
            _ => false,
        };
        match &self.re {
            None => is_event_value_null,
            Some(re) => match event_value {
                Some(v) => match json_to_text(v) {
                    Some(t) => self.is_regex_fullmatch(re, &t),
                    None => false,
                },
                None => false,
            },
        }
    }
}

/// The outcome of binding a regular-expression matcher to a configured
/// value: the pattern it holds, or the message of the error.
pub open spec fn regex_binding(keys: Seq<Seq<char>>, v: DocNode) -> Result<Option<Seq<char>>, Seq<char>> {
    if v is Null {
        Ok(None)
    } else {
        match doc_text(v) {
            None => Err("unknown error occurred. [key:"@ + selection_key_text(keys) + "]"@),
            Some(t) => if regex_compiles(t) {
                Ok(Some(t))
            } else {
                Err(
                    "cannot parse regex. [regex:"@ + t + ", key:"@ + selection_key_text(keys)
                        + "]"@,
                )
            },
        }
    }
}

/// The value that an optional reference points to.
pub open spec fn opt_value(v: Option<&JsonValue>) -> Option<JsonValue> {
    match v {
        Some(x) => Some(*x),
        None => None,
    }
}

/// The matchers that a leaf can be bound to.
pub enum LeafMatcher {
    Regex(RegexMatcher),
}

impl LeafMatcher {
    pub open spec fn pattern(&self) -> Option<Seq<char>> {
        match self {
            LeafMatcher::Regex(m) => m.pattern(),
        }
    }

    pub fn is_match(&self, event_value: Option<&JsonValue>) -> (r: bool)
        ensures
            r == regex_accepts(self.pattern(), opt_value(event_value)),
    {
        match self {
            LeafMatcher::Regex(m) => m.is_match(event_value),
        }
    }
}

} // verus!
