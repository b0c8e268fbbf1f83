use vstd::prelude::*;
use crate::value::JsonValue;

verus! {

/// The field-alias configuration: each entry maps a logical field name to
/// the dotted path of the field inside a record. The first entry for a name
/// wins.
pub struct EventKeyAliasConfig {
    pub entries: Vec<(String, String)>,
}

/// The dotted path that an alias entry list gives for `key`, if any.
pub open spec fn alias_lookup(entries: Seq<(String, String)>, key: Seq<char>) -> Option<Seq<char>>
    decreases entries.len(),
{
    if entries.len() == 0 {
        None
    } else if entries[0].0@ == key {
        Some(entries[0].1@)
    } else {
        alias_lookup(entries.drop_first(), key)
    }
}

/// The value stored under `key` among an object's fields; the first one wins.
pub open spec fn field_lookup(fields: Seq<(String, JsonValue)>, key: Seq<char>) -> Option<JsonValue>
    decreases fields.len(),
{
    if fields.len() == 0 {
        None
    } else if fields[0].0@ == key {
        Some(fields[0].1)
    } else {
        field_lookup(fields.drop_first(), key)
    }
}

/// The pieces of `s` between the dots, empty pieces included; the text
/// without a dot is one piece.
pub open spec fn split_dots(s: Seq<char>) -> Seq<Seq<char>>
    decreases s.len(),
{
    if s.len() == 0 {
        seq![Seq::empty()]
    } else {
        let rest = split_dots(s.drop_last());
        if s.last() == '.' {
            rest.push(Seq::empty())
        } else {
            rest.update(rest.len() - 1, rest.last().push(s.last()))
        }
    }
}

/// Descends into `v` one key at a time; absent as soon as a step meets a
/// value that is not an object, or an object without that key.
pub open spec fn descend(v: JsonValue, keys: Seq<Seq<char>>) -> Option<JsonValue>
    decreases keys.len(),
{
    if keys.len() == 0 {
        Some(v)
    } else {
        match v {
            JsonValue::Object(fields) => match field_lookup(fields@, keys[0]) {
                Some(child) => descend(child, keys.drop_first()),
                None => None,
            },
            _ => None,
        }
    }
}

/// The path that a logical field name stands for: its alias if it has one,
/// else the name itself.
pub open spec fn field_path(aliases: Seq<(String, String)>, key: Seq<char>) -> Seq<char> {
    match alias_lookup(aliases, key) {
        Some(p) => p,
        None => key,
    }
}

/// The value that a logical field name resolves to in a record.
pub open spec fn resolve_field(aliases: Seq<(String, String)>, key: Seq<char>, record: JsonValue) -> Option<JsonValue> {
    if key.len() == 0 {
        None
    } else {
        descend(record, split_dots(field_path(aliases, key)))
    }
}

proof fn lemma_alias_lookup_step(e: Seq<(String, String)>, key: Seq<char>, i: int)
    requires
        0 <= i < e.len(),
    ensures
        alias_lookup(e.subrange(i, e.len() as int), key) == (if e[i].0@ == key {
            Some(e[i].1@)
        } else {
            alias_lookup(e.subrange(i + 1, e.len() as int), key)
        }),
{
    assert(e.subrange(i, e.len() as int).drop_first() =~= e.subrange(i + 1, e.len() as int));
}

proof fn lemma_field_lookup_step(f: Seq<(String, JsonValue)>, key: Seq<char>, i: int)
    requires
        0 <= i < f.len(),
    ensures
        field_lookup(f.subrange(i, f.len() as int), key) == (if f[i].0@ == key {
            Some(f[i].1)
        } else {
            field_lookup(f.subrange(i + 1, f.len() as int), key)
        }),
{
    assert(f.subrange(i, f.len() as int).drop_first() =~= f.subrange(i + 1, f.len() as int));
}

impl EventKeyAliasConfig {
    pub fn new(entries: Vec<(String, String)>) -> (r: EventKeyAliasConfig)
        ensures
            r.entries@ == entries@,
    {
        EventKeyAliasConfig { entries }
    }

    /// The dotted path configured for a logical field name.
    pub fn get_event_key(&self, key: &String) -> (r: Option<&String>)
        ensures
            alias_lookup(self.entries@, key@) == match r {
                Some(p) => Some(p@),
                None => None::<Seq<char>>,
            },
    {
        let n = self.entries.len();
        let mut i: usize = 0;
        assert(self.entries@.subrange(0, n as int) =~= self.entries@);
        while i < n
            invariant
                0 <= i <= n,
                n == self.entries.len(),
                alias_lookup(self.entries@, key@) == alias_lookup(
                    self.entries@.subrange(i as int, n as int),
                    key@,
                ),
            decreases n - i,
        {
            proof {
                lemma_alias_lookup_step(self.entries@, key@, i as int);
            }
            if self.entries[i].0 == *key {
                return Some(&self.entries[i].1);
            }
            i = i + 1;
        }
        None
    }
}

/// The value stored under `key` in an object's fields.
pub fn get_field<'a>(fields: &'a Vec<(String, JsonValue)>, key: &String) -> (r: Option<&'a JsonValue>)
    ensures
        field_lookup(fields@, key@) == match r {
            Some(v) => Some(*v),
            None => None::<JsonValue>,
        },
{
    let n = fields.len();
    let mut i: usize = 0;
    assert(fields@.subrange(0, n as int) =~= fields@);
    while i < n
        invariant
            0 <= i <= n,
            n == fields.len(),
            field_lookup(fields@, key@) == field_lookup(fields@.subrange(i as int, n as int), key@),
        decreases n - i,
    {
        proof {
            lemma_field_lookup_step(fields@, key@, i as int);
        }
        if fields[i].0 == *key {
            return Some(&fields[i].1);
        }
        i = i + 1;
    }
    None
}

/// Relies on `str::split`: the pieces of `s` between the dots, in order.
#[verifier::external_body]
fn split_on_dots(s: &str) -> (r: Vec<String>)
    ensures
        r@.map_values(|t: String| t@) == split_dots(s@),
{
    s.split('.').map(|t| t.to_string()).collect()
}

/// Descends into `record` along `keys`.
pub fn descend_keys<'a>(record: &'a JsonValue, keys: &Vec<String>) -> (r: Option<&'a JsonValue>)
    ensures
        descend(*record, keys@.map_values(|t: String| t@)) == match r {
            Some(v) => Some(*v),
            None => None::<JsonValue>,
        },
{
    let ghost ks = keys@.map_values(|t: String| t@);
    let n = keys.len();
    let mut cur: &JsonValue = record;
    let mut i: usize = 0;
    assert(ks.subrange(0, n as int) =~= ks);
    while i < n
        invariant
            0 <= i <= n,
            n == keys.len(),
            ks == keys@.map_values(|t: String| t@),
            descend(*record, ks) == descend(*cur, ks.subrange(i as int, n as int)),
        decreases n - i,
    {
        assert(ks.subrange(i as int, n as int).drop_first() =~= ks.subrange(i + 1, n as int));
        assert(ks.subrange(i as int, n as int)[0] == keys@[i as int]@);
        match cur {
            JsonValue::Object(fields) => match get_field(fields, &keys[i]) {
                Some(child) => {
                    cur = child;
                },
                None => {
                    return None;
                },
            },
            _ => {
                return None;
            },
        }
        i = i + 1;
    }
    Some(cur)
}

/// Resolves a logical field name against a record: the alias's dotted path
/// when the name has one, else the name itself taken as a dotted path.
/// Absent for an empty name.
pub fn get_event_value<'a>(aliases: &EventKeyAliasConfig, key: &String, event_value: &'a JsonValue) -> (r: Option<&'a JsonValue>)
    ensures
        resolve_field(aliases.entries@, key@, *event_value) == match r {
            Some(v) => Some(*v),
            None => None::<JsonValue>,
        },
{
    if key.unicode_len() == 0 {
        return None;
    }
    let keys = match aliases.get_event_key(key) {
        Some(path) => split_on_dots(path.as_str()),
        None => split_on_dots(key.as_str()),
    };
    descend_keys(event_value, &keys)
}

} // verus!

verus! {

/// An alias takes precedence: a name with an alias resolves along the
/// alias's dotted path; a name without one is itself taken as the dotted
/// path.
pub proof fn lemma_alias_precedence(aliases: Seq<(String, String)>, key: Seq<char>, record: JsonValue)
    requires
        key.len() > 0,
    ensures
        alias_lookup(aliases, key) matches Some(p) ==> resolve_field(aliases, key, record) == descend(
            record,
            split_dots(p),
        ),
        alias_lookup(aliases, key) is None ==> resolve_field(aliases, key, record) == descend(
            record,
            split_dots(key),
        ),
{
}

} // verus!
