use vstd::prelude::*;

verus! {

#[verifier::external_type_specification]
#[verifier::external_body]
pub struct ExRegex(regex::Regex);

#[verifier::external_type_specification]
#[verifier::external_body]
pub struct ExRegexError(regex::Error);

/// Whether the regular-expression engine accepts a pattern (its syntax and
/// its size limit).
pub uninterp spec fn regex_compiles(p: Seq<char>) -> bool;

/// The texts of the successive non-overlapping matches of a pattern in a
/// haystack, leftmost first.
pub uninterp spec fn regex_match_texts(p: Seq<char>, s: Seq<char>) -> Seq<Seq<char>>;

/// Whether some match of the pattern covers the whole of `s`.
pub open spec fn full_match(p: Seq<char>, s: Seq<char>) -> bool {
    texts_hold(regex_match_texts(p, s), s)
}

/// Whether `s` is one of `texts`.
pub open spec fn texts_hold(texts: Seq<Seq<char>>, s: Seq<char>) -> bool {
    exists|i: int| 0 <= i < texts.len() && texts[i] == s
}

/// A compiled regular expression together with the pattern it was compiled
/// from. The only way to build one is `compile`, so `re` always comes from
/// `source`.
pub struct CompiledPattern {
    source: String,
    re: regex::Regex,
}

impl CompiledPattern {
    pub closed spec fn source_text(&self) -> Seq<char> {
        self.source@
    }

    /// Relies on `regex::Regex::new`: `Ok` exactly when the pattern is
    /// accepted.
    #[verifier::external_body]
    pub(crate) fn compile(p: &str) -> (r: Result<CompiledPattern, regex::Error>)
        ensures
            r.is_ok() == regex_compiles(p@),
            r matches Ok(c) ==> c.source_text() == p@,
    {
        match regex::Regex::new(p) {
            Ok(re) => Ok(CompiledPattern { source: p.to_string(), re }),
            Err(e) => Err(e),
        }
    }

    /// Relies on `regex::Regex::find_iter`: the successive non-overlapping
    /// matches of the pattern in `s`, each taken as its text.
    #[verifier::external_body]
    fn match_texts(&self, s: &str) -> (r: Vec<String>)
        ensures
            r@.map_values(|t: String| t@) == regex_match_texts(self.source_text(), s@),
    {
        self.re.find_iter(s).map(|m| m.as_str().to_string()).collect()
    }

    /// Full-string match: some match of the pattern is the whole of `value`,
    /// not merely a part of it.
    pub fn is_full_match(&self, value: &String) -> (r: bool)
        ensures
            r == full_match(self.source_text(), value@),
    {
        let texts = self.match_texts(value.as_str());
        contains_text(&texts, value)
    }
}

/// Whether `value` is one of the match texts `texts`.
pub fn contains_text(texts: &Vec<String>, value: &String) -> (r: bool)
    ensures
        r == texts_hold(texts@.map_values(|t: String| t@), value@),
{
    let ghost views = texts@.map_values(|t: String| t@);
    let mut i: usize = 0;
    while i < texts.len()
        invariant
            0 <= i <= texts.len(),
            views == texts@.map_values(|t: String| t@),
            forall|j: int| 0 <= j < i ==> views[j] != value@,
        decreases texts.len() - i,
    {
        if texts[i] == *value {
            assert(views[i as int] == value@);
            return true;
        }
        i = i + 1;
    }
    false
}

} // verus!
