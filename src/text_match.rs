use stringmatch::StringMatchLength;
use vstd::prelude::*;

verus! {

#[verifier::external_type_specification]
pub struct ExStringMatchLength(stringmatch::StringMatchLength);

/// Relies on the `Clone` that stringmatch derives for `StringMatchLength`, a
/// fieldless enum: the copy is the same variant.
pub assume_specification[ <stringmatch::StringMatchLength as Clone>::clone ](
    l: &stringmatch::StringMatchLength,
) -> (r: stringmatch::StringMatchLength)
    ensures
        r == *l,
;

/// What `str::to_lowercase` returns for a string.
pub uninterp spec fn lowercase_of(s: Seq<char>) -> Seq<char>;

/// `needle` occurs somewhere in `haystack` (the empty needle occurs everywhere).
pub open spec fn contains_seq(haystack: Seq<char>, needle: Seq<char>) -> bool {
    exists|i: int|
        0 <= i && i + needle.len() <= haystack.len() && #[trigger] haystack.subrange(
            i,
            i + needle.len(),
        ) == needle
}

/// The string with one space added at each end.
pub open spec fn space_padded(s: Seq<char>) -> Seq<char> {
    seq![' '] + s + seq![' ']
}

/// Whether `needle` matches `haystack` under a match length: the whole string,
/// any substring, or a run of words bounded by spaces or the string's ends.
pub open spec fn needle_in_haystack(
    needle: Seq<char>,
    haystack: Seq<char>,
    length: StringMatchLength,
) -> bool {
    match length {
        StringMatchLength::Full => haystack == needle,
        StringMatchLength::Partial => contains_seq(haystack, needle),
        StringMatchLength::Word => contains_seq(space_padded(haystack), space_padded(needle)),
    }
}

/// A text pattern that element text, ids, classes, attributes and properties are
/// compared with.
#[derive(Debug, Clone)]
pub struct TextMatch {
    pub text: String,
    pub length: StringMatchLength,
    pub case_sensitive: bool,
}

/// Whether `m` matches `haystack`; a case-insensitive pattern compares the
/// lowercase forms of both strings.
pub open spec fn text_matches(m: TextMatch, haystack: Seq<char>) -> bool {
    if m.case_sensitive {
        needle_in_haystack(m.text@, haystack, m.length)
    } else {
        needle_in_haystack(lowercase_of(m.text@), lowercase_of(haystack), m.length)
    }
}

/// Relies on `stringmatch::Needle::is_match` for a case-sensitive
/// `stringmatch::StringMatch`: it compares the two strings as they are.
#[verifier::external_body]
fn is_match_case_sensitive(text: &str, length: &StringMatchLength, haystack: &str) -> (r: bool)
    ensures
        r == needle_in_haystack(text@, haystack@, *length),
{
    let needle = stringmatch::StringMatch::new(text);
    let needle = match length {
        StringMatchLength::Full => needle.full(),
        StringMatchLength::Partial => needle.partial(),
        StringMatchLength::Word => needle.word(),
    };
    stringmatch::Needle::is_match(&needle, haystack)
}

/// Relies on `stringmatch::Needle::is_match` for a case-insensitive
/// `stringmatch::StringMatch`: it compares what `str::to_lowercase` returns for
/// each string.
#[verifier::external_body]
fn is_match_case_insensitive(text: &str, length: &StringMatchLength, haystack: &str) -> (r: bool)
    ensures
        r == needle_in_haystack(lowercase_of(text@), lowercase_of(haystack@), *length),
{
    let needle = stringmatch::StringMatch::new(text).case_insensitive();
    let needle = match length {
        StringMatchLength::Full => needle.full(),
        StringMatchLength::Partial => needle.partial(),
        StringMatchLength::Word => needle.word(),
    };
    stringmatch::Needle::is_match(&needle, haystack)
}

impl TextMatch {
    /// A case-sensitive pattern that must equal the whole string.
    pub fn new(text: &str) -> (r: TextMatch)
        ensures
            r.text@ == text@,
            r.length == StringMatchLength::Full,
            r.case_sensitive,
    {
        TextMatch { text: text.to_owned(), length: StringMatchLength::Full, case_sensitive: true }
    }

    /// The same pattern, matching the whole string.
    pub fn full(self) -> (r: TextMatch)
        ensures
            r.text@ == self.text@,
            r.length == StringMatchLength::Full,
            r.case_sensitive == self.case_sensitive,
    {
        TextMatch { length: StringMatchLength::Full, ..self }
    }

    /// The same pattern, matching any substring.
    pub fn partial(self) -> (r: TextMatch)
        ensures
            r.text@ == self.text@,
            r.length == StringMatchLength::Partial,
            r.case_sensitive == self.case_sensitive,
    {
        TextMatch { length: StringMatchLength::Partial, ..self }
    }

    /// The same pattern, matching whole words bounded by spaces.
    pub fn word(self) -> (r: TextMatch)
        ensures
            r.text@ == self.text@,
            r.length == StringMatchLength::Word,
            r.case_sensitive == self.case_sensitive,
    {
        TextMatch { length: StringMatchLength::Word, ..self }
    }

    /// The same pattern, ignoring case.
    pub fn case_insensitive(self) -> (r: TextMatch)
        ensures
            r.text@ == self.text@,
            r.length == self.length,
            !r.case_sensitive,
    {
        TextMatch { case_sensitive: false, ..self }
    }

    /// The same pattern, respecting case.
    pub fn case_sensitive(self) -> (r: TextMatch)
        ensures
            r.text@ == self.text@,
            r.length == self.length,
            r.case_sensitive,
    {
        TextMatch { case_sensitive: true, ..self }
    }

    /// Whether `haystack` matches this pattern.
    pub fn is_match(&self, haystack: &str) -> (r: bool)
        ensures
            r == text_matches(*self, haystack@),
    {
        if self.case_sensitive {
            is_match_case_sensitive(self.text.as_str(), &self.length, haystack)
        } else {
            is_match_case_insensitive(self.text.as_str(), &self.length, haystack)
        }
    }
}

} // verus!
