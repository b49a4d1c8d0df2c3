//! Which benchmarks are to be run.

use regex::Regex;
use vstd::prelude::*;

verus! {

/// What `regex::Regex::new` makes of a pattern: the text of its error, or `None` where the pattern
/// compiles.
pub uninterp spec fn regex_error(pattern: Seq<char>) -> Option<Seq<char>>;

/// Whether `part` stands in `text` at `at`.
pub open spec fn occurs_at(part: Seq<char>, text: Seq<char>, at: int) -> bool {
    0 <= at <= text.len() - part.len() && text.subrange(at, at + part.len()) =~= part
}

/// Whether `part` stands somewhere in `text`.
pub open spec fn occurs_in(part: Seq<char>, text: Seq<char>) -> bool {
    exists|at: int| #[trigger] occurs_at(part, text, at)
}

/// `regex::Regex::new`, its error taken as the text that it displays. Taken on trust: whether a
/// pattern compiles, and the error where it does not, follow from the pattern alone.
#[verifier::external_body]
fn pattern_error(pattern: &str) -> (error: Option<String>)
    ensures
        match error {
            Some(text) => regex_error(pattern@) == Some(text@),
            None => regex_error(pattern@) is None,
        },
{
    Regex::new(pattern).err().map(|error| error.to_string())
}

/// The characters of a text.
fn characters(text: &str) -> (characters: Vec<char>)
    ensures
        characters@ == text@,
{
    let mut characters: Vec<char> = Vec::new();
    for c in iter: text.chars()
        invariant
            iter.seq() == text@,
            characters@ == text@.take(iter.index()),
    {
        characters.push(c);
    }
    assert(text@.take(text@.len() as int) =~= text@);
    characters
}

/// Whether `part` stands in `text` at `at`.
fn stands_at(part: &Vec<char>, text: &Vec<char>, at: usize) -> (stands: bool)
    requires
        at + part@.len() <= text@.len(),
    ensures
        stands == occurs_at(part@, text@, at as int),
{
    let length: usize = text.len();
    for i in 0..part.len()
        invariant
            at + part@.len() <= text@.len(),
            text@.len() == length,
            forall|j: int| 0 <= j < i ==> text@[at + j] == part@[j],
    {
        if text[at + i] != part[i] {
            assert(text@.subrange(at as int, at + part@.len())[i as int] != part@[i as int]);
            return false;
        }
    }
    assert(text@.subrange(at as int, at + part@.len()) =~= part@);
    true
}

/// Whether `part` stands somewhere in `text`.
fn contains(text: &str, part: &str) -> (found: bool)
    ensures
        found == occurs_in(part@, text@),
{
    let wanted = characters(part);
    let given = characters(text);
    if wanted.len() > given.len() {
        return false;
    }
    let last: usize = given.len() - wanted.len();
    for at in 0..last
        invariant
            wanted@ == part@,
            given@ == text@,
            last == given@.len() - wanted@.len(),
            forall|before: int|
                0 <= before < at ==> !#[trigger] occurs_at(wanted@, given@, before),
    {
        if stands_at(&wanted, &given, at) {
            return true;
        }
    }
    stands_at(&wanted, &given, last)
}

/// A text that is no regular expression.
#[derive(Debug)]
pub struct FilterError {
    /// The text.
    pub pattern: String,
    /// What is wrong with it.
    pub error: String,
}

impl FilterError {
    /// The text of the error.
    pub fn message(&self) -> (text: String)
        ensures
            text@ == "Unable to parse '"@ + self.pattern@ + "' as a regular expression: "@
                + self.error@,
    {
        let mut text = "Unable to parse '".to_owned();
        text.append(self.pattern.as_str());
        text.append("' as a regular expression: ");
        text.append(self.error.as_str());
        text
    }
}

/// A text that picks the benchmarks with names that contain it. Only what is also a regular
/// expression can be one.
#[derive(Debug)]
pub struct Filter {
    pattern: String,
}

impl View for Filter {
    type V = Seq<char>;

    /// The text.
    closed spec fn view(&self) -> Seq<char> {
        self.pattern@
    }
}

impl Filter {
    #[verifier::type_invariant]
    spec fn compiles(self) -> bool {
        regex_error(self.pattern@) is None
    }

    /// The filter with the given text.
    pub fn new(pattern: String) -> (filter: Result<Filter, FilterError>)
        ensures
            match filter {
                Ok(filter) => filter@ == pattern@ && regex_error(pattern@) is None,
                Err(error) => error.pattern == pattern && regex_error(pattern@) == Some(
                    error.error@,
                ),
            },
    {
        match pattern_error(pattern.as_str()) {
            None => Ok(Filter { pattern }),
            Some(error) => Err(FilterError { pattern, error }),
        }
    }

    /// Whether the filter picks the benchmark with the name `id`.
    pub fn matches(&self, id: &str) -> (found: bool)
        ensures
            found == occurs_in(self@, id@),
    {
        contains(id, self.pattern.as_str())
    }
}

/// A text is found wherever it is put, whatever stands before and behind it.
pub proof fn texts_are_found_where_they_are_put(
    before: Seq<char>,
    part: Seq<char>,
    behind: Seq<char>,
)
    ensures
        occurs_in(part, before + part + behind),
{
    let text = before + part + behind;
    assert(text.subrange(before.len() as int, (before.len() + part.len()) as int) =~= part);
    assert(occurs_at(part, text, before.len() as int));
}

/// A text is found only where it stands, with something or nothing before and behind it.
pub proof fn texts_are_found_only_where_they_stand(part: Seq<char>, text: Seq<char>)
    requires
        occurs_in(part, text),
    ensures
        exists|before: Seq<char>, behind: Seq<char>| text == #[trigger] (before + part + behind),
{
    let at = choose|at: int| #[trigger] occurs_at(part, text, at);
    let before = text.take(at);
    let behind = text.skip(at + part.len());
    assert(text =~= before + text.subrange(at, at + part.len()) + behind);
    assert(text == before + part + behind);
}

/// A filter picks the names that consist of its text with something or nothing before and behind
/// it, and no others.
pub proof fn filters_pick_the_names_around_their_text(
    text: String,
    filter: Filter,
    id: &str,
    found: bool,
)
    requires
        call_ensures(Filter::new, (text,), Ok(filter)),
        call_ensures(Filter::matches, (&filter, id), found),
    ensures
        found <==> exists|before: Seq<char>, behind: Seq<char>|
            id@ == #[trigger] (before + text@ + behind),
{
    if found {
        texts_are_found_only_where_they_stand(text@, id@);
    }
    assert forall|before: Seq<char>, behind: Seq<char>|
        id@ == #[trigger] (before + text@ + behind) implies found by {
        texts_are_found_where_they_are_put(before, text@, behind);
    }
}

} // verus!
