//! The new description of a pull request: its old description with the
//! table of the stack put in, or put in anew.
//!
//! The table stands between two markers. A description that holds the
//! opening marker has what stands between the markers replaced, by the
//! `regex` crate; any other description has the block appended.

use crate::graph::flat_view;
use crate::graph::Dependency;
use crate::graph::FlatDep;
use crate::text::contains;
use crate::text::occurs_in;
use crate::text::strings_view;
use regex::Regex;
use vstd::prelude::*;
use vstd::string::*;

verus! {

/// Declares `regex::Regex`, a compiled regular expression.
#[verifier::external_type_specification]
#[verifier::external_body]
pub struct ExRegex(Regex);

/// Declares `regex::Error`, the reason why a pattern was refused.
#[verifier::external_type_specification]
#[verifier::external_body]
pub struct ExRegexError(regex::Error);

/// The pattern that a compiled expression was made from: what
/// `Regex::as_str` returns.
pub uninterp spec fn regex_pattern(regex: Regex) -> Seq<char>;

/// Whether `Regex::new` compiles `pattern`.
pub uninterp spec fn regex_accepts(pattern: Seq<char>) -> bool;

/// What `Regex::replace_all` returns: `haystack` with every match of
/// `pattern` replaced by `replacement`, in which references to capture
/// groups are expanded.
pub uninterp spec fn regex_replaced(
    pattern: Seq<char>,
    haystack: Seq<char>,
    replacement: Seq<char>,
) -> Seq<char>;

/// Whether `c` has a meaning of its own in a regular expression.
pub open spec fn is_meta_character(c: char) -> bool {
    ||| c == '\\'
    ||| c == '.'
    ||| c == '+'
    ||| c == '*'
    ||| c == '?'
    ||| c == '('
    ||| c == ')'
    ||| c == '|'
    ||| c == '['
    ||| c == ']'
    ||| c == '{'
    ||| c == '}'
    ||| c == '^'
    ||| c == '$'
    ||| c == '#'
    ||| c == '&'
    ||| c == '-'
    ||| c == '~'
}

/// `text` with a backslash before each character that has a meaning of its
/// own in a regular expression.
pub open spec fn escaped(text: Seq<char>) -> Seq<char>
    decreases text.len(),
{
    if text.len() == 0 {
        Seq::empty()
    } else if is_meta_character(text.last()) {
        escaped(text.drop_last()).push('\\').push(text.last())
    } else {
        escaped(text.drop_last()).push(text.last())
    }
}

/// Calls `regex::escape`, which puts a backslash before each meta
/// character of the text and keeps the others.
#[verifier::external_body]
fn escape(text: &str) -> (quoted: String)
    ensures
        quoted@ == escaped(text@),
{
    regex::escape(text)
}

/// Calls `Regex::new`, which compiles the pattern or refuses it. Whether
/// it compiles depends on the pattern alone; the compiled expression keeps
/// the pattern it was made from.
#[verifier::external_body]
fn compile(pattern: &str) -> (compiled: Result<Regex, regex::Error>)
    ensures
        match compiled {
            Ok(regex) => regex_accepts(pattern@) && regex_pattern(regex) == pattern@,
            Err(_) => !regex_accepts(pattern@),
        },
{
    Regex::new(pattern)
}

/// Calls `Regex::replace_all` with a string as the replacement, which
/// replaces every match in the haystack. The result depends on the
/// pattern, the haystack and the replacement alone.
#[verifier::external_body]
fn replace_matches(regex: &Regex, haystack: &str, replacement: &str) -> (replaced: String)
    ensures
        replaced@ == regex_replaced(regex_pattern(*regex), haystack@, replacement@),
{
    regex.replace_all(haystack, replacement).into_owned()
}

/// The marker that opens the table in a description.
pub open spec fn shield_open() -> Seq<char> {
    "<!---GHSTACKOPEN-->"@
}

/// The marker that closes the table in a description.
pub open spec fn shield_close() -> Seq<char> {
    "<!---GHSTACKCLOSE-->"@
}

/// The table between its markers, each on a line of its own.
pub open spec fn shielded(table: Seq<char>) -> Seq<char> {
    "\n"@ + shield_open() + "\n"@ + table + "\n"@ + shield_close() + "\n"@
}

/// The pattern that matches from the opening marker to the last closing
/// marker, across lines.
pub open spec fn shield_pattern() -> Seq<char> {
    "(?s)"@ + escaped(shield_open()) + ".*"@ + escaped(shield_close())
}

/// The description `body` with the table `table` put in: in place of what
/// stands between the markers where `body` holds the opening marker, at
/// the end otherwise.
pub open spec fn described(body: Seq<char>, table: Seq<char>) -> Seq<char> {
    if occurs_in(shield_open(), body) {
        regex_replaced(shield_pattern(), body, shielded(table))
    } else {
        body + shielded(table)
    }
}

/// Why a description could not be written.
#[derive(Debug, Clone, Copy, PartialEq, Eq, Structural)]
pub enum PersistError {
    /// The pattern was refused: it is no regular expression, or too large
    /// a one.
    Pattern,
}

/// The table `table` between its markers.
pub fn shield(table: &str) -> (block: String)
    ensures
        block@ == shielded(table@),
{
    let mut block = String::from_str("\n");
    block.append("<!---GHSTACKOPEN-->");
    block.append("\n");
    block.append(table);
    block.append("\n");
    block.append("<!---GHSTACKCLOSE-->");
    block.append("\n");
    block
}

/// The pattern that finds the markers and what stands between them.
pub fn matcher() -> (pattern: String)
    ensures
        pattern@ == shield_pattern(),
{
    let mut pattern = String::from_str("(?s)");
    let open = escape("<!---GHSTACKOPEN-->");
    let close = escape("<!---GHSTACKCLOSE-->");
    pattern.append(open.as_str());
    pattern.append(".*");
    pattern.append(close.as_str());
    pattern
}

/// The description `body` with the block `block` at its end.
pub fn append_block(body: &str, block: &str) -> (text: String)
    ensures
        text@ == body@ + block@,
{
    let mut text = String::from_str(body);
    text.append(block);
    text
}

/// `text` with every match of the pattern `pattern` replaced by `block`,
/// unless the pattern is refused.
pub fn replace_pattern(pattern: &str, text: &str, block: &str) -> (new: Result<String, PersistError>)
    ensures
        match new {
            Ok(replaced) => regex_accepts(pattern@) && replaced@ == regex_replaced(
                pattern@,
                text@,
                block@,
            ),
            Err(error) => !regex_accepts(pattern@) && error == PersistError::Pattern,
        },
{
    match compile(pattern) {
        Ok(regex) => Ok(replace_matches(&regex, text, block)),
        Err(_) => Err(PersistError::Pattern),
    }
}

/// Puts the table `table` into the description `body`. A description
/// without the opening marker always gets its table; one with the marker
/// gets it unless the pattern for the markers is refused.
pub fn safe_replace(body: &str, table: &str) -> (new: Result<String, PersistError>)
    ensures
        match new {
            Ok(text) => text@ == described(body@, table@),
            Err(error) => error == PersistError::Pattern,
        },
        new is Ok <==> !occurs_in(shield_open(), body@) || regex_accepts(shield_pattern()),
{
    let block = shield(table);
    if contains(body, "<!---GHSTACKOPEN-->") {
        let pattern = matcher();
        replace_pattern(pattern.as_str(), body, block.as_str())
    } else {
        Ok(append_block(body, block.as_str()))
    }
}

/// The new descriptions for the stack.
pub open spec fn descriptions_of(deps: Seq<Dependency>, table: Seq<char>) -> Seq<Seq<char>> {
    Seq::new(deps.len(), |i: int| described(deps[i].request.body, table))
}

/// Whether some request of the stack holds the opening marker in its
/// description.
pub open spec fn some_is_marked(deps: Seq<Dependency>) -> bool {
    exists|i: int| 0 <= i < deps.len() && occurs_in(shield_open(), (#[trigger] deps[i]).request.body)
}

/// The new description of each request of the stack `prs`, in their
/// order: its old description with the table `table` put in. They are
/// given unless a description holds the opening marker and the pattern for
/// the markers is refused.
pub fn descriptions(prs: &FlatDep, table: &str) -> (new: Result<Vec<String>, PersistError>)
    ensures
        match new {
            Ok(texts) => strings_view(texts@) == descriptions_of(flat_view(prs@), table@),
            Err(error) => error == PersistError::Pattern,
        },
        new is Err <==> some_is_marked(flat_view(prs@)) && !regex_accepts(shield_pattern()),
{
    let ghost all = flat_view(prs@);
    let mut texts: Vec<String> = Vec::new();
    let mut i: usize = 0;
    while i < prs.len()
        invariant
            i <= prs.len(),
            all == flat_view(prs@),
            texts@.len() == i,
            forall|k: int|
                0 <= k < i ==> (#[trigger] texts@[k])@ == described(all[k].request.body, table@),
            forall|k: int|
                0 <= k < i ==> !occurs_in(shield_open(), (#[trigger] all[k]).request.body)
                    || regex_accepts(shield_pattern()),
        decreases prs.len() - i,
    {
        match safe_replace(prs[i].0.body(), table) {
            Ok(text) => {
                texts.push(text);
            },
            Err(error) => {
                assert(occurs_in(shield_open(), all[i as int].request.body));
                return Err(error);
            },
        }
        i += 1;
    }
    Ok(texts)
}

} // verus!
