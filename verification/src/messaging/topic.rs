use vstd::prelude::*;
use vstd::std_specs::iter::IteratorSpec;
use vstd::string::*;
use crate::text::push_char;

verus! {

/// A compiled regular expression of the `regex` crate.
#[verifier::external_type_specification]
#[verifier::external_body]
pub struct ExRegex(regex::Regex);

/// The error with which the `regex` crate refuses an expression.
#[verifier::external_type_specification]
#[verifier::external_body]
pub struct ExRegexError(regex::Error);

/// Whether the `regex` crate compiles the expression.
pub uninterp spec fn expression_compiles(expression: Seq<char>) -> bool;

/// The expression that a compiled regular expression was compiled from.
pub uninterp spec fn expression_of(compiled: regex::Regex) -> Seq<char>;

/// Whether the regular expression with the given source finds a match
/// somewhere in the text, as the `regex` crate decides it.
pub uninterp spec fn expression_finds(expression: Seq<char>, text: Seq<char>) -> bool;

/// `regex::Regex::new`: compiles an expression. Whether it succeeds depends
/// on the expression alone, and where it does, the result is the compiled
/// form of the very expression handed in. Nothing is claimed about which
/// expressions compile.
#[verifier::external_body]
pub(crate) fn compile(expression: &str) -> (r: Result<regex::Regex, regex::Error>)
    ensures
        r is Ok <==> expression_compiles(expression@),
        r matches Ok(compiled) ==> expression_of(compiled) == expression@,
{
    regex::Regex::new(expression)
}

/// `regex::Regex::is_match`: whether the expression finds a match anywhere in
/// the text. The answer depends on the expression and the text alone.
#[verifier::external_body]
pub(crate) fn finds(compiled: &regex::Regex, text: &str) -> (b: bool)
    ensures
        b == expression_finds(expression_of(*compiled), text@),
{
    compiled.is_match(text)
}

/// The characters that have a meaning of their own in a regular expression.
pub open spec fn is_meta(c: char) -> bool {
    c == '\\' || c == '.' || c == '+' || c == '*' || c == '?' || c == '(' || c == ')' || c == '|'
        || c == '[' || c == ']' || c == '{' || c == '}' || c == '^' || c == '$' || c == '#' || c
        == '&' || c == '-' || c == '~'
}

/// What one character of a topic pattern becomes in the expression: `+`
/// stands for one level, so for one or more characters other than the
/// separator; `#` for one or more characters of any kind; every other
/// character for itself.
pub open spec fn piece(c: char) -> Seq<char> {
    if c == '+' {
        seq!['[', '^', '/', ']', '+']
    } else if c == '#' {
        seq!['.', '+']
    } else if is_meta(c) {
        seq!['\\', c]
    } else {
        seq![c]
    }
}

/// The pieces of all characters of a pattern, in order.
pub open spec fn pieces(pattern: Seq<char>) -> Seq<char>
    decreases pattern.len(),
{
    if pattern.len() == 0 {
        Seq::empty()
    } else {
        pieces(pattern.drop_last()) + piece(pattern.last())
    }
}

/// The regular expression that a topic pattern stands for. It is anchored at
/// both ends, so it accepts whole topics only.
pub open spec fn pattern_expression(pattern: Seq<char>) -> Seq<char> {
    seq!['^'] + pieces(pattern) + seq!['$']
}

/// A topic pattern accepts a topic when its expression compiles and finds
/// the topic.
pub open spec fn pattern_accepts(pattern: Seq<char>, topic: Seq<char>) -> bool {
    &&& expression_compiles(pattern_expression(pattern))
    &&& expression_finds(pattern_expression(pattern), topic)
}

fn is_meta_character(c: char) -> (b: bool)
    ensures
        b == is_meta(c),
{
    c == '\\' || c == '.' || c == '+' || c == '*' || c == '?' || c == '(' || c == ')' || c == '|'
        || c == '[' || c == ']' || c == '{' || c == '}' || c == '^' || c == '$' || c == '#' || c
        == '&' || c == '-' || c == '~'
}

/// Writes the regular expression that a topic pattern stands for.
pub fn expression(pattern: &str) -> (s: String)
    ensures
        s@ == pattern_expression(pattern@),
{
    broadcast use vstd::string::group_string_axioms;

    proof {
        reveal_strlit("^");
        reveal_strlit("$");
    }
    let mut s = String::from_str("^");
    let mut chars = pattern.chars();
    let ghost mut done: Seq<char> = Seq::empty();
    assert(pieces(done) =~= Seq::<char>::empty());
    loop
        invariant
            chars.obeys_prophetic_iter_laws(),
            chars.decrease() is Some,
            done + chars.remaining() == pattern@,
            s@ == seq!['^'] + pieces(done),
        ensures
            done == pattern@,
            s@ == seq!['^'] + pieces(done),
        decreases chars.decrease()->0,
    {
        let ghost before = chars.remaining();
        match chars.next() {
            Some(c) => {
                let ghost written = s@;
                if c == '+' {
                    s.append("[^/]+");
                } else if c == '#' {
                    s.append(".+");
                } else if is_meta_character(c) {
                    push_char(&mut s, '\\');
                    push_char(&mut s, c);
                } else {
                    push_char(&mut s, c);
                }
                proof {
                    let grown = done.push(c);
                    assert(grown.drop_last() =~= done);
                    assert(grown.last() == c);
                    reveal_strlit("[^/]+");
                    reveal_strlit(".+");
                    assert("[^/]+"@ =~= seq!['[', '^', '/', ']', '+']);
                    assert(".+"@ =~= seq!['.', '+']);
                    assert(s@ =~= written + piece(c));
                    assert(pieces(grown) == pieces(done) + piece(c));
                    assert(s@ =~= seq!['^'] + pieces(grown));
                    assert(grown + chars.remaining() =~= done + before);
                    done = grown;
                }
            },
            None => {
                assert(done =~= done + before);
                break ;
            },
        }
    }
    s.append("$");
    s
}

} // verus!
