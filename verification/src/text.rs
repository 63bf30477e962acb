use vstd::prelude::*;
use vstd::std_specs::iter::IteratorSpec;
use vstd::string::*;

verus! {

/// The character that writes a single decimal digit.
pub open spec fn digit_char(d: nat) -> char {
    if d == 0 {
        '0'
    } else if d == 1 {
        '1'
    } else if d == 2 {
        '2'
    } else if d == 3 {
        '3'
    } else if d == 4 {
        '4'
    } else if d == 5 {
        '5'
    } else if d == 6 {
        '6'
    } else if d == 7 {
        '7'
    } else if d == 8 {
        '8'
    } else {
        '9'
    }
}

/// The decimal numeral of a natural number, most significant digit first and
/// without leading zeros.
pub open spec fn decimal_digits(n: nat) -> Seq<char>
    decreases n,
{
    if n < 10 {
        seq![digit_char(n)]
    } else {
        decimal_digits(n / 10).push(digit_char(n % 10))
    }
}

fn digit(d: u64) -> (s: &'static str)
    requires
        d < 10,
    ensures
        s@ =~= seq![digit_char(d as nat)],
{
    proof {
        reveal_strlit("0");
        reveal_strlit("1");
        reveal_strlit("2");
        reveal_strlit("3");
        reveal_strlit("4");
        reveal_strlit("5");
        reveal_strlit("6");
        reveal_strlit("7");
        reveal_strlit("8");
        reveal_strlit("9");
    }
    if d == 0 {
        "0"
    } else if d == 1 {
        "1"
    } else if d == 2 {
        "2"
    } else if d == 3 {
        "3"
    } else if d == 4 {
        "4"
    } else if d == 5 {
        "5"
    } else if d == 6 {
        "6"
    } else if d == 7 {
        "7"
    } else if d == 8 {
        "8"
    } else {
        "9"
    }
}

/// Appends one character to a string, with `String::push` of the standard
/// library: the string afterwards is the string before followed by the
/// character.
#[verifier::external_body]
pub(crate) fn push_char(s: &mut String, c: char)
    ensures
        final(s)@ == old(s)@.push(c),
{
    s.push(c)
}

/// Writes a number as a decimal numeral.
pub fn decimal(n: u64) -> (s: String)
    ensures
        s@ == decimal_digits(n as nat),
    decreases n,
{
    if n < 10 {
        String::from_str(digit(n))
    } else {
        let mut s = decimal(n / 10);
        s.append(digit(n % 10));
        assert(s@ =~= decimal_digits((n / 10) as nat).push(digit_char((n % 10) as nat)));
        s
    }
}

/// The characters of a text, one by one.
pub fn chars_of(text: &str) -> (chars: Vec<char>)
    ensures
        chars@ == text@,
{
    broadcast use vstd::string::group_string_axioms;

    let mut chars: Vec<char> = Vec::new();
    let mut rest = text.chars();
    loop
        invariant
            rest.obeys_prophetic_iter_laws(),
            rest.decrease() is Some,
            chars@ + rest.remaining() == text@,
        ensures
            chars@ == text@,
        decreases rest.decrease()->0,
    {
        let ghost before = rest.remaining();
        match rest.next() {
            Some(c) => {
                chars.push(c);
                assert(chars@ + rest.remaining() =~= text@);
            },
            None => {
                assert(chars@ =~= chars@ + before);
                break ;
            },
        }
    }
    chars
}

/// A text ends with another when the other is what stands at its end.
pub open spec fn is_suffix(text: Seq<char>, suffix: Seq<char>) -> bool {
    suffix.len() <= text.len() && text.subrange(text.len() - suffix.len(), text.len() as int)
        == suffix
}

/// Whether a text ends with another.
pub fn ends_with(text: &str, suffix: &str) -> (b: bool)
    ensures
        b == is_suffix(text@, suffix@),
{
    let whole = chars_of(text);
    let end = chars_of(suffix);
    if end.len() > whole.len() {
        return false;
    }
    let offset = whole.len() - end.len();
    let mut index: usize = 0;
    while index < end.len()
        invariant
            index <= end@.len(),
            whole@ == text@,
            end@ == suffix@,
            offset + end@.len() == whole@.len(),
            whole@.len() <= usize::MAX,
            forall|i: int| 0 <= i < index ==> whole@[offset + i] == end@[i],
        decreases end@.len() - index,
    {
        if whole[offset + index] != end[index] {
            assert(whole@.subrange(offset as int, whole@.len() as int)[index as int]
                != end@[index as int]);
            return false;
        }
        index += 1;
    }
    assert(whole@.subrange(offset as int, whole@.len() as int) =~= end@);
    true
}

/// `str::parse` for `u8` of the standard library: the number that a text
/// writes, where it writes one that fits. The outcome depends on the text
/// alone.
#[verifier::external_body]
pub(crate) fn parse_number(text: &str) -> (r: Option<u8>)
    ensures
        r == number_of(text@),
{
    text.parse().ok()
}

/// The number that a text writes, as `str::parse` for `u8` reads it.
pub uninterp spec fn number_of(text: Seq<char>) -> Option<u8>;

} // verus!
