//! Small text utilities shared by the menu modules.
use vstd::prelude::*;

verus! {

/// Compares two string slices character by character.
pub fn same_text(a: &str, b: &str) -> (r: bool)
    ensures
        r == (a@ == b@),
{
    let n = a.unicode_len();
    if n != b.unicode_len() {
        return false;
    }
    let mut i: usize = 0;
    while i < n
        invariant
            n == a@.len(),
            n == b@.len(),
            i <= n,
            forall|j: int| 0 <= j < i ==> a@[j] == b@[j],
        decreases n - i,
    {
        if a.get_char(i) != b.get_char(i) {
            return false;
        }
        i = i + 1;
    }
    assert(a@ =~= b@);
    true
}

/// What std's `str::to_lowercase` gives for a text.
pub uninterp spec fn lowercase_text(s: Seq<char>) -> Seq<char>;

/// What std's `str::to_uppercase` gives for a text.
pub uninterp spec fn uppercase_text(s: Seq<char>) -> Seq<char>;

/// What std's `char::to_uppercase` yields for a character, collected into a text.
pub uninterp spec fn uppercase_char(c: char) -> Seq<char>;

/// Whether a character has Unicode's `White_Space` property, which is what std's
/// `char::is_whitespace` and the `trim` methods of `str` test.
pub open spec fn is_white_space(c: char) -> bool {
    let n = c as u32;
    ||| 0x9 <= n <= 0xD
    ||| n == 0x20
    ||| n == 0x85
    ||| n == 0xA0
    ||| n == 0x1680
    ||| 0x2000 <= n <= 0x200A
    ||| n == 0x2028
    ||| n == 0x2029
    ||| n == 0x202F
    ||| n == 0x205F
    ||| n == 0x3000
}

/// A text without its leading whitespace.
pub open spec fn trimmed_start(s: Seq<char>) -> Seq<char>
    decreases s.len(),
{
    if s.len() > 0 && is_white_space(s[0]) {
        trimmed_start(s.drop_first())
    } else {
        s
    }
}

/// Calls std's `str::to_lowercase`.
///
/// Trusted: the result is what `lowercase_text` names for the text; Unicode's lowercase
/// mapping itself is not stated.
#[verifier::external_body]
pub(crate) fn to_lowercase(s: &str) -> (r: String)
    ensures
        r@ == lowercase_text(s@),
{
    s.to_lowercase()
}

/// Calls std's `str::to_uppercase`.
///
/// Trusted: the result is what `uppercase_text` names for the text; Unicode's uppercase
/// mapping itself is not stated.
#[verifier::external_body]
pub(crate) fn to_uppercase(s: &str) -> (r: String)
    ensures
        r@ == uppercase_text(s@),
{
    s.to_uppercase()
}

/// Calls std's `char::to_uppercase` and collects the characters it yields into a `String`.
///
/// Trusted: the result is what `uppercase_char` names for the character; which characters
/// the mapping yields is not stated.
#[verifier::external_body]
pub(crate) fn char_to_uppercase(c: char) -> (r: String)
    ensures
        r@ == uppercase_char(c),
{
    c.to_uppercase().collect::<String>()
}

/// Calls std's `str::trim_start`.
///
/// Trusted: as std documents, the result is the text without its leading characters of
/// Unicode's `White_Space` property.
#[verifier::external_body]
pub(crate) fn trim_start(s: &str) -> (r: &str)
    ensures
        r@ == trimmed_start(s@),
{
    s.trim_start()
}

/// Calls std's `String::push`.
///
/// Trusted: the character is added at the end, as std documents.
#[verifier::external_body]
pub(crate) fn push_char(s: &mut String, c: char)
    ensures
        final(s)@ == old(s)@.push(c),
{
    s.push(c)
}

/// A text with its first character replaced by what `char::to_uppercase` yields for it.
pub open spec fn uppercase_first(s: Seq<char>) -> Seq<char> {
    if s.len() == 0 {
        Seq::empty()
    } else {
        uppercase_char(s[0]) + s.subrange(1, s.len() as int)
    }
}

} // verus!
