//! Small conversions between `str`, `String` and chars.

use vstd::prelude::*;

verus! {

broadcast use vstd::string::group_string_axioms;

/// Appends `character` to `s` with `String::push`.
/// Trusted: the string afterwards is the old one followed by `character`,
/// as the documentation of `String::push` says.
#[verifier::external_body]
pub(crate) fn push_char(s: &mut String, character: char)
    ensures
        final(s)@ == old(s)@.push(character),
{
    s.push(character);
}

/// The chars of `source`, in order.
pub fn collect_chars(source: &str) -> (chars: Vec<char>)
    ensures
        chars@ == source@,
{
    let mut chars: Vec<char> = Vec::new();
    for c in it: source.chars()
        invariant
            chars@ == it.history(),
    {
        chars.push(c);
    }
    chars
}

} // verus!
