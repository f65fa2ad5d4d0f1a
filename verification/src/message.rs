//! Texts of the errors that the operations return.

use vstd::prelude::*;
use vstd::string::to_string_from_display_ensures;
use vstd::string::StringExecFns;

verus! {

/// `text` is `head` followed by `tail`, where `tail` is how the standard
/// library writes `idx`.
pub open spec fn is_index_message(text: Seq<char>, head: Seq<char>, idx: usize) -> bool {
    exists|digits: String| #[trigger]
        to_string_from_display_ensures::<usize>(&idx, digits) && text == head + digits@
}

/// The message that starts with `head` and ends with the number `idx`.
pub fn index_message(head: &str, idx: usize) -> (text: String)
    ensures
        is_index_message(text@, head@, idx),
{
    let digits = idx.to_string();
    let mut text = String::from_str(head);
    text.append(digits.as_str());
    text
}

/// The texts of `parts`, each with a space before it.
pub open spec fn spaced(parts: Seq<Seq<char>>) -> Seq<char>
    decreases parts.len(),
{
    if parts.len() == 0 {
        Seq::empty()
    } else {
        spaced(parts.drop_last()) + seq![' '] + parts.last()
    }
}

/// `format!` with `{:?}` from the standard library: the text that the
/// `Debug` of `T` writes for `value`. Nothing is claimed of that text.
#[verifier::external_body]
pub(crate) fn debug_text<T: std::fmt::Debug>(value: &T) -> (text: String) {
    format!("{:?}", value)
}

} // verus!
