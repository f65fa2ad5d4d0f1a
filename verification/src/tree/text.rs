//! The tree written out in brackets, and the check of its structure, which
//! reports a fault with the text of the branch that has it.

use crate::message::spaced;
use crate::tree::TernaryTree;
use std::fmt::Display;
use vstd::prelude::*;
use vstd::string::to_string_from_display_ensures;
use vstd::string::StringExecFns;

verus! {

/// `text` is `item` as the standard library writes it.
pub open spec fn is_written<T: Display>(item: T, text: Seq<char>) -> bool {
    exists|written: String| #[trigger]
        to_string_from_display_ensures::<T>(&item, written) && written@ == text
}

/// The text of a branch of two: its children in round brackets, a space
/// between them.
pub open spec fn pair_text(left: Seq<char>, middle: Seq<char>) -> Seq<char> {
    seq!['('] + left + seq![' '] + middle + seq![')']
}

/// The text of a branch of three: its children in round brackets, a space
/// between each two.
pub open spec fn triple_text(left: Seq<char>, middle: Seq<char>, right: Seq<char>) -> Seq<char> {
    seq!['('] + left + seq![' '] + middle + seq![' '] + right + seq![')']
}

/// `head` followed by `tail`, as a string.
fn joined_text(head: &str, tail: &String) -> (text: String)
    ensures
        text@ == head@ + tail@,
{
    let mut text = String::from_str(head);
    text.append(tail.as_str());
    text
}

impl<T: Display> TernaryTree<T> {
    /// `text` is the tree written in brackets: a leaf as the standard
    /// library writes its element, a branch as its children in round
    /// brackets with a space between each two.
    pub open spec fn inline_text(self, text: Seq<char>) -> bool
        decreases self,
    {
        match self {
            TernaryTree::Leaf(value) => is_written(*value, text),
            TernaryTree::Branch2 { left, middle, .. } => exists|l: Seq<char>, m: Seq<char>|
                left.inline_text(l) && middle.inline_text(m) && text == #[trigger] pair_text(l, m),
            TernaryTree::Branch3 { left, middle, right, .. } => exists|
                l: Seq<char>,
                m: Seq<char>,
                r: Seq<char>,
            |
                left.inline_text(l) && middle.inline_text(m) && right.inline_text(r) && text
                    == #[trigger] triple_text(l, m, r),
        }
    }

    /// The tree written in brackets, as in `((1 2) 3 (4 5))`.
    pub fn format_inline(&self) -> (text: String)
        ensures
            self.inline_text(text@),
        decreases self,
    {
        match self {
            TernaryTree::Leaf(value) => (**value).to_string(),
            TernaryTree::Branch2 { left, middle, .. } => {
                let l = left.format_inline();
                let m = middle.format_inline();
                let mut text = String::from_str("(");
                text.append(l.as_str());
                text.append(" ");
                text.append(m.as_str());
                text.append(")");
                proof {
                    reveal_strlit("(");
                    reveal_strlit(" ");
                    reveal_strlit(")");
                    assert(text@ =~= pair_text(l@, m@));
                }
                text
            },
            TernaryTree::Branch3 { left, middle, right, .. } => {
                let l = left.format_inline();
                let m = middle.format_inline();
                let r = right.format_inline();
                let mut text = String::from_str("(");
                text.append(l.as_str());
                text.append(" ");
                text.append(m.as_str());
                text.append(" ");
                text.append(r.as_str());
                text.append(")");
                proof {
                    reveal_strlit("(");
                    reveal_strlit(" ");
                    reveal_strlit(")");
                    assert(text@ =~= triple_text(l@, m@, r@));
                }
                text
            },
        }
    }

    /// Checks the structure of the whole tree: that every branch records the
    /// sum of its children's sizes and one more than the largest of their
    /// depths. The answer is `Ok` for a well-formed tree and for no other.
    pub fn check_structure(&self) -> (res: Result<(), String>)
        ensures
            res is Ok <==> self.wf(),
        decreases self,
    {
        match self {
            TernaryTree::Leaf(_) => Ok(()),
            TernaryTree::Branch2 { size, depth, left, middle } => {
                let left_size = left.len();
                if left_size > *size || *size - left_size != middle.len() {
                    return Err(joined_text("Bad size at branch ", &self.format_inline()));
                }
                let deepest = if left.depth() >= middle.depth() {
                    left.depth()
                } else {
                    middle.depth()
                };
                if *depth == 0 || *depth - 1 != deepest {
                    return Err(joined_text("Bad depth at branch ", &self.format_inline()));
                }
                left.check_structure()?;
                middle.check_structure()?;
                Ok(())
            },
            TernaryTree::Branch3 { size, depth, left, middle, right } => {
                let left_size = left.len();
                let middle_size = middle.len();
                if left_size > *size || middle_size > *size - left_size || *size - left_size
                    - middle_size != right.len() {
                    return Err(joined_text("Bad size at branch ", &self.format_inline()));
                }
                let deeper = if left.depth() >= middle.depth() {
                    left.depth()
                } else {
                    middle.depth()
                };
                let deepest = if deeper >= right.depth() {
                    deeper
                } else {
                    right.depth()
                };
                if *depth == 0 || *depth - 1 != deepest {
                    return Err(joined_text("Bad depth at branch ", &self.format_inline()));
                }
                left.check_structure()?;
                middle.check_structure()?;
                right.check_structure()?;
                Ok(())
            },
        }
    }
}

/// `parts` are the elements of `items` as the standard library writes
/// them, one text for each element.
pub open spec fn are_written<T: Display>(items: Seq<T>, parts: Seq<Seq<char>>) -> bool {
    &&& parts.len() == items.len()
    &&& forall|i: int| 0 <= i < items.len() ==> is_written(items[i], #[trigger] parts[i])
}

impl<T: Display> TernaryTree<T> {
    /// The tree written as its kind and its elements in order, as in
    /// `(TernaryTree 1 2 3)`.
    pub fn to_string(&self) -> (text: String)
        ensures
            exists|parts: Seq<Seq<char>>|
                are_written(self@, parts) && text@ == "(TernaryTree"@ + #[trigger] spaced(parts)
                    + ")"@,
    {
        let items = self.to_refs();
        let mut text = String::from_str("(TernaryTree");
        let ghost mut parts: Seq<Seq<char>> = Seq::empty();
        let mut index: usize = 0;
        assert(text@ =~= "(TernaryTree"@ + spaced(parts));
        while index < items.len()
            invariant
                index <= items@.len(),
                items@.len() == self@.len(),
                forall|i: int| 0 <= i < self@.len() ==> *#[trigger] items@[i] == self@[i],
                are_written(self@.take(index as int), parts),
                text@ == "(TernaryTree"@ + spaced(parts),
            decreases items@.len() - index,
        {
            let part = items[index].to_string();
            text.append(" ");
            text.append(part.as_str());
            proof {
                reveal_strlit(" ");
                let longer = parts.push(part@);
                assert(longer.drop_last() =~= parts);
                assert(text@ =~= "(TernaryTree"@ + spaced(longer));
                assert forall|i: int| 0 <= i < index + 1 implies is_written(
                    self@.take(index + 1)[i],
                    #[trigger] longer[i],
                ) by {
                    if i < index {
                        assert(self@.take(index + 1)[i] == self@.take(index as int)[i]);
                        assert(longer[i] == parts[i]);
                    } else {
                        assert(self@.take(index + 1)[i] == *items@[index as int]);
                        assert(to_string_from_display_ensures::<T>(items@[index as int], part));
                    }
                }
                parts = longer;
            }
            index = index + 1;
        }
        proof {
            assert(self@.take(index as int) =~= self@);
        }
        text.append(")");
        text
    }
}

} // verus!
