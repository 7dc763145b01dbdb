//! The rules a name and an address must meet, and the lowercase form under
//! which two addresses count as the same.

use vstd::prelude::*;

verus! {

/// The characters that count as blank: the code points with the Unicode
/// property `White_Space`.
pub open spec fn is_whitespace(c: char) -> bool {
    let n: u32 = c as u32;
    ||| 0x09 <= n <= 0x0d
    ||| n == 0x20
    ||| n == 0x85
    ||| n == 0xa0
    ||| n == 0x1680
    ||| 0x2000 <= n <= 0x200a
    ||| n == 0x2028
    ||| n == 0x2029
    ||| n == 0x202f
    ||| n == 0x205f
    ||| n == 0x3000
}

/// The lowercase form of a text, as the standard library's
/// `str::to_lowercase` gives it: every character that has a lowercase form is
/// replaced by it. Two addresses name the same user exactly when their
/// lowercase forms are equal.
pub uninterp spec fn lowercase(text: Seq<char>) -> Seq<char>;

/// A name is acceptable when something is left of it once the blanks at both
/// ends are taken away, that is, when it holds a character that is not blank.
pub open spec fn acceptable_name(name: Seq<char>) -> bool {
    exists|i: int| 0 <= i < name.len() && !is_whitespace(#[trigger] name[i])
}

/// `at` is the place of the one `@` of `text`, with at least one character on
/// either side of it.
pub open spec fn splits_at(text: Seq<char>, at: int) -> bool {
    &&& 0 < at < text.len() - 1
    &&& text[at] == '@'
    &&& forall|j: int| 0 <= j < text.len() && j != at ==> #[trigger] text[j] != '@'
}

/// The basic shape of an address: a local part, one `@`, a domain; neither
/// part empty, and no blank anywhere.
pub open spec fn well_formed_address(text: Seq<char>) -> bool {
    &&& forall|i: int| 0 <= i < text.len() ==> !is_whitespace(#[trigger] text[i])
    &&& exists|at: int| splits_at(text, at)
}

/// Whether `c` is blank.
pub fn char_is_whitespace(c: char) -> (r: bool)
    ensures
        r == is_whitespace(c),
{
    let n: u32 = c as u32;
    (0x09 <= n && n <= 0x0d) || n == 0x20 || n == 0x85 || n == 0xa0 || n == 0x1680 || (0x2000 <= n
        && n <= 0x200a) || n == 0x2028 || n == 0x2029 || n == 0x202f || n == 0x205f || n == 0x3000
}

/// The lowercase form of `text`, the key under which an address is held.
///
/// Calls `str::to_lowercase` of the standard library. Believed, not proved:
/// the text returned is `lowercase(text@)`, which claims no more than that
/// equal texts give equal results.
#[verifier::external_body]
pub(crate) fn lowercased(text: &str) -> (key: String)
    ensures
        key@ == lowercase(text@),
{
    text.to_lowercase()
}

/// Whether `a` and `b` are the same address but for case.
pub fn same_address(a: &str, b: &str) -> (r: bool)
    ensures
        r == (lowercase(a@) == lowercase(b@)),
{
    let left = lowercased(a);
    let right = lowercased(b);
    left == right
}

/// Whether `name` may stand in a record.
pub fn is_acceptable_name(name: &str) -> (r: bool)
    ensures
        r == acceptable_name(name@),
{
    for c in it: name.chars()
        invariant
            it.seq() == name@,
            forall|j: int| 0 <= j < it.index() ==> is_whitespace(name@[j]),
    {
        if !char_is_whitespace(c) {
            assert(!is_whitespace(name@[it.index() as int]));
            return true;
        }
    }
    false
}

/// Whether `text` has the basic shape of an address.
pub fn is_well_formed_address(text: &str) -> (r: bool)
    ensures
        r == well_formed_address(text@),
{
    let mut seen_at = false;
    let mut local = false;
    let mut domain = false;
    let ghost mut at: int = 0;
    for c in it: text.chars()
        invariant
            it.seq() == text@,
            forall|j: int| 0 <= j < it.index() ==> !is_whitespace(text@[j]),
            !seen_at ==> !domain && local == (it.index() > 0) && forall|j: int|
                0 <= j < it.index() ==> text@[j] != '@',
            seen_at ==> 0 <= at < it.index() && text@[at] == '@' && local == (at > 0) && domain == (
            at < it.index() - 1) && forall|j: int|
                0 <= j < it.index() && j != at ==> text@[j] != '@',
    {
        if char_is_whitespace(c) {
            assert(is_whitespace(text@[it.index() as int]));
            return false;
        }
        if c == '@' {
            if seen_at {
                assert(text@[at] == '@' && text@[it.index() as int] == '@');
                return false;
            }
            seen_at = true;
            proof {
                at = it.index() as int;
            }
        } else if seen_at {
            domain = true;
        } else {
            local = true;
        }
    }
    let r = seen_at && local && domain;
    proof {
        if r {
            assert(splits_at(text@, at));
        } else {
            assert forall|k: int| !splits_at(text@, k) by {
                if seen_at && splits_at(text@, k) && k != at {
                    assert(text@[at] == '@');
                }
            }
        }
    }
    r
}

} // verus!
