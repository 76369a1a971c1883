use vstd::prelude::*;

use crate::text::law_trim_idempotent;
use crate::text::lowercased;
use crate::text::string_views;
use crate::text::to_lowercase;
use crate::text::trim;
use crate::text::trimmed;

verus! {

/// The form in which process names are compared: trimmed, then lowercased.
pub open spec fn normalized_process_name(name: Seq<char>) -> Seq<char> {
    lowercased(trimmed(name))
}

/// A process name in the form in which names are compared: without surrounding
/// white space, and in lowercase.
pub fn normalize_process_name(name: &str) -> (r: String)
    ensures
        r@ == normalized_process_name(name@),
{
    let t = trim(name);
    to_lowercase(t.as_str())
}

/// Process names are compared without their surrounding white space: a name and its
/// trimmed form normalize alike.
pub proof fn law_matching_ignores_surrounding_white_space(name: Seq<char>)
    ensures
        normalized_process_name(trimmed(name)) == normalized_process_name(name),
{
    law_trim_idempotent(name);
}

/// Each of `names` in normalized form, in order.
pub fn normalize_process_names(names: &[String]) -> (r: Vec<String>)
    ensures
        string_views(r@) == string_views(names@).map_values(
            |n: Seq<char>| normalized_process_name(n),
        ),
{
    let mut r: Vec<String> = Vec::new();
    let mut i: usize = 0;
    while i < names.len()
        invariant
            i <= names@.len(),
            r@.len() == i,
            forall|j: int| 0 <= j < i ==> #[trigger] r@[j]@ == normalized_process_name(names@[j]@),
        decreases names@.len() - i,
    {
        r.push(normalize_process_name(names[i].as_str()));
        i += 1;
    }
    assert(string_views(r@) =~= string_views(names@).map_values(
        |n: Seq<char>| normalized_process_name(n),
    ));
    r
}

} // verus!
