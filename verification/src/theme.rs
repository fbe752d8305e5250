//! The built-in colour themes, by name. The colours themselves belong to the
//! terminal front end; this module knows the names and their order.

use vstd::prelude::*;
use crate::text::same_text;

verus! {

/// The names of the built-in themes, in picker order.
pub open spec fn theme_list() -> Seq<Seq<char>> {
    seq!["slack"@, "dracula"@, "gruvbox"@, "catppuccin"@, "tokyo-night"@]
}

/// The names of the built-in themes, in picker order.
pub fn theme_names() -> (r: Vec<&'static str>)
    ensures
        r@.map_values(|s: &str| s@) == theme_list(),
{
    let r = vec!["slack", "dracula", "gruvbox", "catppuccin", "tokyo-night"];
    assert(r@.map_values(|s: &str| s@) =~= theme_list());
    r
}

/// The position of the theme called `name`, or 0 (the first theme) for an
/// unknown name.
pub fn theme_index(name: &str) -> (r: usize)
    ensures
        r < theme_list().len(),
        (exists|i: int| 0 <= i < theme_list().len() && theme_list()[i] == name@) ==> theme_list()[r as int]
            == name@ && forall|j: int| 0 <= j < r ==> theme_list()[j] != name@,
        !(exists|i: int| 0 <= i < theme_list().len() && theme_list()[i] == name@) ==> r == 0,
{
    let names = theme_names();
    let mut i: usize = 0;
    while i < names.len()
        invariant
            names@.map_values(|s: &str| s@) == theme_list(),
            i <= names@.len(),
            forall|j: int| 0 <= j < i ==> theme_list()[j] != name@,
        decreases names.len() - i,
    {
        assert(names@.map_values(|s: &str| s@)[i as int] == names@[i as int]@);
        if same_text(names[i], name) {
            return i;
        }
        i = i + 1;
    }
    0
}

} // verus!
