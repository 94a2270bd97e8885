use vstd::prelude::*;

use crate::data::CategorySet;

verus! {

/// `a` comes no later than `b` in the order of `String`: compared character
/// by character by code point, a prefix first.
pub open spec fn text_le(a: Seq<char>, b: Seq<char>) -> bool
    decreases a.len(),
{
    if a.len() == 0 {
        true
    } else if b.len() == 0 {
        false
    } else if a[0] != b[0] {
        (a[0] as u32) < (b[0] as u32)
    } else {
        text_le(a.drop_first(), b.drop_first())
    }
}

/// Each name comes no later than every name after it.
pub open spec fn names_sorted(names: Seq<String>) -> bool {
    forall|i: int, j: int| 0 <= i < j < names.len() ==> text_le(#[trigger] names[i]@, #[trigger] names[j]@)
}

/// Relies on slice::sort over `String`s: the same names, reordered so that
/// each comes no later than the next in `String`'s order, which compares the
/// UTF-8 bytes and so the code points.
#[verifier::external_body]
fn sort_names(names: &mut Vec<String>)
    ensures
        final(names)@.to_multiset() == old(names)@.to_multiset(),
        names_sorted(final(names)@),
{
    names.sort()
}

/// What the visitor can do to the navigation panel.
#[derive(Clone, Copy, Debug, PartialEq, Eq, Structural)]
pub enum Msg {
    ToggleNavbar,
    CloseNavbar,
}

/// The site's frame: whether the navigation panel is open, the categories,
/// and their names in the order in which the panel lists them.
pub struct HtmlModel {
    pub navbar_active: bool,
    pub data: CategorySet,
    pub category_names: Vec<String>,
}

impl HtmlModel {
    /// The panel closed, and every category's name in order.
    pub fn create(data: CategorySet) -> (r: HtmlModel)
        ensures
            !r.navbar_active,
            r.data == data,
            r.category_names@.to_multiset() == data.categories@.map_values(
                |p: (String, crate::json::Json)| p.0,
            ).to_multiset(),
            names_sorted(r.category_names@),
    {
        let mut names: Vec<String> = Vec::new();
        let mut i: usize = 0;
        while i < data.categories.len()
            invariant
                i <= data.categories.len(),
                names@ == data.categories@.take(i as int).map_values(
                    |p: (String, crate::json::Json)| p.0,
                ),
            decreases data.categories.len() - i,
        {
            names.push(data.categories[i].0.clone());
            i = i + 1;
            assert(names@ =~= data.categories@.take(i as int).map_values(
                |p: (String, crate::json::Json)| p.0,
            ));
        }
        assert(data.categories@.take(i as int) =~= data.categories@);
        sort_names(&mut names);
        HtmlModel { navbar_active: false, data, category_names: names }
    }

    /// Opens or closes the panel; the result says that the frame is drawn anew.
    pub fn update(&mut self, msg: Msg) -> (r: bool)
        ensures
            r,
            final(self).navbar_active == match msg {
                Msg::ToggleNavbar => !old(self).navbar_active,
                Msg::CloseNavbar => false,
            },
            final(self).data == old(self).data,
            final(self).category_names == old(self).category_names,
    {
        match msg {
            Msg::ToggleNavbar => {
                self.navbar_active = !self.navbar_active;
            },
            Msg::CloseNavbar => {
                self.navbar_active = false;
            },
        }
        true
    }
}

} // verus!
