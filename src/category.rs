use vstd::prelude::*;

use crate::data::{has_name, position_of, CategorySet};
use crate::entry::{
    collect_hard_tags, collect_soft_tags, entry_of, Entry, EntryError, EntryFault, EntryModel,
};
use crate::json::{as_text, find_member, Json};

verus! {

/// What percent-decoding makes of a text: the decoded text, or nothing where
/// the decoded bytes are not UTF-8.
pub uninterp spec fn url_decoded(s: Seq<char>) -> Option<Seq<char>>;

/// Relies on urlencoding::decode: percent-decodes `s`, and fails where the
/// decoded bytes are not UTF-8. A text without `%` comes back unchanged.
#[verifier::external_body]
fn percent_decode(s: &str) -> (r: Option<String>)
    ensures
        r is None <==> url_decoded(s@) is None,
        r matches Some(d) ==> url_decoded(s@) == Some(d@),
        !s@.contains('%') ==> r is Some && r->0@ == s@,
{
    urlencoding::decode(s).ok().map(std::borrow::Cow::into_owned)
}

/// The name of a category as it stands in a route.
#[derive(Clone, Debug, PartialEq, Eq)]
pub struct Props {
    pub name: String,
}

/// What a category's content shows.
#[derive(Clone, Debug, PartialEq, Eq)]
pub enum EntryList {
    /// The content is not an array; it shows as a placeholder.
    NotAList,
    /// One outcome for each element of the array, in order.
    Entries(Vec<Result<Entry, EntryError>>),
}

/// The text shown in place of content that is not an array.
pub fn placeholder() -> (r: &'static str)
    ensures
        r@ == "#ERR"@,
{
    "#ERR"
}

/// `out` is what the element `item` at position `ix` of a category shows.
pub open spec fn shows_entry(ix: int, item: Json, out: Result<Entry, EntryError>) -> bool {
    match out {
        Ok(e) => e.index == ix && entry_of(item) == Ok::<EntryModel, EntryFault>(e@),
        Err(err) => err.index == ix && entry_of(item) == Err::<EntryModel, EntryFault>(err.fault),
    }
}

/// `list` is what the content of a category shows: an outcome for each
/// element of an array, and the placeholder for anything else.
pub open spec fn shows_list(content: Json, list: EntryList) -> bool {
    match content {
        Json::Array(items) => match list {
            EntryList::Entries(outs) => {
                &&& outs.len() == items.len()
                &&& forall|i: int| 0 <= i < items.len() ==> shows_entry(i, #[trigger] items@[i], outs@[i])
            },
            EntryList::NotAList => false,
        },
        _ => list is NotAList,
    }
}

/// `at` is where the category of the route parameter `name` stands in
/// `data`: nowhere where the name does not decode or names no category.
pub open spec fn located(name: Seq<char>, data: CategorySet, at: Option<usize>) -> bool {
    match url_decoded(name) {
        None => at is None,
        Some(d) => match at {
            None => !has_name(data.categories@, d),
            Some(i) => i < data.categories.len() && data.categories@[i as int].0@ == d,
        },
    }
}

/// What the page of a category shows.
pub enum CategoryPage {
    /// No category has this name: the page sends the visitor to "not found".
    NotFound,
    Show { name: String, entries: EntryList },
}

/// The page of one category.
pub struct Category {
    /// The category's name, percent-decoded.
    pub name: String,
    pub data: CategorySet,
    /// Where the category stands in `data`, if it is there.
    pub content: Option<usize>,
}

impl Category {
    /// The name of a route parameter, percent-decoded; where that fails, the
    /// parameter as it stands.
    pub fn decode_name(name: &str) -> (r: (String, bool))
        ensures
            r.1 <==> url_decoded(name@) is Some,
            r.1 ==> url_decoded(name@) == Some(r.0@),
            !r.1 ==> r.0@ == name@,
    {
        match percent_decode(name) {
            Some(d) => (d, true),
            None => (name.to_owned(), false),
        }
    }

    /// The content of the page, if the category exists.
    pub open spec fn document(&self) -> Option<Json> {
        match self.content {
            Some(i) => Some(self.data.categories@[i as int].1),
            None => None,
        }
    }

    /// The category's position, where there is one, lies within `data`.
    pub open spec fn wf(&self) -> bool {
        self.content matches Some(i) ==> i < self.data.categories.len()
    }

    pub fn create(props: &Props, data: CategorySet) -> (r: Category)
        ensures
            r.wf(),
            r.data == data,
            located(props.name@, data, r.content),
            url_decoded(props.name@) matches Some(d) ==> r.name@ == d,
            url_decoded(props.name@) is None ==> r.name@ == props.name@,
    {
        let (name, decoded) = Category::decode_name(props.name.as_str());
        let content = if decoded {
            position_of(&data.categories, &name)
        } else {
            None
        };
        Category { name, data, content }
    }

    /// Moves the page to the category of `props`; the set of categories stays.
    pub fn changed(&mut self, props: &Props) -> (r: bool)
        ensures
            r,
            final(self).wf(),
            final(self).data == old(self).data,
            located(props.name@, old(self).data, final(self).content),
            url_decoded(props.name@) matches Some(d) ==> final(self).name@ == d,
            url_decoded(props.name@) is None ==> final(self).name@ == props.name@,
    {
        let (name, decoded) = Category::decode_name(props.name.as_str());
        let content = if decoded {
            position_of(&self.data.categories, &name)
        } else {
            None
        };
        self.name = name;
        self.content = content;
        true
    }

    /// The page: "not found" where the category does not exist, and its
    /// name and entries otherwise.
    pub fn view(&self) -> (r: CategoryPage)
        requires
            self.wf(),
        ensures
            r is NotFound <==> self.content is None,
            r matches CategoryPage::Show { name, entries } ==> {
                &&& name@ == self.name@
                &&& shows_list(self.document()->0, entries)
            },
    {
        match self.content {
            None => CategoryPage::NotFound,
            Some(i) => CategoryPage::Show {
                name: self.name.clone(),
                entries: Category::view_entries(&self.data.categories[i].1),
            },
        }
    }

    /// The entries of a category's content: one outcome for each element of
    /// an array, in order; the placeholder for any other value.
    pub fn view_entries(content: &Json) -> (r: EntryList)
        ensures
            shows_list(*content, r),
    {
        match content {
            Json::Array(items) => {
                let mut outs: Vec<Result<Entry, EntryError>> = Vec::new();
                let mut i: usize = 0;
                while i < items.len()
                    invariant
                        i <= items.len(),
                        outs.len() == i,
                        forall|j: int| 0 <= j < i ==> shows_entry(j, #[trigger] items@[j], outs@[j]),
                    decreases items.len() - i,
                {
                    outs.push(Category::view_entry(i, &items[i]));
                    i = i + 1;
                }
                EntryList::Entries(outs)
            },
            _ => EntryList::NotAList,
        }
    }

    /// The element `item` at position `ix` of a category, validated: its
    /// title, link, labelled attributes and tags, or the first fault found.
    pub fn view_entry(ix: usize, item: &Json) -> (r: Result<Entry, EntryError>)
        ensures
            shows_entry(ix as int, *item, r),
    {
        let fields = match item {
            Json::Object(fields) => fields,
            _ => {
                return Err(EntryError { index: ix, fault: EntryFault::NotAnObject });
            },
        };
        let title = match find_member(fields, &"title".to_owned()) {
            None => {
                return Err(EntryError { index: ix, fault: EntryFault::MissingTitle });
            },
            Some(v) => match as_text(v) {
                Some(t) => t.clone(),
                None => {
                    return Err(EntryError { index: ix, fault: EntryFault::TitleNotString });
                },
            },
        };
        let link = match find_member(fields, &"link".to_owned()) {
            None => None,
            Some(v) => match as_text(v) {
                Some(l) => Some(l.clone()),
                None => {
                    return Err(EntryError { index: ix, fault: EntryFault::LinkNotString });
                },
            },
        };
        let soft_tags = match collect_soft_tags(fields) {
            Ok(tags) => tags,
            Err(fault) => {
                return Err(EntryError { index: ix, fault });
            },
        };
        let hard_tags = match find_member(fields, &"tags".to_owned()) {
            None => Vec::new(),
            Some(Json::Array(items)) => match collect_hard_tags(items) {
                Ok(tags) => tags,
                Err(fault) => {
                    return Err(EntryError { index: ix, fault });
                },
            },
            Some(_) => {
                return Err(EntryError { index: ix, fault: EntryFault::TagsNotArray });
            },
        };
        Ok(Entry { index: ix, title, link, soft_tags, hard_tags })
    }
}

} // verus!
