use vstd::prelude::*;

use crate::json::{as_text, find_member, member, Json};

verus! {

/// The keys that an entry may carry as labelled attributes, in the order in
/// which they are shown.
#[derive(Clone, Copy, Debug, PartialEq, Eq, Structural)]
pub enum SoftTag {
    Author,
    Network,
    Year,
}

impl SoftTag {
    /// The member name that holds this attribute.
    pub open spec fn key(self) -> Seq<char> {
        match self {
            SoftTag::Author => "author"@,
            SoftTag::Network => "network"@,
            SoftTag::Year => "year"@,
        }
    }

    pub fn name(&self) -> (r: &'static str)
        ensures
            r@ == self.key(),
    {
        match self {
            SoftTag::Author => "author",
            SoftTag::Network => "network",
            SoftTag::Year => "year",
        }
    }
}

/// Why an entry could not be shown.
#[derive(Clone, Copy, Debug, PartialEq, Eq, Structural)]
pub enum EntryFault {
    NotAnObject,
    MissingTitle,
    TitleNotString,
    LinkNotString,
    /// The attribute is present but its value is not a string.
    SoftTagNotString(SoftTag),
    TagsNotArray,
    /// The tag at this position of `tags` is not a string.
    TagNotString(usize),
}

/// An entry that failed validation, with its position in the category.
#[derive(Clone, Copy, Debug, PartialEq, Eq, Structural)]
pub struct EntryError {
    pub index: usize,
    pub fault: EntryFault,
}

/// One validated entry, ready to be shown.
#[derive(Clone, Debug, PartialEq, Eq)]
pub struct Entry {
    /// Position of the entry in its category, from 0.
    pub index: usize,
    pub title: String,
    /// Where the title links to, if anywhere.
    pub link: Option<String>,
    /// Labelled attributes, in the order of `SoftTag`.
    pub soft_tags: Vec<(SoftTag, String)>,
    /// Free-form tags, in the order of the entry's `tags` array.
    pub hard_tags: Vec<String>,
}

/// What an entry shows, as plain values.
pub struct EntryModel {
    pub title: String,
    pub link: Option<String>,
    pub soft_tags: Seq<(SoftTag, String)>,
    pub hard_tags: Seq<String>,
}

impl View for Entry {
    type V = EntryModel;

    open spec fn view(&self) -> EntryModel {
        EntryModel {
            title: self.title,
            link: self.link,
            soft_tags: self.soft_tags@,
            hard_tags: self.hard_tags@,
        }
    }
}

/// The link of an entry: absent, or a string.
pub open spec fn link_of(fields: Seq<(String, Json)>) -> Result<Option<String>, EntryFault> {
    match member(fields, "link"@) {
        None => Ok(None),
        Some(Json::Str(l)) => Ok(Some(l)),
        Some(_) => Err(EntryFault::LinkNotString),
    }
}

/// Adds the attribute `t` of an entry to the attributes found so far.
pub open spec fn soft_step(
    fields: Seq<(String, Json)>,
    found: Result<Seq<(SoftTag, String)>, EntryFault>,
    t: SoftTag,
) -> Result<Seq<(SoftTag, String)>, EntryFault> {
    match found {
        Err(f) => Err(f),
        Ok(tags) => match member(fields, t.key()) {
            None => Ok(tags),
            Some(Json::Str(s)) => Ok(tags.push((t, s))),
            Some(_) => Err(EntryFault::SoftTagNotString(t)),
        },
    }
}

/// The labelled attributes of an entry, taken in the order author, network,
/// year; members with any other name are no attribute.
pub open spec fn soft_tags_of(fields: Seq<(String, Json)>) -> Result<
    Seq<(SoftTag, String)>,
    EntryFault,
> {
    let a = soft_step(fields, Ok(Seq::empty()), SoftTag::Author);
    let n = soft_step(fields, a, SoftTag::Network);
    soft_step(fields, n, SoftTag::Year)
}

/// The strings of a `tags` array in their order, or the position of the first
/// element that is not a string.
pub open spec fn hard_tags_of(items: Seq<Json>) -> Result<Seq<String>, EntryFault>
    decreases items.len(),
{
    if items.len() == 0 {
        Ok(Seq::empty())
    } else {
        match hard_tags_of(items.drop_last()) {
            Err(f) => Err(f),
            Ok(tags) => match items.last() {
                Json::Str(s) => Ok(tags.push(s)),
                _ => Err(EntryFault::TagNotString((items.len() - 1) as usize)),
            },
        }
    }
}

/// The free-form tags of an entry: none without a `tags` member.
pub open spec fn tags_of(fields: Seq<(String, Json)>) -> Result<Seq<String>, EntryFault> {
    match member(fields, "tags"@) {
        None => Ok(Seq::empty()),
        Some(Json::Array(items)) => hard_tags_of(items@),
        Some(_) => Err(EntryFault::TagsNotArray),
    }
}

/// What the members of an entry object show: checked in the order title,
/// link, attributes, tags, the first failure deciding the fault.
pub open spec fn entry_of_fields(fields: Seq<(String, Json)>) -> Result<EntryModel, EntryFault> {
    match member(fields, "title"@) {
        None => Err(EntryFault::MissingTitle),
        Some(Json::Str(title)) => match link_of(fields) {
            Err(f) => Err(f),
            Ok(link) => match soft_tags_of(fields) {
                Err(f) => Err(f),
                Ok(soft_tags) => match tags_of(fields) {
                    Err(f) => Err(f),
                    Ok(hard_tags) => Ok(EntryModel { title, link, soft_tags, hard_tags }),
                },
            },
        },
        Some(_) => Err(EntryFault::TitleNotString),
    }
}

/// What an element of a category shows.
pub open spec fn entry_of(item: Json) -> Result<EntryModel, EntryFault> {
    match item {
        Json::Object(fields) => entry_of_fields(fields@),
        _ => Err(EntryFault::NotAnObject),
    }
}

/// Once a prefix of a `tags` array holds an element that is not a string, so
/// does the whole array, at the same position.
proof fn lemma_hard_tags_fault_stays(items: Seq<Json>, n: int)
    requires
        0 <= n <= items.len(),
        hard_tags_of(items.take(n)) is Err,
    ensures
        hard_tags_of(items) == hard_tags_of(items.take(n)),
    decreases items.len() - n,
{
    if n < items.len() {
        assert(items.take(n + 1).drop_last() =~= items.take(n));
        lemma_hard_tags_fault_stays(items, n + 1);
    } else {
        assert(items.take(n) =~= items);
    }
}

/// Adds the attribute `tag` of an entry, if present, to `found`.
pub fn collect_soft_tag(
    fields: &Vec<(String, Json)>,
    tag: SoftTag,
    found: &mut Vec<(SoftTag, String)>,
) -> (r: Result<(), EntryFault>)
    ensures
        match r {
            Ok(()) => soft_step(fields@, Ok(old(found)@), tag) == Ok::<
                Seq<(SoftTag, String)>,
                EntryFault,
            >(final(found)@),
            Err(f) => soft_step(fields@, Ok(old(found)@), tag) == Err::<
                Seq<(SoftTag, String)>,
                EntryFault,
            >(f),
        },
{
    let key = tag.name().to_owned();
    match find_member(fields, &key) {
        None => Ok(()),
        Some(v) => match as_text(v) {
            Some(s) => {
                found.push((tag, s.clone()));
                Ok(())
            },
            None => Err(EntryFault::SoftTagNotString(tag)),
        },
    }
}

/// The labelled attributes of an entry.
pub fn collect_soft_tags(fields: &Vec<(String, Json)>) -> (r: Result<Vec<(SoftTag, String)>, EntryFault>)
    ensures
        match r {
            Ok(tags) => soft_tags_of(fields@) == Ok::<Seq<(SoftTag, String)>, EntryFault>(tags@),
            Err(f) => soft_tags_of(fields@) == Err::<Seq<(SoftTag, String)>, EntryFault>(f),
        },
{
    let mut found: Vec<(SoftTag, String)> = Vec::new();
    collect_soft_tag(fields, SoftTag::Author, &mut found)?;
    collect_soft_tag(fields, SoftTag::Network, &mut found)?;
    collect_soft_tag(fields, SoftTag::Year, &mut found)?;
    Ok(found)
}

/// The strings of a `tags` array, in order.
pub fn collect_hard_tags(items: &Vec<Json>) -> (r: Result<Vec<String>, EntryFault>)
    ensures
        match r {
            Ok(tags) => hard_tags_of(items@) == Ok::<Seq<String>, EntryFault>(tags@),
            Err(f) => hard_tags_of(items@) == Err::<Seq<String>, EntryFault>(f),
        },
{
    let mut tags: Vec<String> = Vec::new();
    let mut i: usize = 0;
    assert(items@.take(0) =~= Seq::<Json>::empty());
    while i < items.len()
        invariant
            i <= items.len(),
            hard_tags_of(items@.take(i as int)) == Ok::<Seq<String>, EntryFault>(tags@),
        decreases items.len() - i,
    {
        assert(items@.take(i + 1).drop_last() =~= items@.take(i as int));
        match as_text(&items[i]) {
            Some(s) => {
                tags.push(s.clone());
            },
            None => {
                proof {
                    lemma_hard_tags_fault_stays(items@, i + 1);
                }
                return Err(EntryFault::TagNotString(i));
            },
        }
        i = i + 1;
    }
    assert(items@.take(i as int) =~= items@);
    Ok(tags)
}

/// The text of an attribute's chip: `key: value`.
pub fn soft_tag_label(tag: SoftTag, value: &String) -> (r: String)
    ensures
        r@ == tag.key() + ": "@ + value@,
{
    let mut label = tag.name().to_owned();
    label.append(": ");
    label.append(value.as_str());
    label
}

/// The text of a tag's chip: the tag after `#`.
pub fn hard_tag_label(tag: &String) -> (r: String)
    ensures
        r@ == "#"@ + tag@,
{
    let mut label = "#".to_owned();
    label.append(tag.as_str());
    label
}

/// A member whose name is not `key` does not change what `key` finds.
proof fn lemma_member_skips(fields: Seq<(String, Json)>, i: int, other: (String, Json), key: Seq<char>)
    requires
        0 <= i <= fields.len(),
        other.0@ != key,
    ensures
        member(fields.insert(i, other), key) == member(fields, key),
    decreases i,
{
    if i > 0 {
        assert(fields.insert(i, other).drop_first() =~= fields.drop_first().insert(i - 1, other));
        lemma_member_skips(fields.drop_first(), i - 1, other, key);
    } else {
        assert(fields.insert(i, other).drop_first() =~= fields);
    }
}

/// A member under any name but `title`, `link`, `tags`, `author`, `network`
/// and `year` changes nothing that an entry shows: it is no attribute, no tag
/// and no fault.
pub proof fn lemma_unknown_member_ignored(
    fields: Seq<(String, Json)>,
    i: int,
    name: String,
    value: Json,
)
    requires
        0 <= i <= fields.len(),
        name@ != "title"@,
        name@ != "link"@,
        name@ != "tags"@,
        name@ != "author"@,
        name@ != "network"@,
        name@ != "year"@,
    ensures
        entry_of_fields(fields.insert(i, (name, value))) == entry_of_fields(fields),
{
    let other = (name, value);
    lemma_member_skips(fields, i, other, "title"@);
    lemma_member_skips(fields, i, other, "link"@);
    lemma_member_skips(fields, i, other, "tags"@);
    lemma_member_skips(fields, i, other, SoftTag::Author.key());
    lemma_member_skips(fields, i, other, SoftTag::Network.key());
    lemma_member_skips(fields, i, other, SoftTag::Year.key());
}

/// The member names that an entry reads differ from each other.
proof fn lemma_member_names_differ()
    ensures
        "title"@ != "link"@,
        "title"@ != "tags"@,
        "title"@ != "author"@,
        "title"@ != "network"@,
        "title"@ != "year"@,
        "link"@ != "tags"@,
        "link"@ != "author"@,
        "link"@ != "network"@,
        "link"@ != "year"@,
{
    reveal_strlit("title");
    reveal_strlit("link");
    reveal_strlit("tags");
    reveal_strlit("author");
    reveal_strlit("network");
    reveal_strlit("year");
    assert("title"@.len() == 5);
    assert("link"@.len() == 4);
    assert("tags"@[0] != "link"@[0]);
    assert("year"@[0] != "link"@[0]);
    assert("author"@.len() == 6);
    assert("network"@.len() == 7);
}

/// An entry whose only member is a string `title` shows that title with no
/// link, no attributes and no tags.
pub proof fn lemma_title_only(key: String, title: String)
    requires
        key@ == "title"@,
    ensures
        entry_of_fields(seq![(key, Json::Str(title))]) == Ok::<EntryModel, EntryFault>(
            EntryModel {
                title,
                link: None,
                soft_tags: Seq::empty(),
                hard_tags: Seq::empty(),
            },
        ),
{
    let fields = seq![(key, Json::Str(title))];
    lemma_member_names_differ();
    assert(fields.drop_first() =~= Seq::<(String, Json)>::empty());
    assert(fields[0].0@ == "title"@);
    assert forall|k: Seq<char>| k != "title"@ implies #[trigger] member(fields, k) is None by {
        assert(member(fields, k) == member(fields.drop_first(), k));
    }
}

/// An entry with a string `title` and a string `link` links its title to
/// exactly that link.
pub proof fn lemma_title_and_link(title_key: String, title: String, link_key: String, link: String)
    requires
        title_key@ == "title"@,
        link_key@ == "link"@,
    ensures
        entry_of_fields(seq![(title_key, Json::Str(title)), (link_key, Json::Str(link))])
            == Ok::<EntryModel, EntryFault>(
            EntryModel {
                title,
                link: Some(link),
                soft_tags: Seq::empty(),
                hard_tags: Seq::empty(),
            },
        ),
{
    let fields = seq![(title_key, Json::Str(title)), (link_key, Json::Str(link))];
    let tail = fields.drop_first();
    lemma_member_names_differ();
    assert(tail =~= seq![(link_key, Json::Str(link))]);
    assert(tail.drop_first() =~= Seq::<(String, Json)>::empty());
    assert(fields[0].0@ == "title"@);
    assert(tail[0].0@ == "link"@);
    assert forall|k: Seq<char>| k != "link"@ implies #[trigger] member(tail, k) is None by {
        assert(member(tail, k) == member(tail.drop_first(), k));
    }
    assert forall|k: Seq<char>| k != "title"@ implies #[trigger] member(fields, k) == member(tail, k) by {}
}

/// A `tags` array of strings gives exactly those strings as tags, in their
/// order.
pub proof fn lemma_hard_tags_in_order(items: Seq<Json>)
    requires
        forall|i: int| 0 <= i < items.len() ==> #[trigger] items[i] is Str,
    ensures
        hard_tags_of(items) == Ok::<Seq<String>, EntryFault>(
            items.map_values(|j: Json| j->Str_0),
        ),
    decreases items.len(),
{
    if items.len() > 0 {
        let front = items.drop_last();
        assert forall|i: int| 0 <= i < front.len() implies #[trigger] front[i] is Str by {
            assert(front[i] == items[i]);
        }
        lemma_hard_tags_in_order(front);
        assert(items[items.len() - 1] is Str);
        assert(front.map_values(|j: Json| j->Str_0).push(items.last()->Str_0) =~= items.map_values(
            |j: Json| j->Str_0,
        ));
    } else {
        assert(items.map_values(|j: Json| j->Str_0) =~= Seq::<String>::empty());
    }
}

} // verus!
