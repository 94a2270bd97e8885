use favorites::category::{placeholder, Category, EntryList};
use favorites::data::get_all_data;
use favorites::entry::{hard_tag_label, soft_tag_label, Entry, EntryError, EntryFault, SoftTag};
use favorites::json::Json;

fn s(text: &str) -> String {
    String::from(text)
}

/// Parses one category's text through the loader and renders it.
fn render(text: &str) -> EntryList {
    let files = vec![(s("one.json"), s(text))];
    let set = get_all_data(&files).expect("valid JSON");
    assert_eq!(set.categories.len(), 1);
    Category::view_entries(&set.categories[0].1)
}

fn entries(text: &str) -> Vec<Result<Entry, EntryError>> {
    match render(text) {
        EntryList::Entries(outs) => outs,
        EntryList::NotAList => panic!("expected an array"),
    }
}

fn fault(text: &str) -> EntryFault {
    let outs = entries(text);
    assert_eq!(outs.len(), 1);
    match &outs[0] {
        Err(e) => {
            assert_eq!(e.index, 0);
            e.fault
        },
        Ok(_) => panic!("expected a fault"),
    }
}

#[test]
fn empty_array_gives_no_entries() {
    assert_eq!(render("[]"), EntryList::Entries(vec![]));
}

#[test]
fn title_without_link_has_no_link() {
    let outs = entries(r#"[{"title": "X"}]"#);
    let e = outs[0].clone().unwrap();
    assert_eq!(e.index, 0);
    assert_eq!(e.title, "X");
    assert_eq!(e.link, None);
    assert!(e.soft_tags.is_empty());
    assert!(e.hard_tags.is_empty());
}

#[test]
fn link_is_kept_exactly() {
    let outs = entries(r#"[{"title": "X", "link": "https://example.com"}]"#);
    let e = outs[0].clone().unwrap();
    assert_eq!(e.title, "X");
    assert_eq!(e.link, Some(s("https://example.com")));
}

#[test]
fn hard_tags_keep_their_order() {
    let outs = entries(r#"[{"title": "X", "tags": ["a", "b"]}]"#);
    let e = outs[0].clone().unwrap();
    assert_eq!(e.hard_tags, vec![s("a"), s("b")]);
    let labels: Vec<String> = e.hard_tags.iter().map(hard_tag_label).collect();
    assert_eq!(labels, vec![s("#a"), s("#b")]);
}

#[test]
fn unknown_key_is_ignored() {
    let outs = entries(r#"[{"title": "X", "publisher": "Y"}]"#);
    let e = outs[0].clone().unwrap();
    assert!(e.soft_tags.is_empty());
    assert!(e.hard_tags.is_empty());
    assert_eq!(e.link, None);
}

#[test]
fn object_content_shows_placeholder() {
    assert_eq!(render(r#"{"not": "an array"}"#), EntryList::NotAList);
    assert_eq!(placeholder(), "#ERR");
}

#[test]
fn scalar_content_shows_placeholder() {
    assert_eq!(render("42"), EntryList::NotAList);
    assert_eq!(render(r#""text""#), EntryList::NotAList);
}

#[test]
fn soft_tags_come_in_fixed_order() {
    let outs = entries(r#"[{"year": "1999", "title": "X", "network": "N", "author": "A"}]"#);
    let e = outs[0].clone().unwrap();
    assert_eq!(
        e.soft_tags,
        vec![(SoftTag::Author, s("A")), (SoftTag::Network, s("N")), (SoftTag::Year, s("1999"))]
    );
    assert_eq!(soft_tag_label(SoftTag::Author, &s("A")), "author: A");
    assert_eq!(soft_tag_label(SoftTag::Year, &s("1999")), "year: 1999");
    assert_eq!(SoftTag::Network.name(), "network");
}

#[test]
fn entries_keep_array_order_and_index() {
    let outs = entries(r#"[{"title": "first"}, 3, {"title": "third", "link": "l"}]"#);
    assert_eq!(outs.len(), 3);
    assert_eq!(outs[0].clone().unwrap().title, "first");
    assert_eq!(outs[1], Err(EntryError { index: 1, fault: EntryFault::NotAnObject }));
    let third = outs[2].clone().unwrap();
    assert_eq!(third.index, 2);
    assert_eq!(third.title, "third");
    assert_eq!(third.link, Some(s("l")));
}

#[test]
fn fault_not_an_object() {
    assert_eq!(fault(r#"["x"]"#), EntryFault::NotAnObject);
}

#[test]
fn fault_missing_title() {
    assert_eq!(fault(r#"[{"link": "l"}]"#), EntryFault::MissingTitle);
}

#[test]
fn fault_title_not_string() {
    assert_eq!(fault(r#"[{"title": 5}]"#), EntryFault::TitleNotString);
}

#[test]
fn fault_link_not_string() {
    assert_eq!(fault(r#"[{"title": "X", "link": true}]"#), EntryFault::LinkNotString);
}

#[test]
fn fault_soft_tag_not_string() {
    assert_eq!(
        fault(r#"[{"title": "X", "author": "A", "year": 1999}]"#),
        EntryFault::SoftTagNotString(SoftTag::Year)
    );
}

#[test]
fn fault_tags_not_array() {
    assert_eq!(fault(r#"[{"title": "X", "tags": "a"}]"#), EntryFault::TagsNotArray);
}

#[test]
fn fault_tag_not_string() {
    assert_eq!(fault(r#"[{"title": "X", "tags": ["a", "b", 3]}]"#), EntryFault::TagNotString(2));
}

#[test]
fn title_is_checked_before_link() {
    assert_eq!(fault(r#"[{"link": 1}]"#), EntryFault::MissingTitle);
}

#[test]
fn bad_entry_leaves_the_others() {
    let outs = entries(r#"[{"title": 1}, {"title": "ok"}]"#);
    assert_eq!(outs[0], Err(EntryError { index: 0, fault: EntryFault::TitleNotString }));
    assert_eq!(outs[1].clone().unwrap().title, "ok");
}

#[test]
fn entry_built_by_hand() {
    let item = Json::Object(vec![
        (s("title"), Json::Str(s("T"))),
        (s("tags"), Json::Array(vec![Json::Str(s("x"))])),
    ]);
    let e = Category::view_entry(4, &item).unwrap();
    assert_eq!(e.index, 4);
    assert_eq!(e.hard_tags, vec![s("x")]);
}
