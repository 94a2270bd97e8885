use favorites::category::{Category, CategoryPage, EntryList, Props};
use favorites::data::{get_all_data, CategorySet};
use favorites::route::{switch, Page, Route};
use favorites::shell::{HtmlModel, Msg};

fn s(text: &str) -> String {
    String::from(text)
}

fn sample() -> CategorySet {
    let files = vec![
        (s("movies.json"), s(r#"[{"title": "M"}]"#)),
        (s("my books.json"), s("[]")),
        (s("Zines.json"), s("[]")),
        (s("anime.json"), s(r#"{"not": "an array"}"#)),
    ];
    get_all_data(&files).unwrap()
}

#[test]
fn unknown_category_routes_to_not_found() {
    let page = switch(Route::Category { name: s("unknown-category") }, sample());
    assert!(matches!(page, Page::NotFound));
}

#[test]
fn known_category_routes_to_its_page() {
    match switch(Route::Category { name: s("movies") }, sample()) {
        Page::Category(c, CategoryPage::Show { name, entries }) => {
            assert_eq!(name, "movies");
            assert_eq!(c.name, "movies");
            match entries {
                EntryList::Entries(outs) => assert_eq!(outs[0].clone().unwrap().title, "M"),
                EntryList::NotAList => panic!("expected entries"),
            }
        },
        _ => panic!("expected the category page"),
    }
}

#[test]
fn percent_encoded_name_is_decoded() {
    match switch(Route::Category { name: s("my%20books") }, sample()) {
        Page::Category(_, CategoryPage::Show { name, .. }) => assert_eq!(name, "my books"),
        _ => panic!("expected the category page"),
    }
}

#[test]
fn undecodable_name_routes_to_not_found() {
    let page = switch(Route::Category { name: s("%FF") }, sample());
    assert!(matches!(page, Page::NotFound));
}

#[test]
fn home_and_not_found_routes() {
    assert!(matches!(switch(Route::Home, sample()), Page::Home));
    assert!(matches!(switch(Route::NotFound, sample()), Page::NotFound));
}

#[test]
fn non_array_category_shows_placeholder() {
    let c = Category::create(&Props { name: s("anime") }, sample());
    match c.view() {
        CategoryPage::Show { entries, .. } => assert_eq!(entries, EntryList::NotAList),
        CategoryPage::NotFound => panic!("the category exists"),
    }
}

#[test]
fn changed_moves_to_another_category() {
    let mut c = Category::create(&Props { name: s("movies") }, sample());
    assert!(c.content.is_some());
    assert!(c.changed(&Props { name: s("nothing") }));
    assert!(c.content.is_none());
    assert!(matches!(c.view(), CategoryPage::NotFound));
    assert!(c.changed(&Props { name: s("Zines") }));
    assert_eq!(c.name, "Zines");
    assert!(matches!(c.view(), CategoryPage::Show { .. }));
}

#[test]
fn decode_name_keeps_plain_names() {
    assert_eq!(Category::decode_name("plain"), (s("plain"), true));
    assert_eq!(Category::decode_name("a%2Fb"), (s("a/b"), true));
    assert_eq!(Category::decode_name("%C3%A9t%C3%A9"), (s("été"), true));
    assert_eq!(Category::decode_name("%FF"), (s("%FF"), false));
}

#[test]
fn navbar_lists_names_sorted() {
    let model = HtmlModel::create(sample());
    assert!(!model.navbar_active);
    assert_eq!(
        model.category_names,
        vec![s("Zines"), s("anime"), s("movies"), s("my books")]
    );
}

#[test]
fn navbar_toggles_and_closes() {
    let mut model = HtmlModel::create(sample());
    assert!(model.update(Msg::ToggleNavbar));
    assert!(model.navbar_active);
    assert!(model.update(Msg::ToggleNavbar));
    assert!(!model.navbar_active);
    model.update(Msg::ToggleNavbar);
    assert!(model.update(Msg::CloseNavbar));
    assert!(!model.navbar_active);
    assert!(model.update(Msg::CloseNavbar));
    assert!(!model.navbar_active);
}
