use vstd::prelude::*;

use crate::category::{located, Category, CategoryPage, Props};
use crate::data::CategorySet;

verus! {

/// The places of the site: home at `/`, a category at `/<name>`, and "not
/// found" for anything else.
#[derive(Clone, Debug, PartialEq, Eq)]
pub enum Route {
    Home,
    Category { name: String },
    NotFound,
}

/// What the content area shows.
pub enum Page {
    Home,
    Category(Category, CategoryPage),
    NotFound,
}

/// The route shows "not found": it is that route, or it names no category
/// of `data`.
pub open spec fn leads_to_not_found(route: Route, data: CategorySet) -> bool {
    match route {
        Route::Home => false,
        Route::Category { name } => located(name@, data, None),
        Route::NotFound => true,
    }
}

/// The page of a route. A category that does not exist sends the visitor on
/// to "not found".
pub fn switch(route: Route, data: CategorySet) -> (r: Page)
    ensures
        r is Home <==> route is Home,
        r is NotFound <==> leads_to_not_found(route, data),
        r matches Page::Category(c, page) ==> {
            &&& route matches Route::Category { name } && located(name@, data, c.content)
            &&& c.data == data
            &&& c.wf()
            &&& page is Show
        },
{
    match route {
        Route::Home => Page::Home,
        Route::NotFound => Page::NotFound,
        Route::Category { name } => {
            let c = Category::create(&Props { name }, data);
            let page = c.view();
            match page {
                CategoryPage::NotFound => Page::NotFound,
                CategoryPage::Show { .. } => Page::Category(c, page),
            }
        },
    }
}

} // verus!
