use vstd::prelude::*;

verus! {

/// A book of the collection as the list views show it.
#[derive(Debug)]
pub struct BookCard {
    pub id: i32,
    pub isbn: String,
    pub title: String,
    pub author: String,
    pub status: String,
    pub cover_url: String,
}

/// A book of the collection with all its details.
#[derive(Debug)]
pub struct BookPage {
    pub id: i32,
    pub isbn: String,
    pub title: String,
    pub author: String,
    pub status: String,
    pub publisher: Option<String>,
    pub series: Option<String>,
    pub binding: Option<String>,
    pub page_count: Option<i32>,
    pub section: Option<String>,
    pub cover_url: String,
}

/// A book as read from the shop's pages, before it is stored.
#[derive(Debug)]
pub struct BookParse {
    pub url_page: String,
    pub isbn: String,
    pub title: String,
    pub author: String,
    pub publisher: Option<String>,
    pub series: Option<String>,
    pub binding: Option<String>,
    pub page_count: Option<String>,
    pub section: Option<String>,
    pub cover_url: String,
}

/// The values a search is restricted to, per column; `None` or an empty list
/// leaves the column free.
#[derive(Debug)]
pub struct Filters {
    pub status: Option<Vec<String>>,
    pub publisher: Option<Vec<String>>,
    pub series: Option<Vec<String>>,
    pub binding: Option<Vec<String>>,
    pub section: Option<Vec<String>>,
}

} // verus!
