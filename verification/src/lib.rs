//! A home library of books: reading a book's details from the Bookvoed shop's
//! pages, preparing its cover, and building the statements that list and
//! search the collection.

pub mod covers;
pub mod html;
pub mod laws;
pub mod mapping_laws;
pub mod metadata;
pub mod parser;
pub mod queries;
pub mod structs;
pub mod text;
pub mod web_url;
