use bookshelf::queries::{
    all_books_query_with_args, check_not_in_library, distinct_values_query, filter_column_names,
    from_filters_to_query_with_args, join_strings, make_placeholders, search_query_with_args,
};
use bookshelf::structs::{BookCard, Filters};

fn s(v: &[&str]) -> Vec<String> {
    v.iter().map(|x| x.to_string()).collect()
}

fn no_filters() -> Filters {
    Filters { status: None, publisher: None, series: None, binding: None, section: None }
}

#[test]
fn placeholders() {
    assert_eq!(make_placeholders(0), "");
    assert_eq!(make_placeholders(1), "(?)");
    assert_eq!(make_placeholders(3), "(?, ?, ?)");
}

#[test]
fn filters_make_condition_and_args() {
    let f = Filters {
        status: Some(s(&["Прочитано", "Читаю"])),
        publisher: Some(Vec::new()),
        series: None,
        binding: Some(s(&["Мягкий"])),
        section: None,
    };
    let (q, args) = from_filters_to_query_with_args(&f);
    assert_eq!(q, "status IN (?, ?) AND binding IN (?)");
    assert_eq!(args, vec!["Прочитано", "Читаю", "Мягкий"]);
    assert_eq!(q.matches('?').count(), args.len());
}

#[test]
fn no_filters_make_nothing() {
    let f = no_filters();
    let (q, args) = from_filters_to_query_with_args(&f);
    assert_eq!(q, "");
    assert!(args.is_empty());
}

#[test]
fn all_columns_filtered() {
    let f = Filters {
        status: Some(s(&["a"])),
        publisher: Some(s(&["b", "c"])),
        series: Some(s(&["d"])),
        binding: Some(s(&["e"])),
        section: Some(s(&["f", "g", "h"])),
    };
    let (q, args) = from_filters_to_query_with_args(&f);
    assert_eq!(
        q,
        "status IN (?) AND publisher IN (?, ?) AND series IN (?) AND binding IN (?) AND section IN (?, ?, ?)"
    );
    assert_eq!(args.len(), 8);
    assert_eq!(q.matches('?').count(), args.len());
}

#[test]
fn search_statement() {
    let q = search_query_with_args("Мастер", None, None, None);
    assert_eq!(
        q.sql,
        "SELECT id, isbn, title, author, status, cover_url FROM books WHERE (title_lower LIKE ?1 OR author_lower LIKE ?1) ORDER BY title ASC LIMIT ? OFFSET ?"
    );
    assert_eq!(q.args, vec!["%мастер%", "30", "0"]);
}

#[test]
fn search_statement_with_filters_and_paging() {
    let f = Filters { series: Some(s(&["Классика"])), ..no_filters() };
    let q = search_query_with_args("AB", Some(&f), Some(10), Some(20));
    assert_eq!(
        q.sql,
        "SELECT id, isbn, title, author, status, cover_url FROM books WHERE (title_lower LIKE ?1 OR author_lower LIKE ?1) AND series IN (?) ORDER BY title ASC LIMIT ? OFFSET ?"
    );
    assert_eq!(q.args, vec!["%ab%", "Классика", "10", "20"]);
    let q2 = search_query_with_args("x", Some(&no_filters()), None, Some(-1));
    assert_eq!(q2.args, vec!["%x%", "30", "-1"]);
    assert!(!q2.sql.contains(" AND "));
}

#[test]
fn all_books_statement() {
    let q = all_books_query_with_args(None, Some(5), None);
    assert_eq!(q.sql, "SELECT id, isbn, title, author, status, cover_url FROM books ORDER BY title ASC LIMIT ? OFFSET ?");
    assert_eq!(q.args, vec!["5", "0"]);
    let f = Filters { status: Some(s(&["x"])), ..no_filters() };
    let q = all_books_query_with_args(Some(&f), None, None);
    assert_eq!(
        q.sql,
        "SELECT id, isbn, title, author, status, cover_url FROM books WHERE status IN (?) ORDER BY title ASC LIMIT ? OFFSET ?"
    );
    assert_eq!(q.args, vec!["x", "30", "0"]);
    assert_eq!(q.sql.matches('?').count(), q.args.len());
}

#[test]
fn all_books_with_empty_filters_keeps_where() {
    let q = all_books_query_with_args(Some(&no_filters()), None, None);
    assert_eq!(
        q.sql,
        "SELECT id, isbn, title, author, status, cover_url FROM books WHERE  ORDER BY title ASC LIMIT ? OFFSET ?"
    );
    assert_eq!(q.args, vec!["30", "0"]);
}

#[test]
fn distinct_values_statement() {
    assert_eq!(
        distinct_values_query("series"),
        "SELECT DISTINCT series FROM books WHERE series IS NOT NULL AND series != '' ORDER BY series ASC"
    );
    assert_eq!(filter_column_names(), vec!["status", "publisher", "series", "binding", "section"]);
}

#[test]
fn join_with_separator() {
    assert_eq!(join_strings(&s(&["a", "b", "c"]), ", "), "a, b, c");
    assert_eq!(join_strings(&Vec::new(), ", "), "");
}

#[test]
fn stored_book_is_not_searched_again() {
    let card = BookCard {
        id: 1,
        isbn: "1".to_string(),
        title: "t".to_string(),
        author: "a".to_string(),
        status: "s".to_string(),
        cover_url: "c".to_string(),
    };
    assert_eq!(check_not_in_library(&Some(card)).unwrap_err(), "Это книга есть в базе данных!");
    assert!(check_not_in_library(&None).is_ok());
}

#[test]
fn search_keys_are_lower_case() {
    let (t, a) = bookshelf::queries::search_keys("Война и Мир", "Лев ТОЛСТОЙ");
    assert_eq!(t, "война и мир");
    assert_eq!(a, "лев толстой");
}

#[test]
fn search_statement_has_one_more_mark_than_values() {
    let f = Filters { status: Some(s(&["a", "b"])), section: Some(s(&["c"])), ..no_filters() };
    let q = search_query_with_args("x", Some(&f), None, None);
    assert_eq!(q.sql.matches('?').count(), q.args.len() + 1);
    let q = search_query_with_args("x", None, Some(1), Some(2));
    assert_eq!(q.sql.matches('?').count(), q.args.len() + 1);
}
