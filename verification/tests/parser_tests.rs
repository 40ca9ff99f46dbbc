use bookshelf::metadata::{metadata_from_rows, Metadata};
use bookshelf::parser::{
    book_from_parts, catalog_entry, catalog_search_url, cover_image_url, parse_bookvoed_book,
    parse_catalog_page, parse_metadata_table, parse_url_image,
};

const CATALOG: &str = r#"<html><body>
<div class="product">
  <a class="product-description__link" href="/book/12345">Мастер и Маргарита</a>
</div>
<div class="product">
  <a class="product-description__link" href="/book/999">Другая книга</a>
</div>
</body></html>"#;

const BOOK: &str = r#"<html><body>
<img class="product-preview__big-img" src="//img.bookvoed.ru/cover.jpg?width=100&height=150">
<table class="product-characteristics-full__table">
  <tr class="product-characteristics-full__row">
    <th class="product-characteristics-full__cell-th"> Автор </th>
    <td class="product-characteristics-full__cell-td">
       Булгаков
       Михаил   Афанасьевич
    </td>
  </tr>
  <tr class="product-characteristics-full__row">
    <th class="product-characteristics-full__cell-th">Издательство</th>
    <td class="product-characteristics-full__cell-td"><a>АСТ</a></td>
  </tr>
  <tr class="product-characteristics-full__row">
    <th class="product-characteristics-full__cell-th">Серия</th>
    <td class="product-characteristics-full__cell-td">   </td>
  </tr>
  <tr class="product-characteristics-full__row">
    <th class="product-characteristics-full__cell-th">Кол-во страниц</th>
    <td class="product-characteristics-full__cell-td">480</td>
  </tr>
  <tr class="product-characteristics-full__row">
    <td class="product-characteristics-full__cell-td">без заголовка</td>
  </tr>
</table>
</body></html>"#;

#[test]
fn search_url_for_isbn() {
    assert_eq!(
        catalog_search_url("978-5-17-090630-7"),
        "https://bookvoed.ru/search?q=978-5-17-090630-7"
    );
}

#[test]
fn catalog_page_gives_first_book() {
    let (title, url) = parse_catalog_page(CATALOG).unwrap();
    assert_eq!(title, "Мастер и Маргарита");
    assert_eq!(url, "https://bookvoed.ru/book/12345");
}

#[test]
fn catalog_page_without_book() {
    let r = parse_catalog_page("<html><body><p>Ничего не найдено</p></body></html>");
    assert_eq!(r.unwrap_err(), "Книга не найдена.");
}

#[test]
fn catalog_link_without_text() {
    let r = parse_catalog_page(r#"<a class="product-description__link" href="/b"></a>"#);
    assert_eq!(r.unwrap_err(), "Название не было получено");
}

#[test]
fn catalog_link_without_href() {
    let r = parse_catalog_page(r#"<a class="product-description__link">Книга</a>"#);
    assert_eq!(r.unwrap_err(), "Атрибут href не найден.");
}

#[test]
fn catalog_entry_from_texts() {
    let texts = vec!["T".to_string(), "rest".to_string()];
    assert_eq!(
        catalog_entry(&texts, Some("/x".to_string())).unwrap(),
        ("T".to_string(), "https://bookvoed.ru/x".to_string())
    );
    assert_eq!(catalog_entry(&Vec::new(), Some("/x".to_string())).unwrap_err(), "Название не было получено");
    assert_eq!(catalog_entry(&texts, None).unwrap_err(), "Атрибут href не найден.");
}

#[test]
fn cover_url_gets_scheme() {
    assert_eq!(parse_url_image(BOOK).unwrap(), "https://img.bookvoed.ru/cover.jpg?width=100&height=150");
    assert_eq!(cover_image_url(Some("//a/b".to_string())).unwrap(), "https://a/b");
    assert_eq!(cover_image_url(None).unwrap_err(), "Атрибут src не найден.");
}

#[test]
fn cover_missing() {
    assert_eq!(parse_url_image("<html></html>").unwrap_err(), "URL Книги не найдена.");
    assert_eq!(
        parse_url_image(r#"<img class="product-preview__big-img">"#).unwrap_err(),
        "Атрибут src не найден."
    );
}

#[test]
fn metadata_table_entries_are_clean() {
    let m = parse_metadata_table(BOOK).unwrap();
    assert_eq!(m.get("Автор").unwrap(), "Булгаков Михаил Афанасьевич");
    assert_eq!(m.get("Издательство").unwrap(), "АСТ");
    assert_eq!(m.get("Кол-во страниц").unwrap(), "480");
    assert_eq!(m.get("Серия"), None);
    assert_eq!(m.get("без заголовка"), None);
}

#[test]
fn metadata_table_missing() {
    assert_eq!(
        parse_metadata_table("<html><body></body></html>").unwrap_err(),
        "Таблица с характеристиками не найдена"
    );
}

#[test]
fn metadata_table_empty() {
    let html = r#"<table class="product-characteristics-full__table">
      <tr class="product-characteristics-full__row">
        <th class="product-characteristics-full__cell-th">Серия</th>
        <td class="product-characteristics-full__cell-td"> </td>
      </tr></table>"#;
    assert_eq!(parse_metadata_table(html).unwrap_err(), "Таблица пуста или не содержит данных");
}

#[test]
fn metadata_from_rows_later_rows_win() {
    let rows = vec![
        (Some(vec![" A ".to_string()]), Some(vec!["x".to_string(), "  y".to_string()])),
        (None, Some(vec!["lost".to_string()])),
        (Some(vec!["A".to_string()]), Some(vec![" z  z ".to_string()])),
        (Some(vec!["B".to_string()]), None),
    ];
    let m = metadata_from_rows(&rows).unwrap();
    assert_eq!(m.get("A").unwrap(), "z z");
    assert_eq!(m.get("B"), None);
    assert!(!m.is_empty());
    assert_eq!(metadata_from_rows(&Vec::new()).unwrap_err(), "Таблица пуста или не содержит данных");
}

#[test]
fn metadata_read_after_write() {
    let mut m = Metadata::new();
    assert!(m.is_empty());
    m.insert("k".to_string(), "1".to_string());
    m.insert("j".to_string(), "2".to_string());
    m.insert("k".to_string(), "3".to_string());
    assert_eq!(m.get("k").unwrap(), "3");
    assert_eq!(m.get("j").unwrap(), "2");
    assert_eq!(m.get("x"), None);
}

#[test]
fn whole_book_is_read() {
    let b = parse_bookvoed_book("9785170906307", CATALOG, BOOK).unwrap();
    assert_eq!(b.isbn, "9785170906307");
    assert_eq!(b.title, "Мастер и Маргарита");
    assert_eq!(b.url_page, "https://bookvoed.ru/book/12345");
    assert_eq!(b.author, "Булгаков Михаил Афанасьевич");
    assert_eq!(b.publisher.as_deref(), Some("АСТ"));
    assert_eq!(b.series, None);
    assert_eq!(b.binding, None);
    assert_eq!(b.page_count.as_deref(), Some("480"));
    assert_eq!(b.section, None);
    assert_eq!(b.cover_url, "https://img.bookvoed.ru/cover.jpg?width=100&height=150");
}

#[test]
fn book_without_author() {
    let mut m = Metadata::new();
    m.insert("Серия".to_string(), "Классика".to_string());
    let r = book_from_parts("1", "T".to_string(), "u".to_string(), "c".to_string(), &m);
    assert_eq!(r.err().unwrap(), "Автор не найден.");
}

#[test]
fn book_errors_come_in_order() {
    assert_eq!(parse_bookvoed_book("1", "<p></p>", BOOK).err().unwrap(), "Книга не найдена.");
    assert_eq!(parse_bookvoed_book("1", CATALOG, "<p></p>").err().unwrap(), "URL Книги не найдена.");
}
