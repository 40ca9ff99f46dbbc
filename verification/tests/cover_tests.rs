use bookshelf::covers::{
    copied_cover_name, cover_file_name, cover_source, decode_cover_data_url, mime_extension,
    CoverSource,
};
use bookshelf::web_url::replace_params_url;

#[test]
fn data_url_png_is_decoded() {
    let c = decode_cover_data_url("data:image/png;base64,aGVsbG8=", "123").unwrap();
    assert_eq!(c.file_name, "123.png");
    assert_eq!(c.bytes, b"hello".to_vec());
}

#[test]
fn data_url_extensions() {
    assert_eq!(mime_extension("data:image/jpeg;base64"), "jpg");
    assert_eq!(mime_extension("data:image/jpg;base64"), "jpg");
    assert_eq!(mime_extension("data:image/gif;base64"), "gif");
    assert_eq!(mime_extension("data:image/webp;base64"), "webp");
    assert_eq!(mime_extension("data:image/bmp;base64"), "jpg");
    let c = decode_cover_data_url("data:image/webp;base64,", "9").unwrap();
    assert_eq!(c.file_name, "9.webp");
    assert!(c.bytes.is_empty());
}

#[test]
fn data_url_needs_one_comma() {
    assert_eq!(decode_cover_data_url("data:image/png;base64", "1").unwrap_err(), "Неверный формат Data URL");
    assert_eq!(decode_cover_data_url("a,b,c", "1").unwrap_err(), "Неверный формат Data URL");
}

#[test]
fn data_url_bad_base64() {
    let e = decode_cover_data_url("data:image/png;base64,!!!!", "1").unwrap_err();
    assert!(e.starts_with("Ошибка декодирования base64: "));
    assert!(e.len() > "Ошибка декодирования base64: ".len());
}

#[test]
fn copied_names_keep_extension() {
    assert_eq!(copied_cover_name("/home/u/pics/cover.png", "42"), "42.png");
    assert_eq!(copied_cover_name("/home/u/pics/cover", "42"), "42.jpg");
    assert_eq!(copied_cover_name("/home/u/.hidden", "42"), "42.jpg");
    assert_eq!(copied_cover_name("archive.tar.gz", "42"), "42.gz");
    assert_eq!(cover_file_name("42", "jpg"), "42.jpg");
}

#[test]
fn cover_sources() {
    assert_eq!(cover_source("data:image/png;base64,xx").unwrap(), CoverSource::DataUrl);
    assert_eq!(cover_source("https://img/x.jpg").unwrap(), CoverSource::Download);
    assert_eq!(cover_source("http://img/x.jpg").unwrap(), CoverSource::LocalFile);
    assert_eq!(cover_source("/tmp/x.jpg").unwrap(), CoverSource::LocalFile);
    assert_eq!(cover_source("").unwrap_err(), "Не указана обложка");
}

#[test]
fn cover_size_is_fixed() {
    let u = replace_params_url("https://img.bookvoed.ru/c.jpg?width=100&height=150&q=a+b").unwrap();
    assert_eq!(u, "https://img.bookvoed.ru/c.jpg?width=300&height=400&q=a+b");
}

#[test]
fn cover_size_fix_is_idempotent() {
    let once = replace_params_url("https://x.ru/c.jpg?height=1&x=%D1%8F&width=2#f").unwrap();
    assert_eq!(once, "https://x.ru/c.jpg?height=400&x=%D1%8F&width=300#f");
    assert_eq!(replace_params_url(&once).unwrap(), once);
}

#[test]
fn cover_url_without_query_gets_empty_query() {
    assert_eq!(replace_params_url("https://x.ru/c.jpg").unwrap(), "https://x.ru/c.jpg?");
}

#[test]
fn cover_url_must_be_absolute() {
    assert_eq!(replace_params_url("//img/c.jpg").unwrap_err(), "relative URL without a base");
}
