use vstd::prelude::*;

use crate::html::{
    document_match_count, element_attr, element_attribute, element_match_count, element_text_nodes,
    element_texts, parse_document, parse_selector, select_in_document, select_in_element,
    selector_parse_failure, Step,
};
use crate::metadata::{metadata_from_rows, row_texts_view, spec_metadata_from_rows, Metadata, RowTexts};
use crate::structs::BookParse;
use crate::text::{concat2, copy_str};

verus! {

/// The address of the book shop.
pub const DOMEN: &'static str = "https://bookvoed.ru";

/// The text of the shop's address.
pub open spec fn domen() -> Seq<char> {
    "https://bookvoed.ru"@
}

/// The address of the shop's search page for an ISBN.
pub open spec fn spec_catalog_search_url(isbn: Seq<char>) -> Seq<char> {
    domen() + "/search?q="@ + isbn
}

/// The address of the shop's search page for an ISBN.
pub fn catalog_search_url(isbn: &str) -> (url: String)
    ensures
        url@ == spec_catalog_search_url(isbn@),
{
    let mut url = String::new();
    url.append(DOMEN);
    url.append("/search?q=");
    url.append(isbn);
    url
}

// ---------------------------------------------------------------------------
// The search page
// ---------------------------------------------------------------------------

/// The selector of the link to a found book on the search page.
pub open spec fn book_link_selector() -> Seq<char> {
    "a.product-description__link"@
}

/// What the found link gives: the book's title (the link's first text) and
/// the absolute address of its page (the shop's address followed by `href`).
pub open spec fn spec_catalog_entry(texts: Seq<Seq<char>>, href: Option<Seq<char>>) -> Result<
    (Seq<char>, Seq<char>),
    Seq<char>,
> {
    if texts.len() == 0 {
        Err("Название не было получено"@)
    } else {
        match href {
            None => Err("Атрибут href не найден."@),
            Some(h) => Ok((texts[0], domen() + h)),
        }
    }
}

/// Reads the title and the page address from the texts and `href` of the
/// found link.
pub fn catalog_entry(texts: &Vec<String>, href: Option<String>) -> (r: Result<
    (String, String),
    String,
>)
    ensures
        match r {
            Ok(p) => spec_catalog_entry(texts@.map_values(|t: String| t@), opt_view(href))
                == Ok::<(Seq<char>, Seq<char>), Seq<char>>((p.0@, p.1@)),
            Err(e) => spec_catalog_entry(
                texts@.map_values(|t: String| t@),
                opt_view(href),
            ) == Err::<(Seq<char>, Seq<char>), Seq<char>>(e@),
        },
{
    if texts.len() == 0 {
        return Err(copy_str("Название не было получено"));
    }
    match href {
        None => Err(copy_str("Атрибут href не найден.")),
        Some(h) => Ok((copy_str(texts[0].as_str()), concat2(DOMEN, h.as_str()))),
    }
}

/// What the search page gives: the title and the page address of the first
/// book it links to.
pub open spec fn spec_parse_catalog_page(html: Seq<char>) -> Result<
    (Seq<char>, Seq<char>),
    Seq<char>,
> {
    let sel = book_link_selector();
    match selector_parse_failure(sel) {
        Some(m) => Err(m),
        None => if document_match_count(html, sel) == 0 {
            Err("Книга не найдена."@)
        } else {
            let p = seq![(sel, 0nat)];
            spec_catalog_entry(element_text_nodes(html, p), element_attribute(html, p, "href"@))
        },
    }
}

/// Finds the first book on the shop's search page.
pub fn parse_catalog_page(html: &str) -> (r: Result<(String, String), String>)
    ensures
        match r {
            Ok(p) => spec_parse_catalog_page(html@) == Ok::<(Seq<char>, Seq<char>), Seq<char>>(
                (p.0@, p.1@),
            ),
            Err(e) => spec_parse_catalog_page(html@) == Err::<(Seq<char>, Seq<char>), Seq<char>>(
                e@,
            ),
        },
{
    let document = parse_document(html);
    let link_sel = parse_selector("a.product-description__link")?;
    let found = select_in_document(&document, &link_sel);
    if found.len() == 0 {
        return Err(copy_str("Книга не найдена."));
    }
    let element = &found[0];
    let texts = element_texts(element);
    let href = element_attr(element, "href");
    catalog_entry(&texts, href)
}

// ---------------------------------------------------------------------------
// The book page: cover
// ---------------------------------------------------------------------------

/// The selector of the cover picture on a book page.
pub open spec fn cover_selector() -> Seq<char> {
    "img.product-preview__big-img"@
}

/// What the cover's `src` gives: its address with the `https:` scheme.
pub open spec fn spec_cover_image_url(src: Option<Seq<char>>) -> Result<Seq<char>, Seq<char>> {
    match src {
        None => Err("Атрибут src не найден."@),
        Some(s) => Ok("https:"@ + s),
    }
}

/// Makes the cover's address from its `src` attribute.
pub fn cover_image_url(src: Option<String>) -> (r: Result<String, String>)
    ensures
        match r {
            Ok(u) => spec_cover_image_url(opt_view(src)) == Ok::<Seq<char>, Seq<char>>(
                u@,
            ),
            Err(e) => spec_cover_image_url(opt_view(src)) == Err::<Seq<char>, Seq<char>>(
                e@,
            ),
        },
{
    match src {
        None => Err(copy_str("Атрибут src не найден.")),
        Some(s) => Ok(concat2("https:", s.as_str())),
    }
}

/// What a book page gives as the cover's address.
pub open spec fn spec_parse_url_image(html: Seq<char>) -> Result<Seq<char>, Seq<char>> {
    let sel = cover_selector();
    match selector_parse_failure(sel) {
        Some(m) => Err(m),
        None => if document_match_count(html, sel) == 0 {
            Err("URL Книги не найдена."@)
        } else {
            spec_cover_image_url(element_attribute(html, seq![(sel, 0nat)], "src"@))
        },
    }
}

/// Finds the address of the cover picture on a book page.
pub fn parse_url_image(html: &str) -> (r: Result<String, String>)
    ensures
        match r {
            Ok(u) => spec_parse_url_image(html@) == Ok::<Seq<char>, Seq<char>>(u@),
            Err(e) => spec_parse_url_image(html@) == Err::<Seq<char>, Seq<char>>(e@),
        },
{
    let document = parse_document(html);
    let url_sel = parse_selector("img.product-preview__big-img")?;
    let found = select_in_document(&document, &url_sel);
    if found.len() == 0 {
        return Err(copy_str("URL Книги не найдена."));
    }
    let src = element_attr(&found[0], "src");
    cover_image_url(src)
}

// ---------------------------------------------------------------------------
// The book page: characteristics
// ---------------------------------------------------------------------------

/// The selector of the characteristics table.
pub open spec fn table_selector() -> Seq<char> {
    "table.product-characteristics-full__table"@
}

/// The selector of the table's rows.
pub open spec fn row_selector() -> Seq<char> {
    "tr.product-characteristics-full__row"@
}

/// The selector of a row's header cell.
pub open spec fn th_selector() -> Seq<char> {
    "th.product-characteristics-full__cell-th"@
}

/// The selector of a row's value cell.
pub open spec fn td_selector() -> Seq<char> {
    "td.product-characteristics-full__cell-td"@
}

/// The texts of the first element under `at` that matches `sel`, if any.
pub open spec fn first_texts(html: Seq<char>, at: Seq<Step>, sel: Seq<char>) -> Option<
    Seq<Seq<char>>,
> {
    if element_match_count(html, at, sel) > 0 {
        Some(element_text_nodes(html, at.push((sel, 0nat))))
    } else {
        None
    }
}

/// The texts of the cells of the row reached by `row`.
pub open spec fn row_cells(html: Seq<char>, row: Seq<Step>) -> RowTexts {
    (first_texts(html, row, th_selector()), first_texts(html, row, td_selector()))
}

/// The rows of the first characteristics table of a page, in order.
pub open spec fn table_rows(html: Seq<char>) -> Seq<RowTexts> {
    let table = seq![(table_selector(), 0nat)];
    Seq::new(
        element_match_count(html, table, row_selector()),
        |i: int| row_cells(html, table.push((row_selector(), i as nat))),
    )
}

/// What a book page gives as its characteristics.
pub open spec fn spec_parse_metadata_table(html: Seq<char>) -> Result<
    Map<Seq<char>, Seq<char>>,
    Seq<char>,
> {
    match selector_parse_failure(table_selector()) {
        Some(m) => Err("Ошибка селектора таблицы: "@ + m),
        None => if document_match_count(html, table_selector()) == 0 {
            Err("Таблица с характеристиками не найдена"@)
        } else {
            match selector_parse_failure(row_selector()) {
                Some(m) => Err("Ошибка селектора строк: "@ + m),
                None => match selector_parse_failure(th_selector()) {
                    Some(m) => Err("Ошибка селектора th: "@ + m),
                    None => match selector_parse_failure(td_selector()) {
                        Some(m) => Err("Ошибка селектора td: "@ + m),
                        None => spec_metadata_from_rows(table_rows(html)),
                    },
                },
            }
        },
    }
}

/// Reads the characteristics table of a book page.
pub fn parse_metadata_table(html: &str) -> (r: Result<Metadata, String>)
    ensures
        match r {
            Ok(m) => spec_parse_metadata_table(html@) == Ok::<
                Map<Seq<char>, Seq<char>>,
                Seq<char>,
            >(m@),
            Err(e) => spec_parse_metadata_table(html@) == Err::<
                Map<Seq<char>, Seq<char>>,
                Seq<char>,
            >(e@),
        },
{
    let document = parse_document(html);
    let table_sel = match parse_selector("table.product-characteristics-full__table") {
        Ok(q) => q,
        Err(m) => return Err(concat2("Ошибка селектора таблицы: ", m.as_str())),
    };
    let tables = select_in_document(&document, &table_sel);
    if tables.len() == 0 {
        return Err(copy_str("Таблица с характеристиками не найдена"));
    }
    let table = &tables[0];
    let row_sel = match parse_selector("tr.product-characteristics-full__row") {
        Ok(q) => q,
        Err(m) => return Err(concat2("Ошибка селектора строк: ", m.as_str())),
    };
    let th_sel = match parse_selector("th.product-characteristics-full__cell-th") {
        Ok(q) => q,
        Err(m) => return Err(concat2("Ошибка селектора th: ", m.as_str())),
    };
    let td_sel = match parse_selector("td.product-characteristics-full__cell-td") {
        Ok(q) => q,
        Err(m) => return Err(concat2("Ошибка селектора td: ", m.as_str())),
    };
    let rows = select_in_element(table, &row_sel);
    let ghost expected = table_rows(html@);
    let mut cells: Vec<(Option<Vec<String>>, Option<Vec<String>>)> = Vec::new();
    for i in 0..rows.len()
        invariant
            rows.len() == expected.len(),
            expected == table_rows(html@),
            th_sel.text() == th_selector(),
            td_sel.text() == td_selector(),
            forall|j: int|
                0 <= j < rows.len() ==> (#[trigger] rows[j]).source() == html@ && rows[j].path()
                    == seq![(table_selector(), 0nat)].push((row_selector(), j as nat)),
            cells.len() == i,
            cells@.map_values(|x| row_texts_view(x)) == expected.take(i as int),
    {
        let row = &rows[i];
        let ths = select_in_element(row, &th_sel);
        let th = if ths.len() > 0 {
            Some(element_texts(&ths[0]))
        } else {
            None
        };
        let tds = select_in_element(row, &td_sel);
        let td = if tds.len() > 0 {
            Some(element_texts(&tds[0]))
        } else {
            None
        };
        let ghost before = cells@;
        let ghost row_path = seq![(table_selector(), 0nat)].push((row_selector(), i as nat));
        assert(row.path() == row_path);
        assert(expected[i as int] == row_cells(html@, row_path));
        assert(row_texts_view((th, td)) == expected[i as int]);
        cells.push((th, td));
        assert(cells@.map_values(|x| row_texts_view(x)) =~= expected.take(i + 1)) by {
            assert(before.map_values(|x| row_texts_view(x)) == expected.take(i as int));
            assert forall|j: int| 0 <= j < i implies cells@[j] == before[j] by {}
            assert(cells@[i as int] == (th, td));
        }
    }
    assert(expected.take(rows.len() as int) =~= expected);
    metadata_from_rows(&cells)
}

// ---------------------------------------------------------------------------
// The whole book
// ---------------------------------------------------------------------------

/// A book read from the shop, as text.
pub struct BookInfo {
    pub url_page: Seq<char>,
    pub isbn: Seq<char>,
    pub title: Seq<char>,
    pub author: Seq<char>,
    pub publisher: Option<Seq<char>>,
    pub series: Option<Seq<char>>,
    pub binding: Option<Seq<char>>,
    pub page_count: Option<Seq<char>>,
    pub section: Option<Seq<char>>,
    pub cover_url: Seq<char>,
}

/// The text of an optional string.
pub open spec fn opt_view(o: Option<String>) -> Option<Seq<char>> {
    match o {
        Some(s) => Some(s@),
        None => None,
    }
}

impl View for BookParse {
    type V = BookInfo;

    open spec fn view(&self) -> BookInfo {
        BookInfo {
            url_page: self.url_page@,
            isbn: self.isbn@,
            title: self.title@,
            author: self.author@,
            publisher: opt_view(self.publisher),
            series: opt_view(self.series),
            binding: opt_view(self.binding),
            page_count: opt_view(self.page_count),
            section: opt_view(self.section),
            cover_url: self.cover_url@,
        }
    }
}

/// The value of a characteristic, if the table has it.
pub open spec fn lookup(m: Map<Seq<char>, Seq<char>>, key: Seq<char>) -> Option<Seq<char>> {
    if m.dom().contains(key) {
        Some(m[key])
    } else {
        None
    }
}

/// The book that the read parts make: the author is required, the other
/// characteristics are taken when present.
pub open spec fn spec_book_from_parts(
    isbn: Seq<char>,
    title: Seq<char>,
    url_page: Seq<char>,
    cover_url: Seq<char>,
    m: Map<Seq<char>, Seq<char>>,
) -> Result<BookInfo, Seq<char>> {
    match lookup(m, "Автор"@) {
        None => Err("Автор не найден."@),
        Some(author) => Ok(
            BookInfo {
                url_page,
                isbn,
                title,
                author,
                publisher: lookup(m, "Издательство"@),
                series: lookup(m, "Серия"@),
                binding: lookup(m, "Переплет"@),
                page_count: lookup(m, "Кол-во страниц"@),
                section: lookup(m, "Раздел"@),
                cover_url,
            },
        ),
    }
}

/// Assembles a book from its ISBN, its title, the addresses of its page and
/// cover, and its characteristics.
pub fn book_from_parts(
    isbn: &str,
    title: String,
    url_page: String,
    cover_url: String,
    metadata: &Metadata,
) -> (r: Result<BookParse, String>)
    ensures
        match r {
            Ok(b) => spec_book_from_parts(isbn@, title@, url_page@, cover_url@, metadata@) == Ok::<
                BookInfo,
                Seq<char>,
            >(b@),
            Err(e) => spec_book_from_parts(isbn@, title@, url_page@, cover_url@, metadata@) == Err::<
                BookInfo,
                Seq<char>,
            >(e@),
        },
{
    let author = match metadata.get("Автор") {
        Some(a) => a,
        None => return Err(copy_str("Автор не найден.")),
    };
    Ok(
        BookParse {
            url_page,
            isbn: copy_str(isbn),
            title,
            author,
            publisher: metadata.get("Издательство"),
            series: metadata.get("Серия"),
            binding: metadata.get("Переплет"),
            page_count: metadata.get("Кол-во страниц"),
            section: metadata.get("Раздел"),
            cover_url,
        },
    )
}

/// What the shop's pages give for a book: `catalog_page` is the search page
/// for the ISBN and `book_page` the page its first result links to.
pub open spec fn spec_parse_bookvoed_book(
    isbn: Seq<char>,
    catalog_page: Seq<char>,
    book_page: Seq<char>,
) -> Result<BookInfo, Seq<char>> {
    match spec_parse_catalog_page(catalog_page) {
        Err(e) => Err(e),
        Ok(found) => match spec_parse_url_image(book_page) {
            Err(e) => Err(e),
            Ok(img) => match spec_parse_metadata_table(book_page) {
                Err(e) => Err(e),
                Ok(m) => spec_book_from_parts(isbn, found.0, found.1, img, m),
            },
        },
    }
}

/// Reads a book from the shop's search page for its ISBN and from the page of
/// the book that the search page links to.
pub fn parse_bookvoed_book(isbn: &str, catalog_page: &str, book_page: &str) -> (r: Result<
    BookParse,
    String,
>)
    ensures
        match r {
            Ok(b) => spec_parse_bookvoed_book(isbn@, catalog_page@, book_page@) == Ok::<
                BookInfo,
                Seq<char>,
            >(b@),
            Err(e) => spec_parse_bookvoed_book(isbn@, catalog_page@, book_page@) == Err::<
                BookInfo,
                Seq<char>,
            >(e@),
        },
{
    let (name, url_book) = parse_catalog_page(catalog_page)?;
    let url_img = parse_url_image(book_page)?;
    let metadata = parse_metadata_table(book_page)?;
    book_from_parts(isbn, name, url_book, url_img, &metadata)
}

} // verus!
