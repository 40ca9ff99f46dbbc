//! Laws that tie each part of a result to the part of the input it comes
//! from: which characteristic fills which field of a book, which cell texts
//! make a table entry, which column's values fill which placeholders, which
//! paging value lands where, and which media type names a cover file.

use vstd::prelude::*;

use crate::covers::{base64_decode, spec_decode_cover_data_url, split_on};
use crate::html::{
    document_match_count, element_attribute, element_match_count, element_text_nodes, Step,
};
use crate::metadata::{row_entry, rows_map, RowTexts};
use crate::parser::{
    spec_book_from_parts, spec_parse_catalog_page, spec_parse_metadata_table, spec_parse_url_image,
    table_rows, BookInfo,
};
use crate::web_url::{resized_pair, Pair};
use crate::queries::{
    active_filters, filter_columns, filter_condition, filter_conditions, filter_values,
    filters_args, filters_query, placeholders, spec_all_books_query, spec_search_query, views,
};
use crate::structs::Filters;
use crate::text::{collapse_ws, concat, decimal, has_infix, join, lowercase, trim};

verus! {

// ---------------------------------------------------------------------------
// Book fields
// ---------------------------------------------------------------------------

/// The value a characteristic has in `m`, if `m` has it.
pub open spec fn characteristic(m: Map<Seq<char>, Seq<char>>, name: Seq<char>) -> Option<
    Seq<char>,
> {
    if m.dom().contains(name) {
        Some(m[name])
    } else {
        None
    }
}

/// A book is made exactly when its characteristics name an author, and then
/// each field holds what it was given: the ISBN, title and addresses as
/// passed, the author from «Автор», the publisher from «Издательство», the
/// series from «Серия», the binding from «Переплет», the page count from
/// «Кол-во страниц» and the section from «Раздел», each absent when the
/// table lacks it.
pub proof fn law_book_fields_from_characteristics(
    isbn: Seq<char>,
    title: Seq<char>,
    url_page: Seq<char>,
    cover_url: Seq<char>,
    m: Map<Seq<char>, Seq<char>>,
)
    ensures
        spec_book_from_parts(isbn, title, url_page, cover_url, m) is Ok <==> m.dom().contains(
            "Автор"@,
        ),
        !m.dom().contains("Автор"@) ==> spec_book_from_parts(isbn, title, url_page, cover_url, m)
            == Err::<BookInfo, Seq<char>>("Автор не найден."@),
        spec_book_from_parts(isbn, title, url_page, cover_url, m) matches Ok(b) ==> {
            &&& b.isbn == isbn
            &&& b.title == title
            &&& b.url_page == url_page
            &&& b.cover_url == cover_url
            &&& b.author == m["Автор"@]
            &&& b.publisher == characteristic(m, "Издательство"@)
            &&& b.series == characteristic(m, "Серия"@)
            &&& b.binding == characteristic(m, "Переплет"@)
            &&& b.page_count == characteristic(m, "Кол-во страниц"@)
            &&& b.section == characteristic(m, "Раздел"@)
        },
{
}

// ---------------------------------------------------------------------------
// Characteristics table
// ---------------------------------------------------------------------------

/// The path of the `i`-th row of the first characteristics table.
pub open spec fn nth_row(i: nat) -> Seq<Step> {
    seq![("table.product-characteristics-full__table"@, 0nat)].push(
        ("tr.product-characteristics-full__row"@, i),
    )
}

/// All the text under the first element matching `sel` in a row, joined.
pub open spec fn cell_text(html: Seq<char>, row: Seq<Step>, sel: Seq<char>) -> Seq<char> {
    concat(element_text_nodes(html, row.push((sel, 0nat))))
}

/// Every entry comes from a row, and a row with a non-empty name and value
/// gives an entry.
proof fn lemma_rows_map_sources(rows: Seq<RowTexts>)
    ensures
        forall|k: Seq<char>|
            #[trigger] rows_map(rows).dom().contains(k) ==> exists|j: int|
                0 <= j < rows.len() && #[trigger] row_entry(rows[j]) == Some(
                    (k, rows_map(rows)[k]),
                ),
        forall|j: int|
            0 <= j < rows.len() && (#[trigger] row_entry(rows[j])) is Some ==> rows_map(
                rows,
            ).dom().contains((row_entry(rows[j])->0).0),
    decreases rows.len(),
{
    if rows.len() > 0 {
        let rest = rows.drop_last();
        lemma_rows_map_sources(rest);
        let last = rows.len() - 1;
        assert(rows.last() == rows[last]);
        assert forall|k: Seq<char>| #[trigger] rows_map(rows).dom().contains(k) implies exists|
            j: int,
        | 0 <= j < rows.len() && #[trigger] row_entry(rows[j]) == Some((k, rows_map(rows)[k])) by {
            match row_entry(rows[last]) {
                Some(kv) => {
                    if k == kv.0 {
                        assert(row_entry(rows[last]) == Some((k, rows_map(rows)[k])));
                    } else {
                        let j = choose|j: int|
                            0 <= j < rest.len() && #[trigger] row_entry(rest[j]) == Some(
                                (k, rows_map(rest)[k]),
                            );
                        assert(rest[j] == rows[j]);
                    }
                },
                None => {
                    let j = choose|j: int|
                        0 <= j < rest.len() && #[trigger] row_entry(rest[j]) == Some(
                            (k, rows_map(rest)[k]),
                        );
                    assert(rest[j] == rows[j]);
                },
            }
        }
        assert forall|j: int|
            0 <= j < rows.len() && (#[trigger] row_entry(rows[j])) is Some implies rows_map(
                rows,
            ).dom().contains((row_entry(rows[j])->0).0) by {
            if j < last {
                assert(rest[j] == rows[j]);
            }
        }
    }
}

/// The name the `i`-th row of the characteristics table gives: all the text
/// of its first header cell, trimmed.
pub open spec fn row_name(html: Seq<char>, i: nat) -> Seq<char> {
    trim(cell_text(html, nth_row(i), "th.product-characteristics-full__cell-th"@))
}

/// The value the `i`-th row gives: all the text of its first value cell, with
/// white space collapsed and trimmed.
pub open spec fn row_value(html: Seq<char>, i: nat) -> Seq<char> {
    trim(collapse_ws(cell_text(html, nth_row(i), "td.product-characteristics-full__cell-td"@)))
}

/// The `i`-th row of the characteristics table exists, has both cells, and
/// gives a non-empty name and value.
pub open spec fn row_gives_entry(html: Seq<char>, i: nat) -> bool {
    &&& i < element_match_count(
        html,
        seq![("table.product-characteristics-full__table"@, 0nat)],
        "tr.product-characteristics-full__row"@,
    )
    &&& element_match_count(html, nth_row(i), "th.product-characteristics-full__cell-th"@) > 0
    &&& element_match_count(html, nth_row(i), "td.product-characteristics-full__cell-td"@) > 0
    &&& row_name(html, i).len() > 0
    &&& row_value(html, i).len() > 0
}

/// A row's entry stands in the table when no later row gives the same name.
proof fn lemma_rows_map_last(rows: Seq<RowTexts>, j: int)
    requires
        0 <= j < rows.len(),
        row_entry(rows[j]) is Some,
        forall|j2: int|
            j < j2 < rows.len() && (#[trigger] row_entry(rows[j2])) is Some ==> (row_entry(
                rows[j2],
            )->0).0 != (row_entry(rows[j])->0).0,
    ensures
        rows_map(rows).dom().contains((row_entry(rows[j])->0).0),
        rows_map(rows)[(row_entry(rows[j])->0).0] == (row_entry(rows[j])->0).1,
    decreases rows.len(),
{
    let last = rows.len() - 1;
    assert(rows.last() == rows[last]);
    if j < last {
        let rest = rows.drop_last();
        assert(rest[j] == rows[j]);
        assert forall|j2: int|
            j < j2 < rest.len() && (#[trigger] row_entry(rest[j2])) is Some implies (row_entry(
                rest[j2],
            )->0).0 != (row_entry(rest[j])->0).0 by {
            assert(rest[j2] == rows[j2]);
        }
        lemma_rows_map_last(rest, j);
        if row_entry(rows[last]) is Some {
            assert((row_entry(rows[last])->0).0 != (row_entry(rows[j])->0).0);
        }
    }
}

/// Each entry of a book's characteristics is one row of the page's first
/// characteristics table: its name is the whole text of the row's first
/// header cell, trimmed, and its value the whole text of the row's first
/// value cell (every text node of it), with white space collapsed and
/// trimmed. Every row whose cells give a non-empty name and value has an
/// entry under that name.
pub proof fn law_metadata_values_are_whole_cells(html: Seq<char>)
    ensures
        spec_parse_metadata_table(html) matches Ok(m) ==> {
            &&& forall|k: Seq<char>|
                #[trigger] m.dom().contains(k) ==> exists|i: nat|
                    {
                        &&& i < element_match_count(
                            html,
                            seq![("table.product-characteristics-full__table"@, 0nat)],
                            "tr.product-characteristics-full__row"@,
                        )
                        &&& element_match_count(
                            html,
                            #[trigger] nth_row(i),
                            "th.product-characteristics-full__cell-th"@,
                        ) > 0
                        &&& element_match_count(
                            html,
                            nth_row(i),
                            "td.product-characteristics-full__cell-td"@,
                        ) > 0
                        &&& k == trim(
                            cell_text(html, nth_row(i), "th.product-characteristics-full__cell-th"@),
                        )
                        &&& m[k] == trim(
                            collapse_ws(
                                cell_text(
                                    html,
                                    nth_row(i),
                                    "td.product-characteristics-full__cell-td"@,
                                ),
                            ),
                        )
                    }
            &&& forall|i: nat|
                {
                    &&& i < element_match_count(
                        html,
                        seq![("table.product-characteristics-full__table"@, 0nat)],
                        "tr.product-characteristics-full__row"@,
                    )
                    &&& element_match_count(
                        html,
                        #[trigger] nth_row(i),
                        "th.product-characteristics-full__cell-th"@,
                    ) > 0
                    &&& element_match_count(
                        html,
                        nth_row(i),
                        "td.product-characteristics-full__cell-td"@,
                    ) > 0
                    &&& trim(
                        cell_text(html, nth_row(i), "th.product-characteristics-full__cell-th"@),
                    ).len() > 0
                    &&& trim(
                        collapse_ws(
                            cell_text(html, nth_row(i), "td.product-characteristics-full__cell-td"@),
                        ),
                    ).len() > 0
                } ==> m.dom().contains(
                    trim(cell_text(html, nth_row(i), "th.product-characteristics-full__cell-th"@)),
                )
            &&& forall|i: nat|
                {
                    &&& row_gives_entry(html, i)
                    &&& forall|j: nat|
                        i < j && #[trigger] row_gives_entry(html, j) ==> row_name(html, j)
                            != row_name(html, i)
                } ==> m[row_name(html, i)] == row_value(html, i)
        },
{
    if let Ok(m) = spec_parse_metadata_table(html) {
        let rows = table_rows(html);
        lemma_rows_map_sources(rows);
        assert(m == rows_map(rows));
        assert forall|k: Seq<char>| #[trigger] m.dom().contains(k) implies exists|i: nat|
            {
                &&& i < element_match_count(
                    html,
                    seq![("table.product-characteristics-full__table"@, 0nat)],
                    "tr.product-characteristics-full__row"@,
                )
                &&& element_match_count(
                    html,
                    #[trigger] nth_row(i),
                    "th.product-characteristics-full__cell-th"@,
                ) > 0
                &&& element_match_count(html, nth_row(i), "td.product-characteristics-full__cell-td"@)
                    > 0
                &&& k == trim(cell_text(html, nth_row(i), "th.product-characteristics-full__cell-th"@))
                &&& m[k] == trim(
                    collapse_ws(
                        cell_text(html, nth_row(i), "td.product-characteristics-full__cell-td"@),
                    ),
                )
            } by {
            let j = choose|j: int|
                0 <= j < rows.len() && #[trigger] row_entry(rows[j]) == Some((k, rows_map(rows)[k]));
            let i = j as nat;
            assert(rows[j] == crate::parser::row_cells(html, nth_row(i)));
        }
        assert forall|i: nat|
            {
                &&& i < element_match_count(
                    html,
                    seq![("table.product-characteristics-full__table"@, 0nat)],
                    "tr.product-characteristics-full__row"@,
                )
                &&& element_match_count(
                    html,
                    #[trigger] nth_row(i),
                    "th.product-characteristics-full__cell-th"@,
                ) > 0
                &&& element_match_count(html, nth_row(i), "td.product-characteristics-full__cell-td"@)
                    > 0
                &&& trim(
                    cell_text(html, nth_row(i), "th.product-characteristics-full__cell-th"@),
                ).len() > 0
                &&& trim(
                    collapse_ws(
                        cell_text(html, nth_row(i), "td.product-characteristics-full__cell-td"@),
                    ),
                ).len() > 0
            } implies m.dom().contains(
            trim(cell_text(html, nth_row(i), "th.product-characteristics-full__cell-th"@)),
        ) by {
            let j = i as int;
            assert(rows[j] == crate::parser::row_cells(html, nth_row(i)));
            assert(row_entry(rows[j]) is Some);
        }
        assert forall|i: nat|
            {
                &&& row_gives_entry(html, i)
                &&& forall|j: nat|
                    i < j && #[trigger] row_gives_entry(html, j) ==> row_name(html, j) != row_name(
                        html,
                        i,
                    )
            } implies m[row_name(html, i)] == row_value(html, i) by {
            let j = i as int;
            assert(rows[j] == crate::parser::row_cells(html, nth_row(i)));
            assert(row_entry(rows[j]) == Some((row_name(html, i), row_value(html, i))));
            assert forall|j2: int|
                j < j2 < rows.len() && (#[trigger] row_entry(rows[j2])) is Some implies (row_entry(
                    rows[j2],
                )->0).0 != (row_entry(rows[j])->0).0 by {
                let i2 = j2 as nat;
                assert(rows[j2] == crate::parser::row_cells(html, nth_row(i2)));
                assert(row_gives_entry(html, i2));
            }
            lemma_rows_map_last(rows, j);
        }
    }
}

// ---------------------------------------------------------------------------
// Paging values
// ---------------------------------------------------------------------------

/// The decimal text of a paging value, or the given default when absent.
pub open spec fn paging_text(v: Option<i32>, default: Seq<char>) -> Seq<char> {
    match v {
        Some(n) => decimal(n as int),
        None => default,
    }
}

/// The values of the list statement are the filters' values, then the limit
/// (30 when absent), then the offset (0 when absent), each in decimal.
pub proof fn law_all_books_values(filters: Option<Filters>, limit: Option<i32>, offset: Option<i32>)
    ensures
        ({
            let args = spec_all_books_query(filters, limit, offset).1;
            &&& args.len() >= 2
            &&& args[args.len() - 1] == paging_text(offset, "0"@)
            &&& args[args.len() - 2] == paging_text(limit, "30"@)
            &&& args.take(args.len() - 2) == match filters {
                Some(f) => filters_args(f),
                None => Seq::<Seq<char>>::empty(),
            }
        }),
{
    let args = spec_all_books_query(filters, limit, offset).1;
    let front = match filters {
        Some(f) => filters_args(f),
        None => Seq::<Seq<char>>::empty(),
    };
    assert(args.take(args.len() - 2) =~= front);
}

/// The values of the search statement are the `%`-wrapped lower-case search
/// text, then the filters' values when the filters give a condition, then the
/// limit (30 when absent) and the offset (0 when absent), each in decimal.
pub proof fn law_search_values(
    query: Seq<char>,
    filters: Option<Filters>,
    limit: Option<i32>,
    offset: Option<i32>,
)
    ensures
        ({
            let args = spec_search_query(query, filters, limit, offset).1;
            &&& args.len() >= 3
            &&& args[0] == "%"@ + lowercase(query) + "%"@
            &&& args[args.len() - 1] == paging_text(offset, "0"@)
            &&& args[args.len() - 2] == paging_text(limit, "30"@)
            &&& args.subrange(1, args.len() - 2) == match filters {
                Some(f) => if filters_query(f).len() == 0 {
                    Seq::<Seq<char>>::empty()
                } else {
                    filters_args(f)
                },
                None => Seq::<Seq<char>>::empty(),
            }
        }),
{
    let args = spec_search_query(query, filters, limit, offset).1;
    let middle = match filters {
        Some(f) => if filters_query(f).len() == 0 {
            Seq::<Seq<char>>::empty()
        } else {
            filters_args(f)
        },
        None => Seq::<Seq<char>>::empty(),
    };
    assert(args.subrange(1, args.len() - 2) =~= middle);
}

// ---------------------------------------------------------------------------
// Filters
// ---------------------------------------------------------------------------

/// The values a filter column was given, none when absent.
pub open spec fn given_values(values: Option<Vec<String>>) -> Seq<Seq<char>> {
    match values {
        Some(v) => views(v@),
        None => Seq::empty(),
    }
}

/// The condition on a column, `column IN (?, ..., ?)` with one placeholder per
/// value; none when the column is given no value.
pub open spec fn given_condition(column: Seq<char>, values: Option<Vec<String>>) -> Seq<
    Seq<char>,
> {
    match values {
        Some(v) => if v.len() > 0 {
            seq![column + " IN "@ + placeholders(v.len() as nat)]
        } else {
            Seq::empty()
        },
        None => Seq::empty(),
    }
}

spec fn all_values(cols: Seq<(Seq<char>, Option<Vec<String>>)>) -> Seq<Seq<char>>
    decreases cols.len(),
{
    if cols.len() == 0 {
        Seq::empty()
    } else {
        all_values(cols.drop_last()) + given_values(cols.last().1)
    }
}

spec fn all_conditions(cols: Seq<(Seq<char>, Option<Vec<String>>)>) -> Seq<Seq<char>>
    decreases cols.len(),
{
    if cols.len() == 0 {
        Seq::empty()
    } else {
        all_conditions(cols.drop_last()) + given_condition(cols.last().0, cols.last().1)
    }
}

proof fn lemma_active_unfolds(cols: Seq<(Seq<char>, Option<Vec<String>>)>)
    ensures
        filter_values(active_filters(cols)) == all_values(cols),
        filter_conditions(active_filters(cols)) == all_conditions(cols),
    decreases cols.len(),
{
    if cols.len() == 0 {
        assert(filter_conditions(active_filters(cols)) =~= Seq::<Seq<char>>::empty());
    } else {
        let rest = cols.drop_last();
        lemma_active_unfolds(rest);
        let a = active_filters(rest);
        let c = cols.last();
        match c.1 {
            Some(v) => {
                if v.len() > 0 {
                    let x = (c.0, views(v@));
                    assert(a.push(x).drop_last() =~= a);
                    assert(filter_conditions(a.push(x)) =~= filter_conditions(a).push(
                        filter_condition(x.0, x.1),
                    ));
                    assert(filter_conditions(a).push(filter_condition(x.0, x.1)) =~= all_conditions(
                        rest,
                    ) + given_condition(c.0, c.1));
                } else {
                    assert(views(v@) =~= Seq::<Seq<char>>::empty());
                    assert(all_values(rest) + given_values(c.1) =~= all_values(rest));
                    assert(all_conditions(rest) + given_condition(c.0, c.1) =~= all_conditions(rest));
                }
            },
            None => {
                assert(all_values(rest) + given_values(c.1) =~= all_values(rest));
                assert(all_conditions(rest) + given_condition(c.0, c.1) =~= all_conditions(rest));
            },
        }
    }
}

/// Filters are taken column by column in the order status, publisher,
/// series, binding, section: the values are those of each column in that
/// order, and the condition joins, in that same order, one `IN` condition per
/// column that was given values, with one placeholder per value. So the
/// placeholders of each column's condition are filled by that column's own
/// values.
pub proof fn law_filters_columns_in_order(f: Filters)
    ensures
        filters_args(f) == given_values(f.status) + given_values(f.publisher) + given_values(
            f.series,
        ) + given_values(f.binding) + given_values(f.section),
        filters_query(f) == join(
            given_condition("status"@, f.status) + given_condition("publisher"@, f.publisher)
                + given_condition("series"@, f.series) + given_condition("binding"@, f.binding)
                + given_condition("section"@, f.section),
            " AND "@,
        ),
{
    let c = filter_columns(f);
    lemma_active_unfolds(c);
    assert(c.take(5) =~= c);
    assert(c.take(0) =~= Seq::<(Seq<char>, Option<Vec<String>>)>::empty());
    assert forall|k: int| 1 <= k <= 5 implies (#[trigger] c.take(k)).drop_last() =~= c.take(k - 1)
        && c.take(k).last() == c[k - 1] by {}
    assert(all_values(c.take(1)) == all_values(c.take(0)) + given_values(c[0].1));
    assert(all_values(c.take(2)) == all_values(c.take(1)) + given_values(c[1].1));
    assert(all_values(c.take(3)) == all_values(c.take(2)) + given_values(c[2].1));
    assert(all_values(c.take(4)) == all_values(c.take(3)) + given_values(c[3].1));
    assert(all_values(c.take(5)) == all_values(c.take(4)) + given_values(c[4].1));
    assert(all_values(c) =~= given_values(f.status) + given_values(f.publisher) + given_values(
        f.series,
    ) + given_values(f.binding) + given_values(f.section));
    assert(all_conditions(c.take(1)) == all_conditions(c.take(0)) + given_condition(c[0].0, c[0].1));
    assert(all_conditions(c.take(2)) == all_conditions(c.take(1)) + given_condition(c[1].0, c[1].1));
    assert(all_conditions(c.take(3)) == all_conditions(c.take(2)) + given_condition(c[2].0, c[2].1));
    assert(all_conditions(c.take(4)) == all_conditions(c.take(3)) + given_condition(c[3].0, c[3].1));
    assert(all_conditions(c.take(5)) == all_conditions(c.take(4)) + given_condition(c[4].0, c[4].1));
    assert(all_conditions(c) =~= given_condition("status"@, f.status) + given_condition(
        "publisher"@,
        f.publisher,
    ) + given_condition("series"@, f.series) + given_condition("binding"@, f.binding)
        + given_condition("section"@, f.section));
}

// ---------------------------------------------------------------------------
// Cover files from data URLs
// ---------------------------------------------------------------------------

/// No piece of a split holds the separator.
proof fn lemma_split_pieces_clean(s: Seq<char>, sep: char)
    ensures
        forall|k: int, i: int|
            0 <= k < split_on(s, sep).len() && 0 <= i < split_on(s, sep)[k].len() ==> #[trigger] split_on(
                s,
                sep,
            )[k][i] != sep,
    decreases s.len(),
{
    if s.len() > 0 {
        let t = s.drop_last();
        lemma_split_pieces_clean(t, sep);
        crate::laws::law_split_join_roundtrip(t, sep);
        let p = split_on(t, sep);
        let q = split_on(s, sep);
        assert forall|k: int, i: int| 0 <= k < q.len() && 0 <= i < q[k].len() implies #[trigger] q[k][i]
            != sep by {
            if s.last() == sep {
                if k < p.len() {
                    assert(q[k] == p[k]);
                }
            } else {
                if k < p.len() - 1 {
                    assert(q[k] == p[k]);
                } else {
                    assert(q[k] == p[k].push(s.last()));
                    if i < p[k].len() {
                        assert(q[k][i] == p[k][i]);
                    }
                }
            }
        }
    }
}

/// A cover decoded from a data URL is the base64 text after the URL's one
/// comma, and its file name is the ISBN, a dot and the extension that the
/// part before the comma names: `jpg` for jpeg or jpg, else `png`, `gif` or
/// `webp` when named in that order, else `jpg`.
pub proof fn law_data_url_file_name(u: Seq<char>, isbn: Seq<char>)
    ensures
        spec_decode_cover_data_url(u, isbn) matches Ok(cover) ==> exists|mime: Seq<char>, data: Seq<char>|
            {
                &&& u == #[trigger] (mime + seq![','] + data)
                &&& forall|i: int| 0 <= i < mime.len() ==> mime[i] != ','
                &&& forall|i: int| 0 <= i < data.len() ==> data[i] != ','
                &&& base64_decode(data) == Ok::<Seq<u8>, Seq<char>>(cover.1)
                &&& (has_infix(mime, "jpeg"@) || has_infix(mime, "jpg"@)) ==> cover.0 == isbn + "."@
                    + "jpg"@
                &&& (!has_infix(mime, "jpeg"@) && !has_infix(mime, "jpg"@) && has_infix(
                    mime,
                    "png"@,
                )) ==> cover.0 == isbn + "."@ + "png"@
                &&& (!has_infix(mime, "jpeg"@) && !has_infix(mime, "jpg"@) && !has_infix(
                    mime,
                    "png"@,
                ) && has_infix(mime, "gif"@)) ==> cover.0 == isbn + "."@ + "gif"@
                &&& (!has_infix(mime, "jpeg"@) && !has_infix(mime, "jpg"@) && !has_infix(
                    mime,
                    "png"@,
                ) && !has_infix(mime, "gif"@) && has_infix(mime, "webp"@)) ==> cover.0 == isbn
                    + "."@ + "webp"@
                &&& (!has_infix(mime, "jpeg"@) && !has_infix(mime, "jpg"@) && !has_infix(
                    mime,
                    "png"@,
                ) && !has_infix(mime, "gif"@) && !has_infix(mime, "webp"@)) ==> cover.0 == isbn
                    + "."@ + "jpg"@
            },
{
    if let Ok(cover) = spec_decode_cover_data_url(u, isbn) {
        let parts = split_on(u, ',');
        crate::laws::law_split_join_roundtrip(u, ',');
        lemma_split_pieces_clean(u, ',');
        let mime = parts[0];
        let data = parts[1];
        assert(parts.drop_last().len() == 1);
        assert(join(parts.drop_last(), seq![',']) == parts[0]);
        assert(u == mime + seq![','] + data);
        assert forall|i: int| 0 <= i < mime.len() implies mime[i] != ',' by {
            assert(parts[0][i] != ',');
        }
        assert forall|i: int| 0 <= i < data.len() implies data[i] != ',' by {
            assert(parts[1][i] != ',');
        }
    }
}

// ---------------------------------------------------------------------------
// Search page and cover address
// ---------------------------------------------------------------------------

/// A book found on the search page is the first link of class
/// `product-description__link`: its title is the link's first text node and
/// its address the shop's address followed by the link's `href`.
pub proof fn law_catalog_entry_is_first_link(html: Seq<char>)
    ensures
        spec_parse_catalog_page(html) matches Ok(found) ==> {
            &&& document_match_count(html, "a.product-description__link"@) > 0
            &&& element_text_nodes(html, seq![("a.product-description__link"@, 0nat)]).len() > 0
            &&& found.0 == element_text_nodes(html, seq![("a.product-description__link"@, 0nat)])[0]
            &&& element_attribute(html, seq![("a.product-description__link"@, 0nat)], "href"@) is Some
            &&& found.1 == "https://bookvoed.ru"@ + element_attribute(
                html,
                seq![("a.product-description__link"@, 0nat)],
                "href"@,
            )->0
        },
{
}

/// The cover address of a book page is `https:` followed by the `src` of the
/// first picture of class `product-preview__big-img`.
pub proof fn law_cover_is_first_big_picture(html: Seq<char>)
    ensures
        spec_parse_url_image(html) matches Ok(u) ==> {
            &&& document_match_count(html, "img.product-preview__big-img"@) > 0
            &&& element_attribute(html, seq![("img.product-preview__big-img"@, 0nat)], "src"@)
                is Some
            &&& u == "https:"@ + element_attribute(
                html,
                seq![("img.product-preview__big-img"@, 0nat)],
                "src"@,
            )->0
        },
{
}

// ---------------------------------------------------------------------------
// Cover size
// ---------------------------------------------------------------------------

/// Fixing the cover size keeps each pair's name and position; a `width` gets
/// the value `300`, a `height` the value `400`, and every other pair keeps its
/// value.
pub proof fn law_resize_sets_size(pairs: Seq<Pair>)
    ensures
        pairs.map_values(|p: Pair| resized_pair(p)).len() == pairs.len(),
        forall|i: int|
            0 <= i < pairs.len() ==> pairs.map_values(|p: Pair| resized_pair(p))[i] == resized_pair(
                #[trigger] pairs[i],
            ),
        forall|p: Pair|
            {
                &&& (#[trigger] resized_pair(p)).0 == p.0
                &&& p.0 == "width"@ ==> resized_pair(p).1 == "300"@
                &&& p.0 == "height"@ ==> resized_pair(p).1 == "400"@
                &&& p.0 != "width"@ && p.0 != "height"@ ==> resized_pair(p).1 == p.1
            },
{
    reveal_strlit("width");
    reveal_strlit("height");
    assert("width"@[0] != "height"@[0]);
}

} // verus!
