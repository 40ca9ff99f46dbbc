use vstd::prelude::*;

use crate::structs::{BookCard, Filters};
use crate::text::{concat2, copy_str, decimal, decimal_string, join, lowercase, to_lowercase};

verus! {

// ---------------------------------------------------------------------------
// Placeholders
// ---------------------------------------------------------------------------

/// The parenthesised list of `n` SQL placeholders, `(?, ?, ?)`; empty for
/// no placeholder.
pub open spec fn placeholders(n: nat) -> Seq<char> {
    if n == 0 {
        Seq::empty()
    } else {
        "("@ + join(Seq::new(n, |_i: int| "?"@), ", "@) + ")"@
    }
}

/// Writes the parenthesised list of `count` SQL placeholders.
pub fn make_placeholders(count: usize) -> (s: String)
    ensures
        s@ == placeholders(count as nat),
{
    if count == 0 {
        return String::new();
    }
    let mut list = copy_str("?");
    let mut i: usize = 1;
    assert(join(Seq::new(1, |_i: int| "?"@), ", "@) == "?"@);
    while i < count
        invariant
            1 <= i <= count,
            list@ == join(Seq::new(i as nat, |_i: int| "?"@), ", "@),
        decreases count - i,
    {
        assert(Seq::new((i + 1) as nat, |_i: int| "?"@).drop_last() =~= Seq::new(
            i as nat,
            |_i: int| "?"@,
        ));
        list.append(", ");
        list.append("?");
        i = i + 1;
    }
    let mut s = copy_str("(");
    s.append(list.as_str());
    s.append(")");
    s
}

// ---------------------------------------------------------------------------
// Filters
// ---------------------------------------------------------------------------

/// The text views of a list of strings.
pub open spec fn views(v: Seq<String>) -> Seq<Seq<char>> {
    v.map_values(|s: String| s@)
}

/// The columns a search can be restricted on, in order, with the values
/// chosen for each.
pub open spec fn filter_columns(f: Filters) -> Seq<(Seq<char>, Option<Vec<String>>)> {
    seq![
        ("status"@, f.status),
        ("publisher"@, f.publisher),
        ("series"@, f.series),
        ("binding"@, f.binding),
        ("section"@, f.section),
    ]
}

/// The restrictions in force: the columns given a non-empty list of values,
/// in order, with those values.
pub open spec fn active_filters(cols: Seq<(Seq<char>, Option<Vec<String>>)>) -> Seq<
    (Seq<char>, Seq<Seq<char>>),
>
    decreases cols.len(),
{
    if cols.len() == 0 {
        Seq::empty()
    } else {
        let rest = active_filters(cols.drop_last());
        match cols.last().1 {
            Some(v) => if v.len() > 0 {
                rest.push((cols.last().0, views(v@)))
            } else {
                rest
            },
            None => rest,
        }
    }
}

/// The condition on one column: `column IN (?, ..., ?)`, one placeholder per
/// value.
pub open spec fn filter_condition(column: Seq<char>, values: Seq<Seq<char>>) -> Seq<char> {
    column + " IN "@ + placeholders(values.len())
}

/// The conditions of the restrictions in force, in order.
pub open spec fn filter_conditions(active: Seq<(Seq<char>, Seq<Seq<char>>)>) -> Seq<Seq<char>> {
    active.map_values(|a: (Seq<char>, Seq<Seq<char>>)| filter_condition(a.0, a.1))
}

/// The values of the restrictions in force, in order.
pub open spec fn filter_values(active: Seq<(Seq<char>, Seq<Seq<char>>)>) -> Seq<Seq<char>>
    decreases active.len(),
{
    if active.len() == 0 {
        Seq::empty()
    } else {
        filter_values(active.drop_last()) + active.last().1
    }
}

/// The SQL condition that filters give: their conditions joined by ` AND `.
pub open spec fn filters_query(f: Filters) -> Seq<char> {
    join(filter_conditions(active_filters(filter_columns(f))), " AND "@)
}

/// The values that fill the placeholders of `filters_query`, in order.
pub open spec fn filters_args(f: Filters) -> Seq<Seq<char>> {
    filter_values(active_filters(filter_columns(f)))
}

/// Joins strings with a separator placed between neighbours.
pub fn join_strings(parts: &Vec<String>, sep: &str) -> (s: String)
    ensures
        s@ == join(views(parts@), sep@),
{
    let ghost vs = views(parts@);
    let mut s = String::new();
    for i in 0..parts.len()
        invariant
            vs == views(parts@),
            s@ == join(vs.take(i as int), sep@),
    {
        assert(vs.take(i + 1).drop_last() =~= vs.take(i as int));
        if i > 0 {
            s.append(sep);
        }
        s.append(parts[i].as_str());
    }
    assert(vs.take(parts.len() as int) =~= vs);
    s
}

/// Adds the condition on one column, when it is given values.
fn add_filter<'a>(
    conditions: &mut Vec<String>,
    args: &mut Vec<&'a String>,
    column: &str,
    values: &'a Option<Vec<String>>,
)
    ensures
        match values {
            Some(v) => if v.len() > 0 {
                &&& views(final(conditions)@) == views(old(conditions)@).push(
                    filter_condition(column@, views(v@)),
                )
                &&& final(args)@.map_values(|s: &String| s@) == old(args)@.map_values(
                    |s: &String| s@,
                ) + views(v@)
            } else {
                &&& final(conditions)@ == old(conditions)@
                &&& final(args)@ == old(args)@
            },
            None => {
                &&& final(conditions)@ == old(conditions)@
                &&& final(args)@ == old(args)@
            },
        },
{
    if let Some(v) = values {
        if v.len() > 0 {
            let mut condition = concat2(column, " IN ");
            let ph = make_placeholders(v.len());
            condition.append(ph.as_str());
            let ghost before = conditions@;
            conditions.push(condition);
            assert(views(conditions@) =~= views(before).push(filter_condition(column@, views(v@))));
            let ghost old_args = args@;
            for i in 0..v.len()
                invariant
                    args.len() == old_args.len() + i,
                    args@.map_values(|s: &String| s@) == old_args.map_values(|s: &String| s@)
                        + views(v@).take(i as int),
            {
                let ghost prev = args@;
                args.push(&v[i]);
                assert forall|j: int| 0 <= j < prev.len() implies args@[j] == prev[j] by {}
                assert(args@.map_values(|s: &String| s@) =~= old_args.map_values(|s: &String| s@)
                    + views(v@).take(i + 1)) by {
                    assert(prev.map_values(|s: &String| s@) == old_args.map_values(|s: &String| s@)
                        + views(v@).take(i as int));
                    assert(args@[args.len() - 1]@ == v@[i as int]@);
                    assert(views(v@).take(i + 1) =~= views(v@).take(i as int).push(v@[i as int]@));
                    assert(args@.map_values(|s: &String| s@) =~= prev.map_values(|s: &String| s@).push(
                        v@[i as int]@,
                    ));
                }
            }
            assert(views(v@).take(v.len() as int) =~= views(v@));
        }
    }
}

/// Turns filters into an SQL condition (`status IN (?, ?) AND series IN (?)`)
/// and the values for its placeholders, in order.
pub fn from_filters_to_query_with_args<'a>(filters: &'a Filters) -> (r: (String, Vec<&'a String>))
    ensures
        r.0@ == filters_query(*filters),
        r.1@.map_values(|s: &String| s@) == filters_args(*filters),
{
    let mut conditions: Vec<String> = Vec::new();
    let mut args: Vec<&'a String> = Vec::new();
    let ghost cols = filter_columns(*filters);
    let columns: Vec<(&str, &'a Option<Vec<String>>)> = vec![
        ("status", &filters.status),
        ("publisher", &filters.publisher),
        ("series", &filters.series),
        ("binding", &filters.binding),
        ("section", &filters.section),
    ];
    assert(args@.map_values(|s: &String| s@) =~= Seq::<Seq<char>>::empty());
    assert(views(conditions@) =~= Seq::<Seq<char>>::empty());
    for i in 0..columns.len()
        invariant
            cols == filter_columns(*filters),
            columns.len() == 5,
            forall|k: int|
                0 <= k < 5 ==> (#[trigger] columns@[k]).0@ == cols[k].0 && *columns@[k].1
                    == cols[k].1,
            views(conditions@) == filter_conditions(active_filters(cols.take(i as int))),
            args@.map_values(|s: &String| s@) == filter_values(active_filters(cols.take(i as int))),
    {
        let ghost a = active_filters(cols.take(i as int));
        assert(cols.take(i + 1).drop_last() =~= cols.take(i as int));
        assert(cols.take(i + 1).last() == cols[i as int]);
        add_filter(&mut conditions, &mut args, columns[i].0, columns[i].1);
        proof {
            let t = cols.take(i + 1);
            match cols[i as int].1 {
                Some(v) => if v.len() > 0 {
                    let x = (cols[i as int].0, views(v@));
                    assert(a.push(x).drop_last() =~= a);
                    assert(filter_conditions(a.push(x)) =~= filter_conditions(a).push(
                        filter_condition(x.0, x.1),
                    ));
                },
                None => {},
            }
        }
    }
    assert(cols.take(5) =~= cols);
    (join_strings(&conditions, " AND "), args)
}

// ---------------------------------------------------------------------------
// Statements of the book list
// ---------------------------------------------------------------------------

/// An SQL statement with the values of its `?` placeholders, in order.
#[derive(Debug)]
pub struct SqlQuery {
    pub sql: String,
    pub args: Vec<String>,
}

impl View for SqlQuery {
    type V = (Seq<char>, Seq<Seq<char>>);

    open spec fn view(&self) -> (Seq<char>, Seq<Seq<char>>) {
        (self.sql@, views(self.args@))
    }
}

/// The columns of a book card, read from the books table.
pub open spec fn card_select() -> Seq<char> {
    "SELECT id, isbn, title, author, status, cover_url FROM books"@
}

/// The statement that finds books whose title or author holds a text.
pub open spec fn search_select() -> Seq<char> {
    "SELECT id, isbn, title, author, status, cover_url FROM books WHERE (title_lower LIKE ?1 OR author_lower LIKE ?1)"@
}

/// The ordering and paging that ends a list statement.
pub open spec fn page_clause() -> Seq<char> {
    " ORDER BY title ASC LIMIT ? OFFSET ?"@
}

/// A paging value in decimal, or its default.
pub open spec fn page_value(v: Option<i32>, default: Seq<char>) -> Seq<char> {
    match v {
        Some(n) => decimal(n as int),
        None => default,
    }
}

/// Writes a paging value in decimal, or its default.
fn page_string(v: Option<i32>, default: &str) -> (s: String)
    ensures
        s@ == page_value(v, default@),
{
    match v {
        Some(n) => decimal_string(n),
        None => copy_str(default),
    }
}

/// The search statement: books whose lower-case title or author contains the
/// lower-case text, restricted by the filters when they give a condition,
/// ordered by title, 30 from the start unless told otherwise.
pub open spec fn spec_search_query(
    query: Seq<char>,
    filters: Option<Filters>,
    limit: Option<i32>,
    offset: Option<i32>,
) -> (Seq<char>, Seq<Seq<char>>) {
    let pattern = "%"@ + lowercase(query) + "%"@;
    let (sql, args) = match filters {
        Some(f) => if filters_query(f).len() == 0 {
            (search_select(), seq![pattern])
        } else {
            (search_select() + " AND "@ + filters_query(f), seq![pattern] + filters_args(f))
        },
        None => (search_select(), seq![pattern]),
    };
    (sql + page_clause(), args + seq![page_value(limit, "30"@), page_value(offset, "0"@)])
}

/// Builds the statement that searches the books by title or author.
pub fn search_query_with_args(
    query: &str,
    filters: Option<&Filters>,
    limit: Option<i32>,
    offset: Option<i32>,
) -> (q: SqlQuery)
    ensures
        q@ == spec_search_query(
            query@,
            match filters {
                Some(f) => Some(*f),
                None => None,
            },
            limit,
            offset,
        ),
{
    let lower = to_lowercase(query);
    let mut pattern = copy_str("%");
    pattern.append(lower.as_str());
    pattern.append("%");
    let mut sql = copy_str(
        "SELECT id, isbn, title, author, status, cover_url FROM books WHERE (title_lower LIKE ?1 OR author_lower LIKE ?1)",
    );
    let mut args: Vec<String> = Vec::new();
    args.push(pattern);
    if let Some(f) = filters {
        let (condition, filter_args) = from_filters_to_query_with_args(f);
        if condition.unicode_len() > 0 {
            sql.append(" AND ");
            sql.append(condition.as_str());
            let ghost before = args@;
            for i in 0..filter_args.len()
                invariant
                    views(args@) == views(before) + filter_args@.map_values(|s: &String| s@).take(
                        i as int,
                    ),
            {
                let ghost prev = args@;
                args.push(copy_str(filter_args[i].as_str()));
                assert(views(args@) =~= views(prev).push(filter_args@[i as int]@));
                assert(filter_args@.map_values(|s: &String| s@).take(i + 1) =~= filter_args@.map_values(
                    |s: &String| s@,
                ).take(i as int).push(filter_args@[i as int]@));
            }
            assert(filter_args@.map_values(|s: &String| s@).take(filter_args.len() as int)
                =~= filter_args@.map_values(|s: &String| s@));
        }
    }
    sql.append(" ORDER BY title ASC LIMIT ? OFFSET ?");
    let ghost before = args@;
    args.push(page_string(limit, "30"));
    args.push(page_string(offset, "0"));
    assert(views(args@) =~= views(before) + seq![page_value(limit, "30"@), page_value(offset, "0"@)]);
    SqlQuery { sql, args }
}

/// The statement that lists all books: restricted by the filters when given
/// (the condition follows `WHERE` even when it is empty), ordered by title,
/// 30 from the start unless told otherwise.
pub open spec fn spec_all_books_query(
    filters: Option<Filters>,
    limit: Option<i32>,
    offset: Option<i32>,
) -> (Seq<char>, Seq<Seq<char>>) {
    let (sql, args) = match filters {
        Some(f) => (card_select() + " WHERE "@ + filters_query(f), filters_args(f)),
        None => (card_select(), Seq::empty()),
    };
    (sql + page_clause(), args + seq![page_value(limit, "30"@), page_value(offset, "0"@)])
}

/// Builds the statement that lists all books.
pub fn all_books_query_with_args(filters: Option<&Filters>, limit: Option<i32>, offset: Option<i32>) -> (q:
    SqlQuery)
    ensures
        q@ == spec_all_books_query(
            match filters {
                Some(f) => Some(*f),
                None => None,
            },
            limit,
            offset,
        ),
{
    let mut sql = copy_str("SELECT id, isbn, title, author, status, cover_url FROM books");
    let mut args: Vec<String> = Vec::new();
    if let Some(f) = filters {
        let (condition, filter_args) = from_filters_to_query_with_args(f);
        sql.append(" WHERE ");
        sql.append(condition.as_str());
        for i in 0..filter_args.len()
            invariant
                views(args@) == filter_args@.map_values(|s: &String| s@).take(i as int),
        {
            let ghost prev = args@;
            args.push(copy_str(filter_args[i].as_str()));
            assert(views(args@) =~= views(prev).push(filter_args@[i as int]@));
            assert(filter_args@.map_values(|s: &String| s@).take(i + 1) =~= filter_args@.map_values(
                |s: &String| s@,
            ).take(i as int).push(filter_args@[i as int]@));
        }
        assert(filter_args@.map_values(|s: &String| s@).take(filter_args.len() as int)
            =~= filter_args@.map_values(|s: &String| s@));
    } else {
        assert(views(args@) =~= Seq::<Seq<char>>::empty());
    }
    sql.append(" ORDER BY title ASC LIMIT ? OFFSET ?");
    let ghost before = args@;
    args.push(page_string(limit, "30"));
    args.push(page_string(offset, "0"));
    assert(views(args@) =~= views(before) + seq![page_value(limit, "30"@), page_value(offset, "0"@)]);
    SqlQuery { sql, args }
}

/// The statement that lists the distinct non-empty values of a column, in
/// order.
pub open spec fn spec_distinct_values_query(column: Seq<char>) -> Seq<char> {
    "SELECT DISTINCT "@ + column + " FROM books WHERE "@ + column + " IS NOT NULL AND "@ + column
        + " != '' ORDER BY "@ + column + " ASC"@
}

/// Builds the statement that lists the distinct non-empty values of a column.
pub fn distinct_values_query(column: &str) -> (sql: String)
    ensures
        sql@ == spec_distinct_values_query(column@),
{
    let mut sql = copy_str("SELECT DISTINCT ");
    sql.append(column);
    sql.append(" FROM books WHERE ");
    sql.append(column);
    sql.append(" IS NOT NULL AND ");
    sql.append(column);
    sql.append(" != '' ORDER BY ");
    sql.append(column);
    sql.append(" ASC");
    sql
}

/// The columns whose distinct values are offered as filters, in order.
pub open spec fn spec_filter_column_names() -> Seq<Seq<char>> {
    seq!["status"@, "publisher"@, "series"@, "binding"@, "section"@]
}

/// The columns whose distinct values are offered as filters, in order.
pub fn filter_column_names() -> (v: Vec<String>)
    ensures
        views(v@) == spec_filter_column_names(),
{
    let v = vec![copy_str("status"), copy_str("publisher"), copy_str("series"), copy_str("binding"), copy_str("section")];
    assert(views(v@) =~= spec_filter_column_names());
    v
}

/// The keys a new book is searched by: its title and its author in lower
/// case, matched by the `LIKE` patterns of the search statement.
pub fn search_keys(title: &str, author: &str) -> (keys: (String, String))
    ensures
        keys.0@ == lowercase(title@),
        keys.1@ == lowercase(author@),
{
    (to_lowercase(title), to_lowercase(author))
}

/// The message given when a searched book is already in the collection.
pub open spec fn already_stored_message() -> Seq<char> {
    "Это книга есть в базе данных!"@
}

/// Refuses to look a book up in the shop when the collection already has it.
pub fn check_not_in_library(existing: &Option<BookCard>) -> (r: Result<(), String>)
    ensures
        match r {
            Ok(()) => existing is None,
            Err(e) => existing is Some && e@ == already_stored_message(),
        },
{
    match existing {
        Some(_) => Err(copy_str("Это книга есть в базе данных!")),
        None => Ok(()),
    }
}

} // verus!
