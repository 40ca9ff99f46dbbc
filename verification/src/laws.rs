use vstd::prelude::*;

use crate::covers::{spec_cover_source, spec_decode_cover_data_url, split_on};
use crate::metadata::{row_entry, rows_map, RowTexts};
use crate::parser::{domen, spec_parse_catalog_page, spec_parse_url_image};
use crate::queries::{
    active_filters, card_select, filter_columns, filter_condition, filter_conditions,
    filter_values, filters_args, filters_query, page_clause, placeholders, search_select,
    spec_all_books_query, spec_search_query,
};
use crate::structs::Filters;
use crate::text::{
    collapse_ws, count_char, has_prefix, is_ws, join, trim, trim_end, trim_start, words,
};
use crate::web_url::{
    fixed_pairs, fixed_url, form_urlencoded, resized_pair, spec_replace_params_url,
    url_parse_failure, url_query_pairs, url_serialization, Pair,
};

verus! {

// ---------------------------------------------------------------------------
// Counting characters
// ---------------------------------------------------------------------------

/// Occurrences add up over a concatenation.
pub proof fn lemma_count_concat(a: Seq<char>, b: Seq<char>, c: char)
    ensures
        count_char(a + b, c) == count_char(a, c) + count_char(b, c),
    decreases b.len(),
{
    if b.len() == 0 {
        assert(a + b =~= a);
    } else {
        lemma_count_concat(a, b.drop_last(), c);
        assert((a + b).drop_last() =~= a + b.drop_last());
    }
}

/// The total number of occurrences of `c` in a list of texts.
pub open spec fn total_count(parts: Seq<Seq<char>>, c: char) -> nat
    decreases parts.len(),
{
    if parts.len() == 0 {
        0
    } else {
        total_count(parts.drop_last(), c) + count_char(parts.last(), c)
    }
}

/// Joining with a separator free of `c` keeps the occurrences of `c`.
pub proof fn lemma_count_join(parts: Seq<Seq<char>>, sep: Seq<char>, c: char)
    requires
        count_char(sep, c) == 0,
    ensures
        count_char(join(parts, sep), c) == total_count(parts, c),
    decreases parts.len(),
{
    if parts.len() == 1 {
        assert(parts.drop_last() =~= Seq::<Seq<char>>::empty());
        assert(total_count(parts.drop_last(), c) == 0);
        assert(parts.last() == parts[0]);
    } else if parts.len() > 1 {
        lemma_count_join(parts.drop_last(), sep, c);
        lemma_count_concat(join(parts.drop_last(), sep), sep, c);
        lemma_count_concat(join(parts.drop_last(), sep) + sep, parts.last(), c);
    }
}

/// `n` placeholders hold `n` question marks.
pub proof fn lemma_count_placeholders(n: nat)
    ensures
        count_char(placeholders(n), '?') == n,
{
    if n > 0 {
        let qs = Seq::new(n, |_i: int| "?"@);
        lemma_count_question_marks(n);
        reveal_strlit("(");
        reveal_strlit(")");
        reveal_strlit(", ");
        lemma_count_absent("("@, '?');
        lemma_count_absent(")"@, '?');
        lemma_count_concat("("@, join(qs, ", "@), '?');
        lemma_count_concat("("@ + join(qs, ", "@), ")"@, '?');
    }
}

proof fn lemma_count_question_marks(n: nat)
    ensures
        count_char(join(Seq::new(n, |_i: int| "?"@), ", "@), '?') == n,
    decreases n,
{
    reveal_strlit("?");
    reveal_strlit(", ");
    lemma_count_absent(", "@, '?');
    assert("?"@.drop_last() =~= Seq::<char>::empty());
    assert(count_char("?"@, '?') == count_char("?"@.drop_last(), '?') + 1);
    assert(count_char("?"@, '?') == 1);
    if n == 1 {
        assert(join(Seq::new(n, |_i: int| "?"@), ", "@) == "?"@);
    } else if n > 1 {
        let qs = Seq::new(n, |_i: int| "?"@);
        assert(qs.drop_last() =~= Seq::new((n - 1) as nat, |_i: int| "?"@));
        lemma_count_question_marks((n - 1) as nat);
        lemma_count_concat(join(qs.drop_last(), ", "@), ", "@, '?');
        lemma_count_concat(join(qs.drop_last(), ", "@) + ", "@, "?"@, '?');
    }
}

/// The restrictions in force keep only columns of the given list.
proof fn lemma_active_columns(cols: Seq<(Seq<char>, Option<Vec<String>>)>, c: char)
    requires
        forall|k: int| 0 <= k < cols.len() ==> count_char(#[trigger] cols[k].0, c) == 0,
    ensures
        forall|k: int|
            0 <= k < active_filters(cols).len() ==> count_char(
                #[trigger] active_filters(cols)[k].0,
                c,
            ) == 0,
    decreases cols.len(),
{
    if cols.len() > 0 {
        let rest = cols.drop_last();
        assert forall|k: int| 0 <= k < rest.len() implies count_char(#[trigger] rest[k].0, c)
            == 0 by {
            assert(rest[k] == cols[k]);
        }
        lemma_active_columns(rest, c);
        assert(count_char(cols[cols.len() - 1].0, c) == 0);
        assert(cols.last() == cols[cols.len() - 1]);
        let ra = active_filters(rest);
        let a = active_filters(cols);
        assert forall|k: int| 0 <= k < a.len() implies count_char(#[trigger] a[k].0, c) == 0 by {
            if k < ra.len() {
                assert(a[k] == ra[k]);
            }
        }
    }
}

/// The conditions of the restrictions in force hold one question mark per
/// value, when the column names hold none.
proof fn lemma_conditions_count(active: Seq<(Seq<char>, Seq<Seq<char>>)>)
    requires
        forall|k: int| 0 <= k < active.len() ==> count_char(#[trigger] active[k].0, '?') == 0,
    ensures
        total_count(filter_conditions(active), '?') == filter_values(active).len(),
    decreases active.len(),
{
    if active.len() > 0 {
        let rest = active.drop_last();
        assert forall|k: int| 0 <= k < rest.len() implies count_char(#[trigger] rest[k].0, '?')
            == 0 by {
            assert(rest[k] == active[k]);
        }
        lemma_conditions_count(rest);
        assert(filter_conditions(active).drop_last() =~= filter_conditions(rest));
        let a = active.last();
        reveal_strlit(" IN ");
        assert forall|i: int| 0 <= i < " IN "@.len() implies #[trigger] " IN "@[i] != '?' by {}
        lemma_count_absent(" IN "@, '?');
        lemma_count_placeholders(a.1.len());
        lemma_count_concat(a.0, " IN "@, '?');
        lemma_count_concat(a.0 + " IN "@, placeholders(a.1.len()), '?');
        assert(filter_conditions(active).last() == filter_condition(a.0, a.1));
    }
}

/// A text without `c` holds no occurrence of it.
pub proof fn lemma_count_absent(s: Seq<char>, c: char)
    requires
        forall|i: int| 0 <= i < s.len() ==> #[trigger] s[i] != c,
    ensures
        count_char(s, c) == 0,
    decreases s.len(),
{
    if s.len() > 0 {
        let t = s.drop_last();
        assert forall|i: int| 0 <= i < t.len() implies #[trigger] t[i] != c by {
            assert(t[i] == s[i]);
        }
        lemma_count_absent(t, c);
        assert(s.last() == s[s.len() - 1]);
    }
}

/// The SQL condition built from filters has exactly one `?` placeholder per
/// value handed out with it, so every value fills one placeholder.
pub proof fn law_filter_placeholders_match_args(f: Filters)
    ensures
        count_char(filters_query(f), '?') == filters_args(f).len(),
{
    let cols = filter_columns(f);
    reveal_strlit("status");
    reveal_strlit("publisher");
    reveal_strlit("series");
    reveal_strlit("binding");
    reveal_strlit("section");
    reveal_strlit(" AND ");
    assert forall|k: int| 0 <= k < cols.len() implies count_char(#[trigger] cols[k].0, '?')
        == 0 by {
        let name = cols[k].0;
        assert forall|i: int| 0 <= i < name.len() implies #[trigger] name[i] != '?' by {}
        lemma_count_absent(name, '?');
    }
    lemma_active_columns(cols, '?');
    let active = active_filters(cols);
    lemma_conditions_count(active);
    assert forall|i: int| 0 <= i < " AND "@.len() implies #[trigger] " AND "@[i] != '?' by {}
    lemma_count_absent(" AND "@, '?');
    lemma_count_join(filter_conditions(active), " AND "@, '?');
}

/// A text with `c` at exactly the positions `i` and `j` holds `c` twice.
proof fn lemma_count_two(s: Seq<char>, c: char, i: int, j: int)
    requires
        0 <= i < j < s.len(),
        s[i] == c,
        s[j] == c,
        forall|k: int| 0 <= k < s.len() && k != i && k != j ==> #[trigger] s[k] != c,
    ensures
        count_char(s, c) == 2,
{
    let a = s.take(i);
    let b = s.subrange(i + 1, j);
    let d = s.skip(j + 1);
    let q = seq![c];
    assert forall|k: int| 0 <= k < a.len() implies #[trigger] a[k] != c by {
        assert(a[k] == s[k]);
    }
    assert forall|k: int| 0 <= k < b.len() implies #[trigger] b[k] != c by {
        assert(b[k] == s[i + 1 + k]);
    }
    assert forall|k: int| 0 <= k < d.len() implies #[trigger] d[k] != c by {
        assert(d[k] == s[j + 1 + k]);
    }
    lemma_count_absent(a, c);
    lemma_count_absent(b, c);
    lemma_count_absent(d, c);
    assert(q.drop_last() =~= Seq::<char>::empty());
    assert(q.last() == c);
    assert(count_char(q.drop_last(), c) == 0);
    assert(count_char(q, c) == 1);
    assert(s =~= a + q + b + q + d);
    lemma_count_concat(a, q, c);
    lemma_count_concat(a + q, b, c);
    lemma_count_concat(a + q + b, q, c);
    lemma_count_concat(a + q + b + q, d, c);
}

/// The statement listing all books has exactly one `?` placeholder per value
/// handed out with it.
pub proof fn law_all_books_placeholders_match_args(
    filters: Option<Filters>,
    limit: Option<i32>,
    offset: Option<i32>,
)
    ensures
        count_char(spec_all_books_query(filters, limit, offset).0, '?') == spec_all_books_query(
            filters,
            limit,
            offset,
        ).1.len(),
{
    reveal_strlit("SELECT id, isbn, title, author, status, cover_url FROM books");
    reveal_strlit(" WHERE ");
    reveal_strlit(" ORDER BY title ASC LIMIT ? OFFSET ?");
    let base = card_select();
    assert forall|i: int| 0 <= i < base.len() implies #[trigger] base[i] != '?' by {}
    lemma_count_absent(base, '?');
    assert forall|i: int| 0 <= i < " WHERE "@.len() implies #[trigger] " WHERE "@[i] != '?' by {}
    lemma_count_absent(" WHERE "@, '?');
    let tail = page_clause();
    assert forall|k: int| 0 <= k < tail.len() && k != 26 && k != 35 implies #[trigger] tail[k]
        != '?' by {}
    lemma_count_two(tail, '?', 26, 35);
    match filters {
        Some(f) => {
            law_filter_placeholders_match_args(f);
            lemma_count_concat(base, " WHERE "@, '?');
            lemma_count_concat(base + " WHERE "@, filters_query(f), '?');
            lemma_count_concat(base + " WHERE "@ + filters_query(f), tail, '?');
        },
        None => {
            lemma_count_concat(base, tail, '?');
        },
    }
}

/// In the search statement the search pattern fills both `?1`, and every other
/// value fills one `?`: the statement holds one question mark more than it
/// has values.
pub proof fn law_search_placeholders_match_args(
    query: Seq<char>,
    filters: Option<Filters>,
    limit: Option<i32>,
    offset: Option<i32>,
)
    ensures
        count_char(spec_search_query(query, filters, limit, offset).0, '?') == spec_search_query(
            query,
            filters,
            limit,
            offset,
        ).1.len() + 1,
{
    reveal_strlit(
        "SELECT id, isbn, title, author, status, cover_url FROM books WHERE (title_lower LIKE ?1 OR author_lower LIKE ?1)",
    );
    reveal_strlit(" AND ");
    reveal_strlit(" ORDER BY title ASC LIMIT ? OFFSET ?");
    let base = search_select();
    assert forall|k: int| 0 <= k < base.len() && k != 85 && k != 109 implies #[trigger] base[k]
        != '?' by {}
    lemma_count_two(base, '?', 85, 109);
    let tail = page_clause();
    assert forall|k: int| 0 <= k < tail.len() && k != 26 && k != 35 implies #[trigger] tail[k]
        != '?' by {}
    lemma_count_two(tail, '?', 26, 35);
    assert forall|i: int| 0 <= i < " AND "@.len() implies #[trigger] " AND "@[i] != '?' by {}
    lemma_count_absent(" AND "@, '?');
    match filters {
        Some(f) => if filters_query(f).len() == 0 {
            lemma_count_concat(base, tail, '?');
        } else {
            law_filter_placeholders_match_args(f);
            lemma_count_concat(base, " AND "@, '?');
            lemma_count_concat(base + " AND "@, filters_query(f), '?');
            lemma_count_concat(base + " AND "@ + filters_query(f), tail, '?');
        },
        None => {
            lemma_count_concat(base, tail, '?');
        },
    }
}

// ---------------------------------------------------------------------------
// Splitting
// ---------------------------------------------------------------------------

/// Splitting at a character and joining the pieces back with it gives the
/// text again; there is one more piece than there are separators.
pub proof fn law_split_join_roundtrip(s: Seq<char>, sep: char)
    ensures
        join(split_on(s, sep), seq![sep]) == s,
        split_on(s, sep).len() == count_char(s, sep) + 1,
    decreases s.len(),
{
    if s.len() > 0 {
        let t = s.drop_last();
        law_split_join_roundtrip(t, sep);
        let p = split_on(t, sep);
        if s.last() == sep {
            assert(p.push(Seq::empty()).drop_last() =~= p);
            assert(s =~= t + seq![sep] + Seq::<char>::empty());
        } else {
            let q = p.update(p.len() - 1, p.last().push(s.last()));
            if p.len() == 1 {
                assert(q[0] =~= t.push(s.last()));
            } else {
                assert(q.drop_last() =~= p.drop_last());
                assert(q.last() == p.last().push(s.last()));
                assert(join(p, seq![sep]) == join(p.drop_last(), seq![sep]) + seq![sep] + p.last());
                assert(join(q, seq![sep]) == join(q.drop_last(), seq![sep]) + seq![sep] + q.last());
                assert(t == join(p, seq![sep]));
                assert(s =~= t.push(s.last()));
                assert(s =~= join(p.drop_last(), seq![sep]) + seq![sep] + p.last().push(s.last()));
            }
        }
    } else {
        assert(join(seq![Seq::<char>::empty()], seq![sep]) == Seq::<char>::empty());
    }
}

// ---------------------------------------------------------------------------
// White space
// ---------------------------------------------------------------------------

/// Trimming the end keeps a prefix.
proof fn lemma_trim_end_prefix(s: Seq<char>)
    ensures
        trim_end(s).len() <= s.len(),
        trim_end(s) == s.take(trim_end(s).len() as int),
        trim_end(s).len() > 0 ==> !is_ws(trim_end(s).last()),
    decreases s.len(),
{
    if s.len() > 0 && is_ws(s.last()) {
        lemma_trim_end_prefix(s.drop_last());
        assert(s.drop_last().take(trim_end(s).len() as int) =~= s.take(trim_end(s).len() as int));
    } else {
        assert(s.take(s.len() as int) =~= s);
    }
}

/// Trimming the start leaves a text that does not start with white space.
proof fn lemma_trim_start_front(s: Seq<char>)
    ensures
        trim_start(s).len() > 0 ==> !is_ws(trim_start(s)[0]),
    decreases s.len(),
{
    if s.len() > 0 && is_ws(s[0]) {
        lemma_trim_start_front(s.drop_first());
    }
}

/// A text that neither starts nor ends with white space is its own trim.
proof fn lemma_trim_clean(s: Seq<char>)
    requires
        s.len() > 0 ==> !is_ws(s[0]) && !is_ws(s.last()),
    ensures
        trim(s) == s,
{
}

/// Trimmed text neither starts nor ends with white space.
pub proof fn law_trim_clean(s: Seq<char>)
    ensures
        trim(s).len() > 0 ==> !is_ws(trim(s)[0]) && !is_ws(trim(s).last()),
{
    lemma_trim_start_front(s);
    lemma_trim_end_prefix(trim_start(s));
    if trim(s).len() > 0 {
        assert(trim(s)[0] == trim_start(s)[0]);
    }
}

/// Trimming twice is trimming once.
pub proof fn law_trim_idempotent(s: Seq<char>)
    ensures
        trim(trim(s)) == trim(s),
{
    law_trim_clean(s);
    lemma_trim_clean(trim(s));
}

/// Every word is non-empty and holds no white space.
proof fn lemma_words_clean(s: Seq<char>)
    ensures
        forall|i: int|
            0 <= i < words(s).len() ==> (#[trigger] words(s)[i]).len() > 0 && forall|j: int|
                0 <= j < words(s)[i].len() ==> !is_ws(#[trigger] words(s)[i][j]),
    decreases s.len(),
{
    if s.len() > 0 {
        lemma_words_clean(s.drop_last());
        let w = words(s.drop_last());
        if !is_ws(s.last()) {
            if s.len() >= 2 && !is_ws(s[s.len() - 2]) {
                assert(s.drop_last().last() == s[s.len() - 2]);
                crate::text::lemma_words_nonempty(s.drop_last());
                let u = w.update(w.len() - 1, w.last().push(s.last()));
                assert forall|i: int| 0 <= i < u.len() implies (#[trigger] u[i]).len() > 0 && forall|
                    j: int,
                | 0 <= j < u[i].len() ==> !is_ws(#[trigger] u[i][j]) by {
                    if i == w.len() - 1 {
                        assert(w.last() == w[i]);
                        assert(u[i] == w[i].push(s.last()));
                        assert forall|j: int| 0 <= j < u[i].len() implies !is_ws(#[trigger] u[i][j]) by {
                            if j < w[i].len() {
                                assert(u[i][j] == w[i][j]);
                            } else {
                                assert(u[i][j] == s.last());
                            }
                        }
                    } else {
                        assert(u[i] == w[i]);
                    }
                }
            } else {
                let u = w.push(seq![s.last()]);
                assert forall|i: int| 0 <= i < u.len() implies (#[trigger] u[i]).len() > 0 && forall|
                    j: int,
                | 0 <= j < u[i].len() ==> !is_ws(#[trigger] u[i][j]) by {
                    if i < w.len() {
                        assert(u[i] == w[i]);
                    }
                }
            }
        }
    }
}

/// Joined non-empty words start and end with the words' first and last
/// characters.
proof fn lemma_join_ends(w: Seq<Seq<char>>, sep: Seq<char>)
    requires
        w.len() > 0,
        forall|i: int| 0 <= i < w.len() ==> (#[trigger] w[i]).len() > 0,
    ensures
        join(w, sep).len() > 0,
        join(w, sep)[0] == w[0][0],
        join(w, sep).last() == w.last().last(),
    decreases w.len(),
{
    if w.len() > 1 {
        let v = w.drop_last();
        assert(v[0] == w[0]);
        lemma_join_ends(v, sep);
    }
}

/// Collapsed white space neither starts nor ends with white space, so the
/// trim that follows the join changes nothing.
pub proof fn law_collapse_is_trimmed(s: Seq<char>)
    ensures
        trim(collapse_ws(s)) == collapse_ws(s),
{
    let w = words(s);
    lemma_words_clean(s);
    if w.len() > 0 {
        lemma_join_ends(w, seq![' ']);
        assert(w.last() == w[w.len() - 1]);
        let last = w[w.len() - 1];
        assert(last.last() == last[last.len() - 1]);
    }
    lemma_trim_clean(collapse_ws(s));
}

/// Adding white space after a text adds no word.
proof fn lemma_words_push_ws(s: Seq<char>, c: char)
    requires
        is_ws(c),
    ensures
        words(s.push(c)) == words(s),
{
    assert(s.push(c).drop_last() =~= s);
}

/// A clean word after white space (or at the start) becomes one more word.
proof fn lemma_words_append_word(p: Seq<char>, y: Seq<char>)
    requires
        p.len() > 0 ==> is_ws(p.last()),
        y.len() > 0,
        forall|j: int| 0 <= j < y.len() ==> !is_ws(#[trigger] y[j]),
    ensures
        words(p + y) == words(p).push(y),
    decreases y.len(),
{
    let s = p + y;
    assert(s.drop_last() =~= p + y.drop_last());
    assert(s.last() == y[y.len() - 1]);
    if y.len() == 1 {
        assert(y =~= seq![y[0]]);
        if s.len() >= 2 {
            assert(s[s.len() - 2] == p.last());
        }
        assert(p + y.drop_last() =~= p);
    } else {
        let z = y.drop_last();
        assert forall|j: int| 0 <= j < z.len() implies !is_ws(#[trigger] z[j]) by {
            assert(z[j] == y[j]);
        }
        lemma_words_append_word(p, z);
        assert(s[s.len() - 2] == y[y.len() - 2]);
        assert(z.push(y.last()) =~= y);
        let wz = words(p).push(z);
        assert(wz.last() == z);
        assert(wz.update(wz.len() - 1, wz.last().push(s.last())) =~= words(p).push(y));
    }
}

/// The words of clean words joined by spaces are those words.
proof fn lemma_words_of_join(w: Seq<Seq<char>>)
    requires
        forall|i: int|
            0 <= i < w.len() ==> (#[trigger] w[i]).len() > 0 && forall|j: int|
                0 <= j < w[i].len() ==> !is_ws(#[trigger] w[i][j]),
    ensures
        words(join(w, seq![' '])) == w,
    decreases w.len(),
{
    if w.len() == 0 {
    } else if w.len() == 1 {
        lemma_words_append_word(Seq::empty(), w[0]);
        assert(Seq::<char>::empty() + w[0] =~= w[0]);
        assert(Seq::<Seq<char>>::empty().push(w[0]) =~= w);
    } else {
        let v = w.drop_last();
        assert forall|i: int|
            0 <= i < v.len() implies (#[trigger] v[i]).len() > 0 && forall|j: int|
                0 <= j < v[i].len() ==> !is_ws(#[trigger] v[i][j]) by {
            assert(v[i] == w[i]);
        }
        lemma_words_of_join(v);
        let x = join(v, seq![' ']);
        lemma_words_push_ws(x, ' ');
        assert(x + seq![' '] =~= x.push(' '));
        let last = w[w.len() - 1];
        assert forall|j: int| 0 <= j < last.len() implies !is_ws(#[trigger] last[j]) by {}
        lemma_words_append_word(x.push(' '), last);
        assert(v.push(last) =~= w);
    }
}

/// Collapsing white space twice is collapsing it once.
pub proof fn law_collapse_idempotent(s: Seq<char>)
    ensures
        collapse_ws(collapse_ws(s)) == collapse_ws(s),
{
    lemma_words_clean(s);
    lemma_words_of_join(words(s));
}

// ---------------------------------------------------------------------------
// Characteristics tables
// ---------------------------------------------------------------------------

/// Every name and value of a characteristics table is non-empty and has no
/// white space around it; values hold no run of white space but single spaces
/// between words.
pub proof fn law_metadata_entries_clean(rows: Seq<RowTexts>)
    ensures
        forall|k: Seq<char>|
            #[trigger] rows_map(rows).dom().contains(k) ==> {
                &&& k.len() > 0
                &&& trim(k) == k
                &&& rows_map(rows)[k].len() > 0
                &&& trim(rows_map(rows)[k]) == rows_map(rows)[k]
                &&& collapse_ws(rows_map(rows)[k]) == rows_map(rows)[k]
            },
    decreases rows.len(),
{
    if rows.len() > 0 {
        let rest = rows.drop_last();
        law_metadata_entries_clean(rest);
        let m = rows_map(rest);
        match row_entry(rows.last()) {
            Some(kv) => {
                match rows.last() {
                    (Some(th), Some(td)) => {
                        let raw = crate::text::concat(td);
                        law_trim_idempotent(crate::text::concat(th));
                        law_collapse_is_trimmed(raw);
                        law_collapse_idempotent(raw);
                        assert(kv.0 == trim(crate::text::concat(th)));
                        assert(kv.1 == trim(collapse_ws(raw)));
                        assert(kv.1 == collapse_ws(raw));
                    },
                    _ => {},
                }
                assert(rows_map(rows) == m.insert(kv.0, kv.1));
                assert forall|k: Seq<char>| #[trigger] rows_map(rows).dom().contains(k) implies {
                    &&& k.len() > 0
                    &&& trim(k) == k
                    &&& rows_map(rows)[k].len() > 0
                    &&& trim(rows_map(rows)[k]) == rows_map(rows)[k]
                    &&& collapse_ws(rows_map(rows)[k]) == rows_map(rows)[k]
                } by {
                    if k != kv.0 {
                        assert(m.dom().contains(k));
                    }
                }
            },
            None => {
                assert(rows_map(rows) == m);
            },
        }
    }
}

// ---------------------------------------------------------------------------
// Cover size
// ---------------------------------------------------------------------------

/// Fixing the cover size keeps every name and is done once for all: doing it
/// again changes nothing.
pub proof fn law_resize_idempotent(pairs: Seq<Pair>)
    ensures
        pairs.map_values(|p: Pair| resized_pair(p)).map_values(|p: Pair| resized_pair(p))
            == pairs.map_values(|p: Pair| resized_pair(p)),
        forall|i: int| 0 <= i < pairs.len() ==> resized_pair(#[trigger] pairs[i]).0 == pairs[i].0,
{
    let once = pairs.map_values(|p: Pair| resized_pair(p));
    assert(once.map_values(|p: Pair| resized_pair(p)) =~= once);
}

/// Fixing the cover size of an address whose size is already fixed gives the
/// address back. The `url` crate does not state that it reads back what it
/// writes, so the law covers exactly the addresses on which it does: the
/// rewritten address parses, its query gives back the pairs that were
/// written, and setting that same query on it again leaves its text as it is.
pub proof fn law_replace_params_url_idempotent(input: Seq<char>)
    requires
        url_parse_failure(input) is None,
        url_parse_failure(fixed_url(input)) is None,
        url_query_pairs(fixed_url(input), Seq::empty()) == fixed_pairs(input),
        url_serialization(
            fixed_url(input),
            seq![None, Some(form_urlencoded(fixed_pairs(input)))],
        ) == fixed_url(input),
    ensures
        spec_replace_params_url(input) == Ok::<Seq<char>, Seq<char>>(fixed_url(input)),
        spec_replace_params_url(fixed_url(input)) == Ok::<Seq<char>, Seq<char>>(
            fixed_url(input),
        ),
{
    law_resize_idempotent(url_query_pairs(input, Seq::empty()));
    assert(fixed_pairs(fixed_url(input)) == fixed_pairs(input));
}

// ---------------------------------------------------------------------------
// Addresses
// ---------------------------------------------------------------------------

/// A book found on the search page always has an address on the shop's site.
pub proof fn law_catalog_links_stay_on_site(html: Seq<char>)
    ensures
        spec_parse_catalog_page(html) matches Ok(found) ==> has_prefix(found.1, domen()),
{
    if let Ok(found) = spec_parse_catalog_page(html) {
        assert((domen() + found.1.skip(domen().len() as int)).take(domen().len() as int)
            =~= domen());
        assert(found.1 =~= domen() + found.1.skip(domen().len() as int));
    }
}

/// A cover address read from a book page always uses the `https` scheme.
pub proof fn law_cover_urls_use_https(html: Seq<char>)
    ensures
        spec_parse_url_image(html) matches Ok(u) ==> has_prefix(u, "https:"@),
{
    if let Ok(u) = spec_parse_url_image(html) {
        assert((u).take("https:"@.len() as int) =~= "https:"@);
    }
}

/// A new book's cover reference is refused exactly when it is empty.
pub proof fn law_cover_refused_iff_empty(cover_url: Seq<char>)
    ensures
        spec_cover_source(cover_url) is Err <==> cover_url.len() == 0,
{
    reveal_strlit("data:");
    reveal_strlit("https");
}

/// A cover data URL is accepted only with exactly one comma; with any other
/// number of commas it is refused as malformed.
pub proof fn law_data_url_has_one_comma(data_url: Seq<char>, isbn: Seq<char>)
    ensures
        spec_decode_cover_data_url(data_url, isbn) is Ok ==> count_char(data_url, ',') == 1,
        count_char(data_url, ',') != 1 ==> spec_decode_cover_data_url(data_url, isbn) == Err::<
            (Seq<char>, Seq<u8>),
            Seq<char>,
        >("Неверный формат Data URL"@),
{
    law_split_join_roundtrip(data_url, ',');
}

} // verus!
