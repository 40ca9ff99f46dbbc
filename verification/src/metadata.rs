use vstd::prelude::*;

use crate::text::{collapse_whitespace, collapse_ws, concat, concat_strings, copy_str, same_text, trim, trim_string};

verus! {

/// The map that a list of insertions builds, later insertions of a key
/// replacing earlier ones.
pub open spec fn map_of(entries: Seq<(Seq<char>, Seq<char>)>) -> Map<Seq<char>, Seq<char>>
    decreases entries.len(),
{
    if entries.len() == 0 {
        Map::empty()
    } else {
        map_of(entries.drop_last()).insert(entries.last().0, entries.last().1)
    }
}

/// The characteristics of a book: names mapped to values.
#[derive(Debug)]
pub struct Metadata {
    entries: Vec<(String, String)>,
}

/// The text views of a list of entries.
pub open spec fn entry_views(entries: Seq<(String, String)>) -> Seq<(Seq<char>, Seq<char>)> {
    entries.map_values(|e: (String, String)| (e.0@, e.1@))
}

impl View for Metadata {
    type V = Map<Seq<char>, Seq<char>>;

    closed spec fn view(&self) -> Map<Seq<char>, Seq<char>> {
        map_of(entry_views(self.entries@))
    }
}

/// A map built by insertions holds the last key inserted.
proof fn lemma_map_of_nonempty(entries: Seq<(Seq<char>, Seq<char>)>)
    requires
        entries.len() > 0,
    ensures
        map_of(entries).dom().contains(entries.last().0),
{
}

/// A map built by insertions has a finite domain.
proof fn lemma_map_of_finite(entries: Seq<(Seq<char>, Seq<char>)>)
    ensures
        map_of(entries).dom().finite(),
    decreases entries.len(),
{
    if entries.len() > 0 {
        lemma_map_of_finite(entries.drop_last());
    }
}

impl Metadata {
    /// An empty table.
    pub fn new() -> (m: Metadata)
        ensures
            m@ == Map::<Seq<char>, Seq<char>>::empty(),
    {
        Metadata { entries: Vec::new() }
    }

    /// Sets the value of a name, replacing the value it had.
    pub fn insert(&mut self, key: String, value: String)
        ensures
            final(self)@ == old(self)@.insert(key@, value@),
    {
        let ghost old_entries = self.entries@;
        self.entries.push((key, value));
        assert(entry_views(self.entries@).drop_last() =~= entry_views(old_entries));
    }

    /// Whether the table holds no name.
    pub fn is_empty(&self) -> (b: bool)
        ensures
            b == (self@.dom() =~= Set::<Seq<char>>::empty()),
            self@.dom().finite(),
    {
        proof {
            lemma_map_of_finite(entry_views(self.entries@));
        }
        if self.entries.len() == 0 {
            true
        } else {
            proof {
                lemma_map_of_nonempty(entry_views(self.entries@));
            }
            false
        }
    }

    /// The value of a name, if the table has it.
    pub fn get(&self, key: &str) -> (r: Option<String>)
        ensures
            match r {
                Some(v) => self@.dom().contains(key@) && self@[key@] == v@,
                None => !self@.dom().contains(key@),
            },
    {
        let ghost views = entry_views(self.entries@);
        let mut i = self.entries.len();
        assert(views.take(i as int) =~= views);
        while i > 0
            invariant
                views == entry_views(self.entries@),
                i <= self.entries.len(),
                map_of(views).dom().contains(key@) == map_of(views.take(i as int)).dom().contains(
                    key@,
                ),
                map_of(views.take(i as int)).dom().contains(key@) ==> map_of(views)[key@]
                    == map_of(views.take(i as int))[key@],
            decreases i,
        {
            let ghost t = views.take(i as int);
            assert(t.drop_last() =~= views.take(i - 1));
            assert(t.last() == views[i - 1]);
            if same_text(self.entries[i - 1].0.as_str(), key) {
                return Some(copy_str(self.entries[i - 1].1.as_str()));
            }
            i = i - 1;
        }
        assert(views.take(0) =~= Seq::<(Seq<char>, Seq<char>)>::empty());
        None
    }
}

/// The texts found in one row of a characteristics table: those of its
/// header cell and of its value cell, each `None` when the row lacks it.
pub type RowTexts = (Option<Seq<Seq<char>>>, Option<Seq<Seq<char>>>);

/// The entry a row gives: the header text trimmed, the value text with its
/// white space collapsed and trimmed; none when a cell is missing or either
/// text is empty.
pub open spec fn row_entry(row: RowTexts) -> Option<(Seq<char>, Seq<char>)> {
    match row {
        (Some(th), Some(td)) => {
            let key = trim(concat(th));
            let value = trim(collapse_ws(concat(td)));
            if key.len() > 0 && value.len() > 0 {
                Some((key, value))
            } else {
                None
            }
        },
        _ => None,
    }
}

/// The table that a sequence of rows gives, row by row.
pub open spec fn rows_map(rows: Seq<RowTexts>) -> Map<Seq<char>, Seq<char>>
    decreases rows.len(),
{
    if rows.len() == 0 {
        Map::empty()
    } else {
        let m = rows_map(rows.drop_last());
        match row_entry(rows.last()) {
            Some(kv) => m.insert(kv.0, kv.1),
            None => m,
        }
    }
}

/// The message given when a table yields no entry.
pub open spec fn empty_table_message() -> Seq<char> {
    "Таблица пуста или не содержит данных"@
}

/// The text views of the cells of a row.
pub open spec fn row_texts_view(row: (Option<Vec<String>>, Option<Vec<String>>)) -> RowTexts {
    (
        match row.0 {
            Some(v) => Some(v@.map_values(|t: String| t@)),
            None => None,
        },
        match row.1 {
            Some(v) => Some(v@.map_values(|t: String| t@)),
            None => None,
        },
    )
}

/// What a table with these rows gives: its entries, or the empty-table
/// message when no row gives one.
pub open spec fn spec_metadata_from_rows(rows: Seq<RowTexts>) -> Result<
    Map<Seq<char>, Seq<char>>,
    Seq<char>,
> {
    let m = rows_map(rows);
    if m.dom() =~= Set::empty() {
        Err(empty_table_message())
    } else {
        Ok(m)
    }
}

/// Builds the characteristics table from the texts of its rows.
pub fn metadata_from_rows(rows: &Vec<(Option<Vec<String>>, Option<Vec<String>>)>) -> (r: Result<
    Metadata,
    String,
>)
    ensures
        match r {
            Ok(m) => spec_metadata_from_rows(rows@.map_values(|x| row_texts_view(x))) == Ok::<
                Map<Seq<char>, Seq<char>>,
                Seq<char>,
            >(m@),
            Err(e) => spec_metadata_from_rows(rows@.map_values(|x| row_texts_view(x))) == Err::<
                Map<Seq<char>, Seq<char>>,
                Seq<char>,
            >(e@),
        },
{
    let ghost views = rows@.map_values(|x| row_texts_view(x));
    let mut m = Metadata::new();
    for i in 0..rows.len()
        invariant
            views == rows@.map_values(|x| row_texts_view(x)),
            m@ == rows_map(views.take(i as int)),
    {
        assert(views.take(i + 1).drop_last() =~= views.take(i as int));
        let row = &rows[i];
        match (&row.0, &row.1) {
            (Some(th), Some(td)) => {
                let key_text = concat_strings(th);
                let key = trim_string(key_text.as_str());
                let value_text = concat_strings(td);
                let collapsed = collapse_whitespace(value_text.as_str());
                let value = trim_string(collapsed.as_str());
                if key.unicode_len() > 0 && value.unicode_len() > 0 {
                    m.insert(key, value);
                }
            },
            _ => {},
        }
    }
    assert(views.take(rows.len() as int) =~= views);
    if m.is_empty() {
        Err(copy_str("Таблица пуста или не содержит данных"))
    } else {
        Ok(m)
    }
}

} // verus!
