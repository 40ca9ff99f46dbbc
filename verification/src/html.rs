use vstd::prelude::*;

verus! {

/// Parsed HTML documents, as produced by `scraper::Html::parse_document`.
#[verifier::external_type_specification]
#[verifier::external_body]
pub struct ExHtml(scraper::Html);

/// Compiled CSS selector groups, as produced by `scraper::Selector::parse`.
#[verifier::external_type_specification]
#[verifier::external_body]
pub struct ExSelector(scraper::Selector);

/// References to element nodes inside a parsed document.
#[verifier::external_type_specification]
#[verifier::external_body]
pub struct ExElementRef<'a>(scraper::ElementRef<'a>);

/// A step of selection: the selector text and the position of the element
/// among the matches of that selector, in the order the matching walk meets
/// them (see `select_in_document` and `select_in_element`).
pub type Step = (Seq<char>, nat);

/// Named result of `scraper::Selector::parse`: `None` when the text is a valid
/// selector group, otherwise the message of the error.
pub uninterp spec fn selector_parse_failure(selector: Seq<char>) -> Option<Seq<char>>;

/// Named result of `scraper::Html::select`: how many elements of the document
/// parsed from `html` match `selector`.
pub uninterp spec fn document_match_count(html: Seq<char>, selector: Seq<char>) -> nat;

/// Named result of `scraper::ElementRef::select`: how many descendants of the
/// element reached by `path` in the document parsed from `html` match `selector`.
pub uninterp spec fn element_match_count(html: Seq<char>, path: Seq<Step>, selector: Seq<char>) -> nat;

/// Named result of `scraper::ElementRef::text`: the text nodes under the
/// element reached by `path`, in the order of a depth-first walk of its
/// subtree.
pub uninterp spec fn element_text_nodes(html: Seq<char>, path: Seq<Step>) -> Seq<Seq<char>>;

/// Named result of `scraper::ElementRef::attr`: the value of attribute `name`
/// of the element reached by `path`, if it has one.
pub uninterp spec fn element_attribute(html: Seq<char>, path: Seq<Step>, name: Seq<char>) -> Option<Seq<char>>;

/// A parsed HTML document together with the text it was parsed from.
pub struct Document {
    doc: scraper::Html,
    source: Ghost<Seq<char>>,
}

impl Document {
    /// The text the document was parsed from.
    pub closed spec fn source(&self) -> Seq<char> {
        self.source@
    }
}

/// A compiled selector together with its text.
pub struct Query {
    sel: scraper::Selector,
    text: Ghost<Seq<char>>,
}

impl Query {
    /// The text the selector was compiled from.
    pub closed spec fn text(&self) -> Seq<char> {
        self.text@
    }
}

/// An element of a parsed document, identified by the document's source and
/// by the selection steps that reached it from the document.
pub struct Element<'a> {
    node: scraper::ElementRef<'a>,
    source: Ghost<Seq<char>>,
    path: Ghost<Seq<Step>>,
}

impl<'a> Element<'a> {
    /// The text of the document the element belongs to.
    pub closed spec fn source(&self) -> Seq<char> {
        self.source@
    }

    /// The selection steps that reached the element.
    pub closed spec fn path(&self) -> Seq<Step> {
        self.path@
    }
}

/// Parses a whole HTML document.
///
/// Trusted: calls `scraper::Html::parse_document`, which never fails (the
/// HTML5 parser recovers from any input). The document is identified by its
/// source text.
#[verifier::external_body]
pub fn parse_document(html: &str) -> (d: Document)
    ensures
        d.source() == html@,
{
    Document { doc: scraper::Html::parse_document(html), source: Ghost(html@) }
}

/// Compiles a CSS selector group.
///
/// Trusted: calls `scraper::Selector::parse`; on failure the error is turned
/// into its message (`Display` of `SelectorErrorKind`). Whether it fails, and
/// the message, are named by `selector_parse_failure`.
#[verifier::external_body]
pub fn parse_selector(selector: &str) -> (r: Result<Query, String>)
    ensures
        match r {
            Ok(q) => selector_parse_failure(selector@) is None && q.text() == selector@,
            Err(m) => selector_parse_failure(selector@) == Some(m@),
        },
{
    match scraper::Selector::parse(selector) {
        Ok(sel) => Ok(Query { sel, text: Ghost(selector@) }),
        Err(e) => Err(e.to_string()),
    }
}

/// All elements of a document that match a selector, in the order in which
/// the parser inserted their nodes into the document's node arena (the order
/// of `scraper::Html::select`).
///
/// Trusted: calls `scraper::Html::select` and collects the matches; the
/// `i`-th match is reached by the single step `(selector, i)`.
#[verifier::external_body]
pub fn select_in_document<'a>(d: &'a Document, q: &Query) -> (v: Vec<Element<'a>>)
    ensures
        v.len() == document_match_count(d.source(), q.text()),
        forall|i: int| 0 <= i < v.len() ==> {
            &&& (#[trigger] v[i]).source() == d.source()
            &&& v[i].path() == seq![(q.text(), i as nat)]
        },
{
    d.doc.select(&q.sel).enumerate().map(|(i, node)| Element {
        node,
        source: Ghost(d.source@),
        path: Ghost(seq![(q.text@, i as nat)]),
    }).collect()
}

/// All descendants of an element that match a selector, in the order of a
/// depth-first walk of its subtree (the order of `scraper::ElementRef::select`).
///
/// Trusted: calls `scraper::ElementRef::select` and collects the matches; the
/// `i`-th match is reached by the element's path followed by `(selector, i)`.
#[verifier::external_body]
pub fn select_in_element<'a>(e: &Element<'a>, q: &Query) -> (v: Vec<Element<'a>>)
    ensures
        v.len() == element_match_count(e.source(), e.path(), q.text()),
        forall|i: int| 0 <= i < v.len() ==> {
            &&& (#[trigger] v[i]).source() == e.source()
            &&& v[i].path() == e.path().push((q.text(), i as nat))
        },
{
    e.node.select(&q.sel).enumerate().map(|(i, node)| Element {
        node,
        source: Ghost(e.source@),
        path: Ghost(e.path@.push((q.text@, i as nat))),
    }).collect()
}

/// The text nodes under an element, in the order of a depth-first walk of its
/// subtree.
///
/// Trusted: calls `scraper::ElementRef::text` and copies each text node.
#[verifier::external_body]
pub fn element_texts(e: &Element) -> (v: Vec<String>)
    ensures
        v@.map_values(|t: String| t@) == element_text_nodes(e.source(), e.path()),
{
    e.node.text().map(|t| t.to_string()).collect()
}

/// The value of an attribute of an element.
///
/// Trusted: calls `scraper::ElementRef::attr` and copies the value.
#[verifier::external_body]
pub fn element_attr(e: &Element, name: &str) -> (r: Option<String>)
    ensures
        match r {
            Some(v) => element_attribute(e.source(), e.path(), name@) == Some(v@),
            None => element_attribute(e.source(), e.path(), name@) is None,
        },
{
    e.node.attr(name).map(|v| v.to_string())
}

} // verus!
