use vstd::prelude::*;

use crate::text::{concat2, contains_str, copy_str, has_infix, has_prefix, push_char, starts_with};

verus! {

// ---------------------------------------------------------------------------
// Outside calls
// ---------------------------------------------------------------------------

/// Named result of decoding with `base64`'s standard engine
/// (`BASE64_STANDARD.decode`): the bytes, or the message of the error.
pub uninterp spec fn base64_decode(text: Seq<char>) -> Result<Seq<u8>, Seq<char>>;

/// Decodes standard base64 text.
///
/// Trusted: calls `base64::Engine::decode` on `base64::prelude::BASE64_STANDARD`
/// with the text's bytes; on failure the error is turned into its message
/// (`Display` of `base64::DecodeError`). Both are named by `base64_decode`.
#[verifier::external_body]
pub fn decode_base64(text: &str) -> (r: Result<Vec<u8>, String>)
    ensures
        match r {
            Ok(b) => base64_decode(text@) == Ok::<Seq<u8>, Seq<char>>(b@),
            Err(m) => base64_decode(text@) == Err::<Seq<u8>, Seq<char>>(m@),
        },
{
    base64::Engine::decode(&base64::prelude::BASE64_STANDARD, text).map_err(|e| e.to_string())
}

/// Named result of `std::path::Path::extension` on a path given as text: the
/// part of the file name after its last `.`, if any.
pub uninterp spec fn path_extension(path: Seq<char>) -> Option<Seq<char>>;

/// The extension of the file a path names.
///
/// Trusted: calls `std::path::Path::extension`; the path is text, so the
/// extension is text too. As its documentation says, a path without any `.`
/// has no extension.
#[verifier::external_body]
pub fn file_extension(path: &str) -> (r: Option<String>)
    ensures
        match r {
            Some(e) => path_extension(path@) == Some(e@),
            None => path_extension(path@) is None,
        },
        !path@.contains('.') ==> r is None,
{
    std::path::Path::new(path).extension().and_then(|e| e.to_str()).map(|e| e.to_string())
}

// ---------------------------------------------------------------------------
// File names
// ---------------------------------------------------------------------------

/// The name of a cover file: the ISBN, a dot and the extension.
pub open spec fn spec_cover_file_name(isbn: Seq<char>, ext: Seq<char>) -> Seq<char> {
    isbn + "."@ + ext
}

/// Names the cover file of a book.
pub fn cover_file_name(isbn: &str, ext: &str) -> (name: String)
    ensures
        name@ == spec_cover_file_name(isbn@, ext@),
{
    let mut name = copy_str(isbn);
    name.append(".");
    name.append(ext);
    name
}

/// The name under which a chosen picture file is kept: the ISBN with the
/// file's own extension, `jpg` when it has none.
pub open spec fn spec_copied_cover_name(file_path: Seq<char>, isbn: Seq<char>) -> Seq<char> {
    match path_extension(file_path) {
        Some(ext) => spec_cover_file_name(isbn, ext),
        None => spec_cover_file_name(isbn, "jpg"@),
    }
}

/// Names the copy of a picture file chosen as a cover.
pub fn copied_cover_name(file_path: &str, isbn: &str) -> (name: String)
    ensures
        name@ == spec_copied_cover_name(file_path@, isbn@),
{
    match file_extension(file_path) {
        Some(ext) => cover_file_name(isbn, ext.as_str()),
        None => cover_file_name(isbn, "jpg"),
    }
}

// ---------------------------------------------------------------------------
// Data URLs
// ---------------------------------------------------------------------------

/// The pieces of `s` between occurrences of `sep`, as `str::split` yields them
/// (always at least one piece).
pub open spec fn split_on(s: Seq<char>, sep: char) -> Seq<Seq<char>>
    decreases s.len(),
{
    if s.len() == 0 {
        seq![Seq::empty()]
    } else {
        let p = split_on(s.drop_last(), sep);
        if s.last() == sep {
            p.push(Seq::empty())
        } else {
            p.update(p.len() - 1, p.last().push(s.last()))
        }
    }
}

proof fn lemma_split_on_nonempty(s: Seq<char>, sep: char)
    ensures
        split_on(s, sep).len() >= 1,
    decreases s.len(),
{
    if s.len() > 0 {
        lemma_split_on_nonempty(s.drop_last(), sep);
    }
}

/// Splits a string at each occurrence of a character.
pub fn split_at_char(s: &str, sep: char) -> (parts: Vec<String>)
    ensures
        parts@.map_values(|p: String| p@) == split_on(s@, sep),
{
    let len = s.unicode_len();
    let mut parts: Vec<String> = Vec::new();
    let mut current = String::new();
    for c in it: s.chars()
        invariant
            len == s@.len(),
            it.seq() == s@,
            parts@.map_values(|p: String| p@).push(current@) == split_on(s@.take(it.index()), sep),
    {
        let ghost t = s@.take(it.index() + 1);
        assert(t.drop_last() =~= s@.take(it.index()));
        proof {
            lemma_split_on_nonempty(s@.take(it.index()), sep);
        }
        let ghost before = parts@.map_values(|p: String| p@).push(current@);
        if c == sep {
            let finished = current;
            current = String::new();
            parts.push(finished);
            assert(parts@.map_values(|p: String| p@).push(current@) =~= before.push(Seq::empty()));
        } else {
            push_char(&mut current, c);
            assert(parts@.map_values(|p: String| p@).push(current@) =~= before.update(
                before.len() - 1,
                before.last().push(c),
            ));
        }
    }
    assert(s@.take(s@.len() as int) =~= s@);
    parts.push(current);
    parts
}

/// The file extension that the media-type part of a data URL calls for.
pub open spec fn spec_mime_extension(mime: Seq<char>) -> Seq<char> {
    if has_infix(mime, "jpeg"@) || has_infix(mime, "jpg"@) {
        "jpg"@
    } else if has_infix(mime, "png"@) {
        "png"@
    } else if has_infix(mime, "gif"@) {
        "gif"@
    } else if has_infix(mime, "webp"@) {
        "webp"@
    } else {
        "jpg"@
    }
}

/// Chooses the file extension for the media-type part of a data URL.
pub fn mime_extension(mime: &str) -> (ext: String)
    ensures
        ext@ == spec_mime_extension(mime@),
{
    if contains_str(mime, "jpeg") || contains_str(mime, "jpg") {
        copy_str("jpg")
    } else if contains_str(mime, "png") {
        copy_str("png")
    } else if contains_str(mime, "gif") {
        copy_str("gif")
    } else if contains_str(mime, "webp") {
        copy_str("webp")
    } else {
        copy_str("jpg")
    }
}

/// A cover ready to be written: its file name and its bytes.
#[derive(Debug)]
pub struct CoverFile {
    pub file_name: String,
    pub bytes: Vec<u8>,
}

/// What a data URL gives as a cover for a book: it must hold exactly one
/// comma; the part before it chooses the extension and the part after it is
/// the base64 picture.
pub open spec fn spec_decode_cover_data_url(data_url: Seq<char>, isbn: Seq<char>) -> Result<
    (Seq<char>, Seq<u8>),
    Seq<char>,
> {
    let parts = split_on(data_url, ',');
    if parts.len() != 2 {
        Err("Неверный формат Data URL"@)
    } else {
        match base64_decode(parts[1]) {
            Err(m) => Err("Ошибка декодирования base64: "@ + m),
            Ok(bytes) => Ok((spec_cover_file_name(isbn, spec_mime_extension(parts[0])), bytes)),
        }
    }
}

/// Decodes a cover given as a data URL (`data:image/png;base64,...`) into the
/// file to write for a book.
pub fn decode_cover_data_url(data_url: &str, isbn: &str) -> (r: Result<CoverFile, String>)
    ensures
        match r {
            Ok(c) => spec_decode_cover_data_url(data_url@, isbn@) == Ok::<
                (Seq<char>, Seq<u8>),
                Seq<char>,
            >((c.file_name@, c.bytes@)),
            Err(e) => spec_decode_cover_data_url(data_url@, isbn@) == Err::<
                (Seq<char>, Seq<u8>),
                Seq<char>,
            >(e@),
        },
{
    let parts = split_at_char(data_url, ',');
    if parts.len() != 2 {
        return Err(copy_str("Неверный формат Data URL"));
    }
    let ext = mime_extension(parts[0].as_str());
    let bytes = match decode_base64(parts[1].as_str()) {
        Ok(b) => b,
        Err(m) => return Err(concat2("Ошибка декодирования base64: ", m.as_str())),
    };
    Ok(CoverFile { file_name: cover_file_name(isbn, ext.as_str()), bytes })
}

// ---------------------------------------------------------------------------
// Where a new cover comes from
// ---------------------------------------------------------------------------

/// The kinds of cover a new book can be given.
#[derive(PartialEq, Eq, Structural, Debug, Clone, Copy)]
pub enum CoverSource {
    /// A picture embedded in a `data:` URL.
    DataUrl,
    /// A picture to download from an `https` address.
    Download,
    /// A picture file on this machine.
    LocalFile,
}

/// What a cover reference calls for.
pub open spec fn spec_cover_source(cover_url: Seq<char>) -> Result<CoverSource, Seq<char>> {
    if has_prefix(cover_url, "data:"@) {
        Ok(CoverSource::DataUrl)
    } else if has_prefix(cover_url, "https"@) {
        Ok(CoverSource::Download)
    } else if cover_url.len() > 0 {
        Ok(CoverSource::LocalFile)
    } else {
        Err("Не указана обложка"@)
    }
}

/// Decides how to obtain the cover of a new book from the reference given.
pub fn cover_source(cover_url: &str) -> (r: Result<CoverSource, String>)
    ensures
        match r {
            Ok(k) => spec_cover_source(cover_url@) == Ok::<CoverSource, Seq<char>>(k),
            Err(e) => spec_cover_source(cover_url@) == Err::<CoverSource, Seq<char>>(e@),
        },
{
    if starts_with(cover_url, "data:") {
        Ok(CoverSource::DataUrl)
    } else if starts_with(cover_url, "https") {
        Ok(CoverSource::Download)
    } else if cover_url.unicode_len() > 0 {
        Ok(CoverSource::LocalFile)
    } else {
        Err(copy_str("Не указана обложка"))
    }
}

} // verus!
