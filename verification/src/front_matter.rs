//! Separation of a document's metadata block from its body.
//!
//! A document may open with a block of metadata enclosed between two
//! `---` markers. Everything after the second marker is the body.

use crate::text::{chars_of, trim, trim_bounds};
use vstd::prelude::*;
use vstd::string::StrSliceExecFns;

verus! {

/// Number of characters in the delimiter `---`.
pub const DELIMITER_LEN: usize = 3;

/// The delimiter that opens and closes a metadata block.
pub open spec fn delimiter() -> Seq<char> {
    seq!['-', '-', '-']
}

/// Whether the delimiter occurs in `text` at position `i`.
pub open spec fn delimiter_at(text: Seq<char>, i: int) -> bool {
    &&& 0 <= i
    &&& i + 3 <= text.len()
    &&& text[i] == '-'
    &&& text[i + 1] == '-'
    &&& text[i + 2] == '-'
}

/// The position of the first delimiter in `text` at or after `from`.
pub open spec fn first_delimiter(text: Seq<char>, from: int) -> Option<int>
    decreases text.len() - from,
{
    if from < 0 || from + 3 > text.len() {
        None
    } else if delimiter_at(text, from) {
        Some(from)
    } else {
        first_delimiter(text, from + 1)
    }
}

/// What a document splits into, as mathematical text.
pub enum FrontMatterModel {
    NoDelimiter { body: Seq<char> },
    WellFormed { metadata: Seq<char>, body: Seq<char> },
    Malformed { full_text: Seq<char> },
}

/// The split of `text`.
///
/// A text that does not open with the delimiter has no metadata block. One
/// that does is cut at its first two delimiters: the part between them is the
/// metadata block, the trimmed rest is the body. If the opening delimiter is
/// never closed, the whole text stays together.
pub open spec fn split(text: Seq<char>) -> FrontMatterModel {
    if !delimiter_at(text, 0) {
        FrontMatterModel::NoDelimiter { body: text }
    } else {
        match first_delimiter(text, 3) {
            Some(close) => FrontMatterModel::WellFormed {
                metadata: text.subrange(3, close),
                body: trim(text.subrange(close + 3, text.len() as int)),
            },
            None => FrontMatterModel::Malformed { full_text: text },
        }
    }
}

/// What a document splits into.
#[derive(Debug)]
pub enum FrontMatter {
    /// The document does not open with the delimiter: all of it is body.
    NoDelimiter { body: String },
    /// The document opens with a closed metadata block.
    WellFormed { metadata: String, body: String },
    /// The document opens with a delimiter that is never closed; the text is
    /// kept whole, delimiter included.
    Malformed { full_text: String },
}

impl View for FrontMatter {
    type V = FrontMatterModel;

    open spec fn view(&self) -> FrontMatterModel {
        match self {
            FrontMatter::NoDelimiter { body } => FrontMatterModel::NoDelimiter { body: body@ },
            FrontMatter::WellFormed { metadata, body } => FrontMatterModel::WellFormed {
                metadata: metadata@,
                body: body@,
            },
            FrontMatter::Malformed { full_text } => FrontMatterModel::Malformed {
                full_text: full_text@,
            },
        }
    }
}

/// `first_delimiter` finds a delimiter exactly when there is one, and then
/// the earliest.
pub proof fn lemma_first_delimiter(text: Seq<char>, from: int)
    requires
        0 <= from,
    ensures
        match first_delimiter(text, from) {
            Some(at) => {
                &&& from <= at
                &&& delimiter_at(text, at)
                &&& forall|k: int| from <= k < at ==> !delimiter_at(text, k)
            },
            None => forall|k: int| from <= k ==> !delimiter_at(text, k),
        },
    decreases text.len() - from,
{
    if from + 3 <= text.len() && !delimiter_at(text, from) {
        lemma_first_delimiter(text, from + 1);
    }
}

/// A text that does not open with the delimiter has no metadata block, and
/// its body is the text itself, unchanged.
pub proof fn lemma_split_without_delimiter(text: Seq<char>)
    requires
        !delimiter_at(text, 0),
    ensures
        split(text) == (FrontMatterModel::NoDelimiter { body: text }),
{
}

/// A metadata block written between two delimiters comes back as it was
/// written, and the body is the rest of the text, trimmed. The block must not
/// run into a delimiter before its own closing one.
pub proof fn lemma_split_well_formed(metadata: Seq<char>, rest: Seq<char>)
    requires
        forall|k: int| 0 <= k < metadata.len() ==> !delimiter_at(metadata + delimiter(), k),
    ensures
        split(delimiter() + metadata + delimiter() + rest) == (FrontMatterModel::WellFormed {
            metadata,
            body: trim(rest),
        }),
{
    let text = delimiter() + metadata + delimiter() + rest;
    let close = 3 + metadata.len() as int;
    assert(delimiter_at(text, 0));
    assert(delimiter_at(text, close));
    assert forall|k: int| 3 <= k < close implies !delimiter_at(text, k) by {
        let block = metadata + delimiter();
        assert(text[k] == block[k - 3]);
        assert(text[k + 1] == block[k - 2]);
        assert(text[k + 2] == block[k - 1]);
        assert(!delimiter_at(block, k - 3));
    }
    lemma_first_delimiter(text, 3);
    assert(first_delimiter(text, 3) == Some(close));
    assert(text.subrange(3, close) =~= metadata);
    assert(text.subrange(close + 3, text.len() as int) =~= rest);
}

/// A text whose opening delimiter is never closed is kept whole.
pub proof fn lemma_split_unclosed(text: Seq<char>)
    requires
        delimiter_at(text, 0),
        forall|k: int| 3 <= k ==> !delimiter_at(text, k),
    ensures
        split(text) == (FrontMatterModel::Malformed { full_text: text }),
{
    lemma_first_delimiter(text, 3);
}

/// Decides whether the delimiter occurs in `chars` at position `i`.
fn has_delimiter_at(chars: &Vec<char>, i: usize) -> (found: bool)
    ensures
        found == delimiter_at(chars@, i as int),
{
    let len = chars.len();
    len >= DELIMITER_LEN && i <= len - DELIMITER_LEN && chars[i] == '-' && chars[i + 1] == '-'
        && chars[i + 2] == '-'
}

/// Finds the first delimiter in `chars` at or after `from`.
fn find_delimiter(chars: &Vec<char>, from: usize) -> (found: Option<usize>)
    ensures
        match found {
            Some(at) => first_delimiter(chars@, from as int) == Some(at as int),
            None => first_delimiter(chars@, from as int) is None,
        },
{
    let len = chars.len();
    let mut i: usize = from;
    while i < len
        invariant
            len == chars.len(),
            from <= i,
            first_delimiter(chars@, from as int) == first_delimiter(chars@, i as int),
        decreases len - i,
    {
        if has_delimiter_at(chars, i) {
            return Some(i);
        }
        i = i + 1;
    }
    None
}

/// Splits a document into its metadata block and its body.
pub fn split_front_matter(raw: &str) -> (front: FrontMatter)
    ensures
        front@ == split(raw@),
{
    let chars = chars_of(raw);
    if !has_delimiter_at(&chars, 0) {
        return FrontMatter::NoDelimiter { body: raw.to_owned() };
    }
    match find_delimiter(&chars, DELIMITER_LEN) {
        None => FrontMatter::Malformed { full_text: raw.to_owned() },
        Some(close) => {
            proof {
                lemma_first_delimiter(chars@, DELIMITER_LEN as int);
            }
            let (lo, hi) = trim_bounds(&chars, close + DELIMITER_LEN);
            FrontMatter::WellFormed {
                metadata: raw.substring_char(DELIMITER_LEN, close).to_owned(),
                body: raw.substring_char(lo, hi).to_owned(),
            }
        },
    }
}

} // verus!
