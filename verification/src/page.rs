//! Pages: what a source document becomes once parsed.
//!
//! Parsing runs in two steps, because decoding a metadata block is left to
//! the caller. `parse_markdown` splits the document; if it finds a metadata
//! block, the caller decodes it and hands the outcome to
//! `PendingPage::complete`.

use crate::front_matter::{
    delimiter, delimiter_at, lemma_split_unclosed, lemma_split_well_formed, split,
    split_front_matter, FrontMatter, FrontMatterModel,
};
use crate::markdown::{markdown_to_html, page_html};
use crate::paths::SitePath;
use crate::text::trim;
use vstd::prelude::*;

verus! {

/// The metadata of a page. Either field may be absent.
#[derive(Debug)]
pub struct PageMetadata {
    pub title: Option<String>,
    /// The date as written, uninterpreted.
    pub date: Option<String>,
}

/// A `PageMetadata` as mathematical text.
pub struct PageMetadataModel {
    pub title: Option<Seq<char>>,
    pub date: Option<Seq<char>>,
}

/// The text of an optional string.
pub open spec fn text_of(field: Option<String>) -> Option<Seq<char>> {
    match field {
        Some(text) => Some(text@),
        None => None,
    }
}

/// The metadata of a document that carries none.
pub open spec fn no_metadata() -> PageMetadataModel {
    PageMetadataModel { title: None, date: None }
}

impl View for PageMetadata {
    type V = PageMetadataModel;

    open spec fn view(&self) -> PageMetadataModel {
        PageMetadataModel { title: text_of(self.title), date: text_of(self.date) }
    }
}

impl PageMetadata {
    /// Metadata with both fields absent.
    pub fn empty() -> (metadata: PageMetadata)
        ensures
            metadata@ == no_metadata(),
    {
        PageMetadata { title: None, date: None }
    }
}

/// One source document, parsed.
#[derive(Debug)]
pub struct Page {
    pub metadata: PageMetadata,
    /// The body, still in markdown, without the metadata block.
    pub content: String,
    /// The body as an HTML fragment.
    pub html: String,
    /// Where the document was found.
    pub source_path: SitePath,
}

/// A `Page` as mathematical text.
pub struct PageModel {
    pub metadata: PageMetadataModel,
    pub content: Seq<char>,
    pub html: Seq<char>,
    pub source_path: Seq<Seq<char>>,
}

impl View for Page {
    type V = PageModel;

    open spec fn view(&self) -> PageModel {
        PageModel {
            metadata: self.metadata@,
            content: self.content@,
            html: self.html@,
            source_path: self.source_path@,
        }
    }
}

impl Page {
    /// The HTML of a page is the conversion of its content.
    pub open spec fn wf(&self) -> bool {
        self.html@ == page_html(self.content@)
    }
}

/// The page made of `metadata` and the markdown `body`.
pub open spec fn page_of(
    metadata: PageMetadataModel,
    body: Seq<char>,
    source_path: Seq<Seq<char>>,
) -> PageModel {
    PageModel { metadata, content: body, html: page_html(body), source_path }
}

/// Why a document could not be parsed.
#[derive(Debug)]
pub enum ParseError {
    /// The metadata block could not be decoded.
    Metadata { reason: String },
}

/// A document whose metadata block is still to be decoded.
#[derive(Debug)]
pub struct PendingPage {
    /// The text between the two delimiters.
    pub metadata_block: String,
    pub body: String,
    pub source_path: SitePath,
}

/// How far `parse_markdown` got.
#[derive(Debug)]
pub enum ParseStep {
    /// The document has no metadata block: the page is complete.
    Ready(Page),
    /// The document has a metadata block, which the caller decodes.
    NeedsMetadata(PendingPage),
}

/// What `parse_markdown` makes of the text `text` found at `source_path`.
pub open spec fn parse_step_matches(
    step: ParseStep,
    text: Seq<char>,
    source_path: Seq<Seq<char>>,
) -> bool {
    match split(text) {
        FrontMatterModel::NoDelimiter { body } => {
            &&& step matches ParseStep::Ready(page)
            &&& page@ == page_of(no_metadata(), body, source_path)
        },
        FrontMatterModel::Malformed { full_text } => {
            &&& step matches ParseStep::Ready(page)
            &&& page@ == page_of(no_metadata(), full_text, source_path)
        },
        FrontMatterModel::WellFormed { metadata, body } => {
            &&& step matches ParseStep::NeedsMetadata(pending)
            &&& pending.metadata_block@ == metadata
            &&& pending.body@ == body
            &&& pending.source_path@ == source_path
        },
    }
}

/// Builds the page for `body`, converting it to HTML.
fn make_page(metadata: PageMetadata, body: String, source_path: SitePath) -> (page: Page)
    ensures
        page@ == page_of(metadata@, body@, source_path@),
        page.wf(),
{
    let html = markdown_to_html(body.as_str());
    Page { metadata, content: body, html, source_path }
}

/// Parses the text of a source document up to the point where its metadata
/// block, if it has one, must be decoded.
pub fn parse_markdown(raw: &str, source_path: SitePath) -> (step: ParseStep)
    ensures
        parse_step_matches(step, raw@, source_path@),
        step matches ParseStep::Ready(page) ==> page.wf(),
{
    match split_front_matter(raw) {
        FrontMatter::NoDelimiter { body } => ParseStep::Ready(
            make_page(PageMetadata::empty(), body, source_path),
        ),
        FrontMatter::Malformed { full_text } => ParseStep::Ready(
            make_page(PageMetadata::empty(), full_text, source_path),
        ),
        FrontMatter::WellFormed { metadata, body } => ParseStep::NeedsMetadata(
            PendingPage { metadata_block: metadata, body, source_path },
        ),
    }
}

impl PendingPage {
    /// Finishes the page with the outcome of decoding its metadata block:
    /// the decoded metadata become the page's, a failure to decode becomes
    /// the page's failure.
    pub fn complete(self, decoded: Result<PageMetadata, String>) -> (parsed: Result<
        Page,
        ParseError,
    >)
        ensures
            match decoded {
                Ok(metadata) => {
                    &&& parsed matches Ok(page)
                    &&& page@ == page_of(metadata@, self.body@, self.source_path@)
                    &&& page.wf()
                },
                Err(reason) => {
                    &&& parsed matches Err(ParseError::Metadata { reason: reported })
                    &&& reported@ == reason@
                },
            },
    {
        match decoded {
            Ok(metadata) => Ok(make_page(metadata, self.body, self.source_path)),
            Err(reason) => Err(ParseError::Metadata { reason }),
        }
    }
}

/// A document that does not open with the delimiter becomes a page without
/// metadata whose content is the document, unchanged.
pub proof fn lemma_parse_without_delimiter(
    step: ParseStep,
    text: Seq<char>,
    source_path: Seq<Seq<char>>,
)
    requires
        parse_step_matches(step, text, source_path),
        !delimiter_at(text, 0),
    ensures
        step matches ParseStep::Ready(page) && page@.metadata == no_metadata() && page@.content
            == text,
{
}

/// A document made of a delimiter, a metadata block, a delimiter and a rest
/// waits for exactly that block to be decoded, and its body is the rest,
/// trimmed. The block must not run into a delimiter before its closing one.
pub proof fn lemma_parse_well_formed(
    step: ParseStep,
    metadata: Seq<char>,
    rest: Seq<char>,
    source_path: Seq<Seq<char>>,
)
    requires
        parse_step_matches(step, delimiter() + metadata + delimiter() + rest, source_path),
        forall|k: int| 0 <= k < metadata.len() ==> !delimiter_at(metadata + delimiter(), k),
    ensures
        step matches ParseStep::NeedsMetadata(pending) && pending.metadata_block@ == metadata
            && pending.body@ == trim(rest),
{
    lemma_split_well_formed(metadata, rest);
}

/// A document whose opening delimiter is never closed becomes a page
/// without metadata whose content is the whole document.
pub proof fn lemma_parse_unclosed(step: ParseStep, text: Seq<char>, source_path: Seq<Seq<char>>)
    requires
        parse_step_matches(step, text, source_path),
        delimiter_at(text, 0),
        forall|k: int| 3 <= k ==> !delimiter_at(text, k),
    ensures
        step matches ParseStep::Ready(page) && page@.metadata == no_metadata() && page@.content
            == text,
{
    lemma_split_unclosed(text);
}

/// Pages with the same content have the same HTML.
pub proof fn lemma_same_content_same_html(first: Page, second: Page)
    requires
        first.wf(),
        second.wf(),
        first.content@ == second.content@,
    ensures
        first.html@ == second.html@,
{
}

} // verus!
