//! The build driver's decisions: what becomes of each source document.
//!
//! Reading documents, having the template engine render them and writing
//! pages is the caller's part. This module says, for each document, what is
//! to be written and where, or why nothing is.

use crate::page::{Page, ParseError};
use crate::paths::{mapped_path, output_path, PathError, SitePath};
use vstd::prelude::*;

verus! {

/// A rendered page and the place it is written to.
#[derive(Debug)]
pub struct OutputFile {
    pub path: SitePath,
    pub contents: String,
}

/// A page, and what the template engine answered when asked to render it.
#[derive(Debug)]
pub struct RenderedPage {
    pub page: Page,
    pub rendered: Result<String, tera::Error>,
}

/// What became of one source document.
#[derive(Debug)]
pub enum FileOutcome {
    /// The document was rendered; the file is ready to be written.
    Rendered(OutputFile),
    /// The document could not be parsed.
    ParseFailed(ParseError),
    /// The template engine could not render the page.
    RenderFailed(tera::Error),
    /// The document does not lie under the input root.
    Unmapped(PathError),
}

/// Pairs the rendered text of `page` with the path it is written to: the
/// page's source path, moved from `input_root` to `output_root`, as an HTML
/// file.
pub fn html_output(
    page: &Page,
    rendered_html: String,
    input_root: &SitePath,
    output_root: &SitePath,
) -> (output: Result<OutputFile, PathError>)
    ensures
        match output {
            Ok(file) => {
                &&& mapped_path(page.source_path@, input_root@, output_root@) == Some(file.path@)
                &&& file.contents@ == rendered_html@
            },
            Err(PathError::OutsideInputRoot) => mapped_path(
                page.source_path@,
                input_root@,
                output_root@,
            ) is None,
        },
{
    match output_path(&page.source_path, input_root, output_root) {
        Ok(path) => Ok(OutputFile { path, contents: rendered_html }),
        Err(error) => Err(error),
    }
}

/// Whether `outcome` is what becomes of `page` once the template engine has
/// answered `rendered`: a failure to render is the outcome; a rendered text
/// goes to the page's output path, or nowhere if the page has none.
pub open spec fn settles(
    outcome: FileOutcome,
    page: Page,
    rendered: Result<String, tera::Error>,
    input_root: Seq<Seq<char>>,
    output_root: Seq<Seq<char>>,
) -> bool {
    match rendered {
        Err(error) => outcome == FileOutcome::RenderFailed(error),
        Ok(text) => match mapped_path(page.source_path@, input_root, output_root) {
            Some(path) => {
                &&& outcome matches FileOutcome::Rendered(file)
                &&& file.path@ == path
                &&& file.contents@ == text@
            },
            None => outcome == FileOutcome::Unmapped(PathError::OutsideInputRoot),
        },
    }
}

/// Whether `outcome` is what the driver owes the document `document`. A
/// document that failed to parse keeps its error. A page has the outcome
/// that the template engine's answer settles.
pub open spec fn outcome_matches(
    outcome: FileOutcome,
    document: Result<RenderedPage, ParseError>,
    input_root: Seq<Seq<char>>,
    output_root: Seq<Seq<char>>,
) -> bool {
    match document {
        Err(error) => outcome == FileOutcome::ParseFailed(error),
        Ok(rendered) => settles(outcome, rendered.page, rendered.rendered, input_root, output_root),
    }
}

/// Decides what becomes of `page`, given the template engine's answer.
pub fn page_outcome(
    page: &Page,
    rendered: Result<String, tera::Error>,
    input_root: &SitePath,
    output_root: &SitePath,
) -> (outcome: FileOutcome)
    ensures
        settles(outcome, *page, rendered, input_root@, output_root@),
{
    match rendered {
        Err(error) => FileOutcome::RenderFailed(error),
        Ok(text) => match html_output(page, text, input_root, output_root) {
            Ok(file) => FileOutcome::Rendered(file),
            Err(error) => FileOutcome::Unmapped(error),
        },
    }
}

/// Decides what becomes of one document.
pub fn build_page(
    document: Result<RenderedPage, ParseError>,
    input_root: &SitePath,
    output_root: &SitePath,
) -> (outcome: FileOutcome)
    ensures
        outcome_matches(outcome, document, input_root@, output_root@),
{
    match document {
        Err(error) => FileOutcome::ParseFailed(error),
        Ok(rendered) => page_outcome(&rendered.page, rendered.rendered, input_root, output_root),
    }
}

/// Decides what becomes of every document. Each document gets an outcome of
/// its own, in the order given: a document that fails does not keep any
/// other from being built.
pub fn build_site(
    documents: Vec<Result<RenderedPage, ParseError>>,
    input_root: &SitePath,
    output_root: &SitePath,
) -> (outcomes: Vec<FileOutcome>)
    ensures
        outcomes.len() == documents.len(),
        forall|i: int|
            0 <= i < documents.len() ==> outcome_matches(
                #[trigger] outcomes[i],
                documents[i],
                input_root@,
                output_root@,
            ),
{
    let mut outcomes: Vec<FileOutcome> = Vec::new();
    for document in it: documents
        invariant
            it.seq() == documents@,
            outcomes.len() == it.index(),
            forall|i: int|
                0 <= i < it.index() ==> outcome_matches(
                    #[trigger] outcomes[i],
                    documents[i],
                    input_root@,
                    output_root@,
                ),
    {
        let outcome = build_page(document, input_root, output_root);
        outcomes.push(outcome);
    }
    outcomes
}

} // verus!
