//! The per-run configuration model: scraper definitions and their steps.
//!
//! Selectors, URLs and filesystem paths are carried as plain strings; the
//! engine hands a selector string to the HTML capability when a page is
//! processed, and paths are built purely by segment joining.

use vstd::prelude::*;

verus! {

/// A CSS-style selector, kept as its source text.
#[derive(Debug, Clone)]
pub struct HTMLSelector(pub String);

impl HTMLSelector {
    /// The selector's source text.
    pub fn as_str(&self) -> (r: &str)
        ensures
            r@ == self.0@,
    {
        self.0.as_str()
    }

    /// A copy whose text is equal to this selector's.
    pub fn duplicate(&self) -> (r: HTMLSelector)
        ensures
            r.0@ == self.0@,
    {
        HTMLSelector(self.0.clone())
    }
}

/// One stage of a destination's pipeline: expand links into new crawl
/// tasks, or collect resource URLs into a download batch.
#[derive(Debug, Clone)]
pub enum ScraperStep {
    ExtractHrefsFromHTML(HTMLSelector),
    DownloadImage(HTMLSelector),
}

/// The mathematical shape of a step: which kind it is, and its selector text.
pub ghost enum StepV {
    Extract(Seq<char>),
    Download(Seq<char>),
}

impl View for ScraperStep {
    type V = StepV;

    open spec fn view(&self) -> StepV {
        match self {
            ScraperStep::ExtractHrefsFromHTML(sel) => StepV::Extract(sel.0@),
            ScraperStep::DownloadImage(sel) => StepV::Download(sel.0@),
        }
    }
}

/// The views of a sequence of steps, in order.
pub open spec fn steps_view(s: Seq<ScraperStep>) -> Seq<StepV> {
    s.map_values(|st: ScraperStep| st@)
}

impl ScraperStep {
    /// A copy with the same kind and selector text.
    pub fn duplicate(&self) -> (r: ScraperStep)
        ensures
            r@ == self@,
    {
        match self {
            ScraperStep::ExtractHrefsFromHTML(sel) => {
                ScraperStep::ExtractHrefsFromHTML(sel.duplicate())
            },
            ScraperStep::DownloadImage(sel) => ScraperStep::DownloadImage(sel.duplicate()),
        }
    }
}

/// One scraper definition: where its tree is rooted, where crawling starts,
/// which domains it may touch, and the ordered step list.
#[derive(Debug, Clone)]
pub struct ScraperDefinition {
    pub dest: String,
    pub urls: Vec<String>,
    pub domain_whitelist: Vec<String>,
    pub steps: Vec<ScraperStep>,
}

/// A whole run's configuration: definitions processed one after another.
#[derive(Debug, Clone)]
pub struct Config {
    pub scrapers: Vec<ScraperDefinition>,
}

} // verus!
