//! Search settings and kinds of searchable content.
use vstd::prelude::*;
use crate::error::Error;

verus! {

/// Where the search index lives and how it is refreshed.
pub struct SearchConfig {
    pub index_path: String,
    pub max_results: usize,
    pub refresh_interval_seconds: u64,
}

/// Kinds of searchable content.
#[derive(Clone, Copy, Debug, PartialEq, Eq, Structural)]
pub enum SearchResultType {
    Code,
    Issue,
    Review,
    Release,
    Documentation,
    Comment,
}

/// A search index with its settings.
pub struct SearchIndex {
    config: SearchConfig,
}

impl SearchIndex {
    /// The largest number of results a search returns.
    pub closed spec fn spec_max_results(&self) -> usize {
        self.config.max_results
    }

    /// An index with the given settings.
    pub fn new(config: SearchConfig) -> (r: Result<SearchIndex, Error>)
        ensures
            r matches Ok(i) && i.spec_max_results() == config.max_results,
    {
        Ok(SearchIndex { config })
    }

    /// The largest number of results a search returns.
    pub fn max_results(&self) -> (r: usize)
        ensures
            r == self.spec_max_results(),
    {
        self.config.max_results
    }
}

/// Scores search results.
pub struct ScoreCalculator;

impl ScoreCalculator {
    pub fn new() -> (r: ScoreCalculator) {
        ScoreCalculator
    }
}

} // verus!
