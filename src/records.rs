//! Rows the bot lists in pages: quotes and glossary terms.

use vstd::prelude::*;
use crate::pagination::PageRow;

verus! {

/// A motivational quote and, when known, its author.
pub struct QuoteData {
    pub quote: String,
    pub author: Option<String>,
}

impl PageRow for QuoteData {
    fn title(&self) -> String {
        self.quote.clone()
    }

    fn body(&self) -> String {
        match &self.author {
            Some(author) => author.clone(),
            None => "Anonymous".to_owned(),
        }
    }
}

/// A glossary term.
pub struct Term {
    pub id: String,
    pub term_name: String,
    pub meaning: String,
    pub usage: Option<String>,
    pub links: Option<Vec<String>>,
    pub category: Option<String>,
}

impl PageRow for Term {
    fn title(&self) -> String {
        self.term_name.clone()
    }

    fn body(&self) -> String {
        self.meaning.clone()
    }
}

} // verus!
