//! The requests that the wiki generator serves.

use vstd::prelude::*;
use crate::search::Wikibox;

verus! {

/// A request: the instruction table, the wiki boxes of one page, or a
/// query to the wiki.
#[derive(Clone, Debug, PartialEq)]
pub enum Sub {
    Instructions(Instructions),
    Wikibox(Wikibox),
    Query(Query),
}

/// A request for the instruction table.
#[derive(Clone, Debug, PartialEq)]
pub struct Instructions {}

/// A query to the wiki.
#[derive(Clone, Debug, PartialEq)]
pub struct Query {
    pub sub: QuerySubcommand,
}

/// What a query to the wiki asks for.
#[derive(Clone, Debug, PartialEq)]
pub enum QuerySubcommand {
    All,
}

} // verus!
