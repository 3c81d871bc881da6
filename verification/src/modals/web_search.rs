use vstd::prelude::*;

verus! {

/// What kind of search to run.
#[derive(Clone, Copy, Debug, PartialEq, Eq, Structural)]
pub enum Topic {
    General,
    News,
    Finance,
}

/// Arguments of the web search tool.
#[derive(Clone, Debug)]
pub struct WebSearchRequest {
    pub query: String,
    pub topic: Topic,
    pub max_result: i32,
}

/// Topic used when a request names none.
pub fn topic_default() -> (t: Topic)
    ensures
        t == Topic::News,
{
    Topic::News
}

/// Number of results asked for when a request names none.
pub fn max_result_default() -> (n: i32)
    ensures
        n == 10,
{
    10
}

} // verus!
