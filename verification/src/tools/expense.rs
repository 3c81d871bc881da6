//! The expense MCP server's decisions: which address a lookup goes to, and
//! what a reply from the expense service becomes. Sending the request is an
//! outside call.

use vstd::prelude::*;

verus! {

/// The address of the lookup of the expenses in `category`.
pub open spec fn select_url_spec(base_url: Seq<char>, category: Seq<char>) -> Seq<char> {
    base_url + "/select/"@ + category
}

/// Builds the address of the lookup of the expenses in `category`.
pub fn select_url(base_url: &str, category: &str) -> (r: String)
    ensures
        r@ == select_url_spec(base_url@, category@),
{
    let mut r = String::from_str(base_url);
    r.append("/select/");
    r.append(category);
    r
}

/// What a reply of the expense service becomes: its body when the status is
/// a success, and otherwise an error of the status and the body.
pub open spec fn expense_reply_spec(success: bool, status: Seq<char>, body: Seq<char>) -> Result<Seq<char>, Seq<char>> {
    if success {
        Ok(body)
    } else {
        Err(status + ": "@ + body)
    }
}

/// Turns a reply of the expense service into the tool's result (see
/// [`expense_reply_spec`]); `status` is the status as written, such as
/// "404 Not Found".
pub fn expense_reply(success: bool, status: &str, body: String) -> (r: Result<String, String>)
    ensures
        match r {
            Ok(text) => expense_reply_spec(success, status@, body@) == Ok::<Seq<char>, Seq<char>>(text@),
            Err(e) => expense_reply_spec(success, status@, body@) == Err::<Seq<char>, Seq<char>>(e@),
        },
{
    if success {
        Ok(body)
    } else {
        let mut e = String::from_str(status);
        e.append(": ");
        e.append(body.as_str());
        Err(e)
    }
}

/// The body put in place of one that could not be read.
pub fn unreadable_body(error: &str) -> (r: String)
    ensures
        r@ == "read response content fail: "@ + error@,
{
    let mut r = String::from_str("read response content fail: ");
    r.append(error);
    r
}

/// The error of a request that was not answered.
pub fn request_failed(error: &str) -> (r: String)
    ensures
        r@ == "request failed: "@ + error@,
{
    let mut r = String::from_str("request failed: ");
    r.append(error);
    r
}

} // verus!
