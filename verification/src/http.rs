//! What the library needs to know of an HTTP exchange.

use vstd::prelude::*;

verus! {

/// The outcome of a request whose answer carries a `T`.
pub enum Reply<T> {
    /// The request failed.
    NoAnswer,
    /// The server answered; `body` is there where it was read and understood.
    Answer { status: u16, body: Option<T> },
}

/// Status codes of success.
pub open spec fn success_status(status: u16) -> bool {
    200 <= status < 300
}

/// Whether a status code is one of success, so that the body is worth reading.
pub fn is_success(status: u16) -> (r: bool)
    ensures
        r == success_status(status),
{
    200 <= status && status < 300
}

/// The body of an answer with a status of success.
pub open spec fn accepted_body<T>(reply: Reply<T>) -> Option<T> {
    match reply {
        Reply::Answer { status, body } => if success_status(status) {
            body
        } else {
            None
        },
        Reply::NoAnswer => None,
    }
}

/// The body of an answer with a status of success.
pub fn accepted<T>(reply: Reply<T>) -> (r: Option<T>)
    ensures
        r == accepted_body(reply),
{
    match reply {
        Reply::Answer { status, body } => if is_success(status) {
            body
        } else {
            None
        },
        Reply::NoAnswer => None,
    }
}

/// The views of the names and values of a form or a query.
pub open spec fn pairs_view(pairs: Seq<(String, String)>) -> Seq<(Seq<char>, Seq<char>)> {
    pairs.map_values(|p: (String, String)| (p.0@, p.1@))
}

/// The codes of success are those that begin with a two, of three digits.
pub proof fn law_success_is_the_two_hundreds(status: u16)
    ensures
        success_status(status) <==> status / 100 == 2,
{
}

/// A body is accepted exactly when the server answered with a code of success and
/// the body was understood, and it is then the one that came.
pub proof fn law_accepted_is_what_came<T>(reply: Reply<T>)
    ensures
        accepted_body(reply) is Some <==> (reply matches Reply::Answer { status, body } && status
            / 100 == 2 && body is Some),
        accepted_body(reply) is Some ==> (reply matches Reply::Answer { body, .. } && body
            == accepted_body(reply)),
{
}

/// Names and values are seen as what they are, in order.
pub proof fn law_pairs_view(pairs: Seq<(String, String)>)
    ensures
        pairs_view(pairs).len() == pairs.len(),
        forall|i: int|
            0 <= i < pairs.len() ==> #[trigger] pairs_view(pairs)[i] == (pairs[i].0@, pairs[i].1@),
{
}

} // verus!
