//! The little of HTTP that decisions depend on.

use vstd::prelude::*;
use vstd::string::*;

use crate::text::{decimal, decimal_u64};

verus! {

/// Whether a status reports success.
pub open spec fn success(status: u16) -> bool {
    200 <= status < 300
}

/// Whether a status reports success.
pub fn is_success(status: u16) -> (yes: bool)
    ensures
        yes == success(status),
        yes <==> status / 100 == 2,
{
    200 <= status && status < 300
}

/// The standard phrase for a status, if it has one.
pub uninterp spec fn status_phrase(status: u16) -> Option<Seq<char>>;

/// `hyper::StatusCode::canonical_reason`: the standard phrase for a status. There is
/// none for a number that is no status at all.
#[verifier::external_body]
fn canonical_reason(status: u16) -> (phrase: Option<&'static str>)
    ensures
        match phrase {
            Some(text) => status_phrase(status) == Some(text@),
            None => status_phrase(status) is None,
        },
        status == 401 ==> phrase is Some && phrase->0@ == "Unauthorized"@,
        status == 403 ==> phrase is Some && phrase->0@ == "Forbidden"@,
        status == 404 ==> phrase is Some && phrase->0@ == "Not Found"@,
{
    match hyper::StatusCode::from_u16(status) {
        Ok(code) => code.canonical_reason(),
        Err(_) => None,
    }
}

/// A status in words: its number and its phrase.
pub open spec fn status_text(status: u16) -> Seq<char> {
    decimal(status as nat) + " "@ + (match status_phrase(status) {
        Some(phrase) => phrase,
        None => "<unknown status code>"@,
    })
}

/// A status in words.
pub fn status_words(status: u16) -> (words: String)
    ensures
        words@ == status_text(status),
{
    let mut words = decimal_u64(status as u64);
    words.append(" ");
    match canonical_reason(status) {
        Some(phrase) => words.append(phrase),
        None => words.append("<unknown status code>"),
    }
    words
}

/// One header.
#[derive(PartialEq, Eq)]
pub struct Header {
    pub name: String,
    pub value: String,
}

/// What a list of headers says.
pub open spec fn headers_view(headers: Seq<Header>) -> Seq<(Seq<char>, Seq<char>)> {
    headers.map_values(|h: Header| (h.name@, h.value@))
}

/// A header of the given name and value.
pub fn header(name: &str, value: &str) -> (h: Header)
    ensures
        h.name@ == name@,
        h.value@ == value@,
{
    Header { name: name.to_owned(), value: value.to_owned() }
}

/// The method, path and headers of a request.
#[derive(PartialEq, Eq)]
pub struct RequestHead {
    pub method: String,
    pub path: String,
    pub headers: Vec<Header>,
}

/// A status is shown by its number, a blank and its phrase where it has one.
pub proof fn a_status_is_shown_by_its_number(status: u16)
    ensures
        exists|phrase: Seq<char>|
            status_text(status) == #[trigger] (decimal(status as nat) + " "@ + phrase),
        status_phrase(status) matches Some(phrase) ==> status_text(status) == decimal(
            status as nat,
        ) + " "@ + phrase,
{
    let phrase = match status_phrase(status) {
        Some(phrase) => phrase,
        None => "<unknown status code>"@,
    };
    assert(status_text(status) == decimal(status as nat) + " "@ + phrase);
}

} // verus!
