//! The fetch step: turning a quote response into a rate.

use vstd::prelude::*;
use crate::json::body_first_rate;
use crate::json::spec_body_first_rate;
use crate::json::spec_is_number_token;

verus! {

/// A decimal rate value, kept as the exact JSON number token it was decoded
/// from, so that forwarding never rounds or reformats it.
#[derive(Debug, Clone, PartialEq, Eq)]
pub struct Rate {
    pub text: Vec<char>,
}

impl Rate {
    /// A well-formed rate holds a complete JSON number token.
    pub open spec fn wf(&self) -> bool {
        spec_is_number_token(self.text@)
    }
}

/// Why a fetch attempt failed.
#[derive(Debug, Clone, Copy, PartialEq, Eq, Structural)]
pub enum FetchError {
    /// The request never produced a response: timeout, name resolution,
    /// connection reset.
    Transport,
    /// The quote service answered outside the 200..=299 range; carries the
    /// exact status code.
    HttpStatus(u16),
    /// The response body was not a non-empty array of records with a numeric
    /// `rate` member.
    Decode,
}

/// The fixed address of the quote service.
pub fn quote_url() -> (r: &'static str)
    ensures
        r@ == "https://bank.gov.ua/NBUStatService/v1/statdirectory/exchange?valcode=USD&json"@,
{
    "https://bank.gov.ua/NBUStatService/v1/statdirectory/exchange?valcode=USD&json"
}

/// Decodes one quote response into the rate of the first record.
///
/// A status outside 200..=299 is a status error carrying exactly that code.
/// Within that range, the body decodes exactly when it is a non-empty array
/// of records each holding a numeric `rate` member; the result then carries
/// the first record's `rate` token character for character, and anything
/// else (an empty array included) is a decode error.
pub fn decode_quote_response(status: u16, body: &Vec<char>) -> (r: Result<Rate, FetchError>)
    ensures
        !(200 <= status && status <= 299) ==> r == Err::<Rate, FetchError>(
            FetchError::HttpStatus(status),
        ),
        (200 <= status && status <= 299) ==> (match spec_body_first_rate(body@) {
            Some(t) => (r matches Ok(rate) && rate.text@ == t && rate.wf()),
            None => r == Err::<Rate, FetchError>(FetchError::Decode),
        }),
{
    if status < 200 || status > 299 {
        Err(FetchError::HttpStatus(status))
    } else {
        match body_first_rate(body) {
            Some(text) => Ok(Rate { text }),
            None => Err(FetchError::Decode),
        }
    }
}

} // verus!
