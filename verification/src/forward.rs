//! The forward step: packaging a rate as a telemetry event.

use vstd::prelude::*;
use vstd::string::StrSliceExecFns;
use crate::fetch::Rate;

verus! {

/// Why a forward attempt failed.
#[derive(Debug, Clone)]
pub enum ForwardError {
    /// The request never produced a response.
    Transport,
    /// The measurement identifier or the API secret was not configured.
    MissingConfig,
    /// The ingestion endpoint answered outside the 200..=299 range; carries
    /// the exact status code and the response body.
    HttpStatus { status: u16, body: Vec<char> },
}

/// Lowercase hexadecimal digit.
pub open spec fn spec_is_lower_hex(c: char) -> bool {
    ('0' <= c && c <= '9') || ('a' <= c && c <= 'f')
}

/// The hyphenated text form of a version-4 UUID: 36 characters, hyphens at
/// the four fixed places, lowercase hex elsewhere, the version nibble `4`
/// and a variant nibble in `8`..`b`.
pub open spec fn spec_is_uuid_v4(s: Seq<char>) -> bool {
    &&& s.len() == 36
    &&& s[8] == '-' && s[13] == '-' && s[18] == '-' && s[23] == '-'
    &&& forall|i: int|
        0 <= i < 36 && i != 8 && i != 13 && i != 18 && i != 23 ==> spec_is_lower_hex(#[trigger] s[i])
    &&& s[14] == '4'
    &&& (s[19] == '8' || s[19] == '9' || s[19] == 'a' || s[19] == 'b')
}

/// The envelope the ingestion endpoint expects: the client identifier and the
/// rate token stand in it verbatim, so the forwarded value is exactly the
/// fetched one.
pub open spec fn spec_envelope(client_id: Seq<char>, rate: Seq<char>) -> Seq<char> {
    "{\"client_id\":\""@ + client_id
        + "\",\"events\":[{\"name\":\"currency_exchange\",\"params\":{\"currency\":\"UAH/USD\",\"value\":"@
        + rate + "}}]}"@
}

/// The collection URL: the measurement identifier and the API secret ride as
/// query parameters.
pub open spec fn spec_collect_url(tid: Seq<char>, secret: Seq<char>) -> Seq<char> {
    "https://www.google-analytics.com/mp/collect?measurement_id="@ + tid + "&api_secret="@ + secret
}

/// The envelope carries the rate exactly: nothing is rounded or reformatted.
/// Two envelopes built around version-4-length client identifiers are equal
/// only when both the identifiers and the rate tokens are equal, so an
/// envelope pins the value it forwards.
pub proof fn lemma_envelope_exact(
    cid1: Seq<char>,
    rate1: Seq<char>,
    cid2: Seq<char>,
    rate2: Seq<char>,
)
    requires
        cid1.len() == 36,
        cid2.len() == 36,
        spec_envelope(cid1, rate1) == spec_envelope(cid2, rate2),
    ensures
        cid1 == cid2,
        rate1 == rate2,
{
    let a = "{\"client_id\":\""@;
    let b =
        "\",\"events\":[{\"name\":\"currency_exchange\",\"params\":{\"currency\":\"UAH/USD\",\"value\":"@;
    let c = "}}]}"@;
    let e1 = spec_envelope(cid1, rate1);
    let e2 = spec_envelope(cid2, rate2);
    assert(e1.len() == a.len() + 36 + b.len() + rate1.len() + c.len());
    assert(e2.len() == a.len() + 36 + b.len() + rate2.len() + c.len());
    assert forall|i: int| 0 <= i < 36 implies cid1[i] == cid2[i] by {
        assert(e1[a.len() + i] == cid1[i]);
        assert(e2[a.len() + i] == cid2[i]);
    }
    assert(cid1 =~= cid2);
    assert forall|i: int| 0 <= i < rate1.len() implies rate1[i] == rate2[i] by {
        assert(e1[a.len() + 36 + b.len() + i] == rate1[i]);
        assert(e2[a.len() + 36 + b.len() + i] == rate2[i]);
    }
    assert(rate1 =~= rate2);
}

/// One POST request to the ingestion endpoint, ready to send.
pub struct ForwardRequest {
    /// Where to POST.
    pub url: Vec<char>,
    /// The JSON envelope to send as the request body.
    pub body: Vec<char>,
    /// The client identifier embedded in the body, fresh for this request.
    pub client_id: Vec<char>,
}

/// Relies on uuid::Uuid::new_v4 and the uuid crate's Display impl: a fresh
/// random version-4 UUID, rendered as 36 lowercase hyphenated hexadecimal
/// characters with the version and variant nibbles fixed by RFC 9562. The
/// value is random; only its shape is stated.
#[verifier::external_body]
fn fresh_client_id() -> (r: Vec<char>)
    ensures
        spec_is_uuid_v4(r@),
{
    uuid::Uuid::new_v4().to_string().chars().collect()
}

/// Appends the characters of `s`.
fn push_str_chars(out: &mut Vec<char>, s: &str)
    ensures
        final(out)@ == old(out)@ + s@,
{
    let n: usize = s.unicode_len();
    let mut i: usize = 0;
    while i < n
        invariant
            i <= n,
            n == s@.len(),
            out@ == old(out)@ + s@.subrange(0, i as int),
        decreases n - i,
    {
        out.push(s.get_char(i));
        proof {
            assert(out@ =~= old(out)@ + s@.subrange(0, i as int + 1));
        }
        i = i + 1;
    }
    proof {
        assert(out@ =~= old(out)@ + s@);
    }
}

/// Appends a copy of `s`.
fn push_chars(out: &mut Vec<char>, s: &Vec<char>)
    ensures
        final(out)@ == old(out)@ + s@,
{
    let n: usize = s.len();
    let mut i: usize = 0;
    while i < n
        invariant
            i <= n,
            n == s.len(),
            out@ == old(out)@ + s@.subrange(0, i as int),
        decreases n - i,
    {
        out.push(s[i]);
        proof {
            assert(out@ =~= old(out)@ + s@.subrange(0, i as int + 1));
        }
        i = i + 1;
    }
    proof {
        assert(out@ =~= old(out)@ + s@);
    }
}

/// Builds the envelope around a client identifier and a rate token.
pub fn build_envelope(client_id: &Vec<char>, rate: &Vec<char>) -> (r: Vec<char>)
    ensures
        r@ == spec_envelope(client_id@, rate@),
{
    let mut out: Vec<char> = Vec::new();
    push_str_chars(&mut out, "{\"client_id\":\"");
    push_chars(&mut out, client_id);
    push_str_chars(
        &mut out,
        "\",\"events\":[{\"name\":\"currency_exchange\",\"params\":{\"currency\":\"UAH/USD\",\"value\":",
    );
    push_chars(&mut out, rate);
    push_str_chars(&mut out, "}}]}");
    proof {
        assert(out@ =~= spec_envelope(client_id@, rate@));
    }
    out
}

/// Builds the collection URL around the two credentials.
pub fn build_collect_url(tid: &Vec<char>, secret: &Vec<char>) -> (r: Vec<char>)
    ensures
        r@ == spec_collect_url(tid@, secret@),
{
    let mut out: Vec<char> = Vec::new();
    push_str_chars(&mut out, "https://www.google-analytics.com/mp/collect?measurement_id=");
    push_chars(&mut out, tid);
    push_str_chars(&mut out, "&api_secret=");
    push_chars(&mut out, secret);
    proof {
        assert(out@ =~= spec_collect_url(tid@, secret@));
    }
    out
}

/// Builds the POST request that forwards `rate`, or fails without any request
/// when a credential is missing.
///
/// Success is owed exactly when both credentials are present: the request
/// then carries the collection URL made of them, and an envelope holding a
/// fresh version-4 client identifier and the rate token verbatim. No network
/// work happens here; the caller sends the returned request, so a missing
/// credential means nothing is ever sent.
pub fn build_forward_request(tid: Option<Vec<char>>, secret: Option<Vec<char>>, rate: &Rate) -> (r:
    Result<ForwardRequest, ForwardError>)
    ensures
        tid is None || secret is None ==> (r matches Err(e) && e is MissingConfig),
        tid is Some && secret is Some ==> (r matches Ok(req) && req.url@ == spec_collect_url(
            tid->Some_0@,
            secret->Some_0@,
        ) && spec_is_uuid_v4(req.client_id@) && req.body@ == spec_envelope(
            req.client_id@,
            rate.text@,
        )),
{
    match (tid, secret) {
        (Some(t), Some(sc)) => {
            let client_id = fresh_client_id();
            let url = build_collect_url(&t, &sc);
            let body = build_envelope(&client_id, &rate.text);
            Ok(ForwardRequest { url, body, client_id })
        },
        _ => Err(ForwardError::MissingConfig),
    }
}

/// Classifies the ingestion endpoint's answer: success exactly on a status
/// within 200..=299, and otherwise a status error carrying the exact code and
/// the response body.
pub fn classify_forward_response(status: u16, body: Vec<char>) -> (r: Result<(), ForwardError>)
    ensures
        200 <= status && status <= 299 ==> r == Ok::<(), ForwardError>(()),
        !(200 <= status && status <= 299) ==> (r matches Err(e) && e matches ForwardError::HttpStatus {
            status: st,
            body: bd,
        } && st == status && bd@ == body@),
{
    if 200 <= status && status <= 299 {
        Ok(())
    } else {
        Err(ForwardError::HttpStatus { status, body })
    }
}

} // verus!
