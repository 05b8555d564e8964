//! The Azure completion client: builds the vendor-specific HTTP request
//! and turns the raw response into events or a structured failure.
//!
//! The request URL joins the trimmed endpoint, the fixed chat-completions
//! path, the deployment name and a fixed API-version query parameter.  The
//! body is a JSON object with a single user message, a streaming flag, and
//! the generation parameters, defaulted when the caller gave none.  A
//! successful response body is handed to the streaming decoder; a
//! non-success status surfaces verbatim with its body.

use crate::config::Config;
use crate::provider::ProviderError;
use crate::sse::{decode_sse, events_view, sse_events, StreamEvent};
use vstd::prelude::*;
use vstd::string::StringSliceAdditionalSpecFns;
use vstd::utf8::encode_utf8;

verus! {

/// The `max_tokens` value sent when the caller specifies none.
pub const DEFAULT_MAX_TOKENS: u32 = 256;

/// The temperature sent when the caller specifies none, in tenths: 0.7.
pub const DEFAULT_TEMPERATURE_TENTHS: u32 = 7;

/// One completion request: a prompt plus optional generation parameters.
/// Temperature is carried in tenths of a unit, so that the library holds
/// only integers; 7 tenths render as `0.7` in the request body.
#[derive(Debug)]
pub struct ChatRequest {
    pub prompt: String,
    pub max_tokens: Option<u32>,
    pub temperature_tenths: Option<u32>,
}

impl ChatRequest {
    /// Well-formedness: the prompt is non-empty and an explicit token
    /// limit is positive.
    pub open spec fn wf(&self) -> bool {
        &&& self.prompt@.len() > 0
        &&& self.max_tokens is Some ==> self.max_tokens->0 > 0
    }

    /// Build a request.
    pub fn new(prompt: String, max_tokens: Option<u32>, temperature_tenths: Option<u32>) -> (r:
        ChatRequest)
        requires
            prompt@.len() > 0,
            max_tokens is Some ==> max_tokens->0 > 0,
        ensures
            r.wf(),
            r.prompt == prompt,
            r.max_tokens == max_tokens,
            r.temperature_tenths == temperature_tenths,
    {
        ChatRequest { prompt, max_tokens, temperature_tenths }
    }

    /// The token limit that goes into the request body.
    pub open spec fn effective_max_tokens(&self) -> u32 {
        if self.max_tokens is Some {
            self.max_tokens->0
        } else {
            DEFAULT_MAX_TOKENS
        }
    }

    /// The temperature, in tenths, that goes into the request body.
    pub open spec fn effective_temperature_tenths(&self) -> u32 {
        if self.temperature_tenths is Some {
            self.temperature_tenths->0
        } else {
            DEFAULT_TEMPERATURE_TENTHS
        }
    }
}

/// The Azure provider handle: the validated settings it owns, nothing
/// more.  The key is sent in a header, never in the URL.
#[derive(Debug)]
pub struct AzureOpenAIProvider {
    pub endpoint: String,
    pub api_key: String,
    pub deployment: String,
}

impl AzureOpenAIProvider {
    /// Build a provider directly from a persisted record: succeeds exactly
    /// when all three Azure settings are present, and never partially.
    pub fn from_config(config: &Config) -> (r: Option<AzureOpenAIProvider>)
        ensures
            r is Some <==> (config.azure_endpoint is Some && config.azure_api_key is Some
                && config.azure_deployment is Some),
            r is Some ==> r->0.endpoint == config.azure_endpoint->0,
            r is Some ==> r->0.api_key == config.azure_api_key->0,
            r is Some ==> r->0.deployment == config.azure_deployment->0,
    {
        match (&config.azure_endpoint, &config.azure_api_key, &config.azure_deployment) {
            (Some(e), Some(k), Some(d)) => Some(
                AzureOpenAIProvider {
                    endpoint: e.clone(),
                    api_key: k.clone(),
                    deployment: d.clone(),
                },
            ),
            _ => None,
        }
    }
}

/// `s` with every trailing slash removed.
pub open spec fn trim_trailing_slashes(s: Seq<char>) -> Seq<char>
    decreases s.len(),
{
    if s.len() > 0 && s.last() == '/' {
        trim_trailing_slashes(s.drop_last())
    } else {
        s
    }
}

/// The request URL: trimmed endpoint, fixed path, deployment, fixed
/// API-version query parameter.
pub open spec fn url_spec(endpoint: Seq<char>, deployment: Seq<char>) -> Seq<char> {
    trim_trailing_slashes(endpoint) + "/openai/deployments/"@ + deployment
        + "/chat/completions?api-version=2024-02-15-preview"@
}

/// A JSON string escape of one byte of UTF-8 text.  Bytes above the ASCII
/// control range pass through: multi-byte UTF-8 sequences are legal inside
/// a JSON string.
pub open spec fn escape_byte(b: u8) -> Seq<u8> {
    if b == '"' as u8 {
        seq!['\\' as u8, '"' as u8]
    } else if b == '\\' as u8 {
        seq!['\\' as u8, '\\' as u8]
    } else if b == 10 {
        seq!['\\' as u8, 'n' as u8]
    } else if b == 13 {
        seq!['\\' as u8, 'r' as u8]
    } else if b == 9 {
        seq!['\\' as u8, 't' as u8]
    } else if b < 32 {
        seq!['\\' as u8, 'u' as u8, '0' as u8, '0' as u8, hex_digit(b / 16), hex_digit(b % 16)]
    } else {
        seq![b]
    }
}

/// The lower-case hexadecimal digit for `d` (meaningful for `d < 16`).
pub open spec fn hex_digit(d: u8) -> u8 {
    if d < 10 {
        (d + 48) as u8  // '0' is 48
    } else {
        (d + 87) as u8  // 'a' is 97
    }
}

/// The JSON string escape of a UTF-8 byte sequence.
pub open spec fn escape_json(s: Seq<u8>) -> Seq<u8>
    decreases s.len(),
{
    if s.len() == 0 {
        Seq::<u8>::empty()
    } else {
        escape_byte(s[0]) + escape_json(s.drop_first())
    }
}

/// What one appended byte adds to the escape.
proof fn lemma_escape_push(s: Seq<u8>, b: u8)
    ensures
        escape_json(s.push(b)) == escape_json(s) + escape_byte(b),
    decreases s.len(),
{
    if s.len() == 0 {
        assert(s.push(b).len() == 1);
        assert(s.push(b)[0] == b);
        assert(s.push(b).drop_first() =~= Seq::<u8>::empty());
        assert(escape_json(s.push(b)) == escape_byte(b) + escape_json(Seq::<u8>::empty()));
        assert(escape_json(Seq::<u8>::empty()) =~= Seq::<u8>::empty());
        assert(escape_byte(b) + Seq::<u8>::empty() =~= escape_byte(b));
        assert(escape_json(s) + escape_byte(b) =~= escape_byte(b));
    } else {
        assert(s.push(b)[0] == s[0]);
        assert(s.push(b).drop_first() =~= s.drop_first().push(b));
        lemma_escape_push(s.drop_first(), b);
        assert(escape_json(s.push(b)) == escape_byte(s[0]) + escape_json(s.drop_first().push(b)));
        assert(escape_json(s) == escape_byte(s[0]) + escape_json(s.drop_first()));
        assert(escape_byte(s[0]) + (escape_json(s.drop_first()) + escape_byte(b)) =~= (escape_byte(
            s[0],
        ) + escape_json(s.drop_first())) + escape_byte(b));
    }
}

/// Append the JSON string escape of `s`.
fn append_escaped(out: &mut Vec<u8>, s: &[u8])
    ensures
        final(out)@ == old(out)@ + escape_json(s@),
{
    let m = s.len();
    let mut k: usize = 0;
    proof {
        assert(escape_json(s@.take(0)) =~= Seq::<u8>::empty());
        assert(old(out)@ + Seq::<u8>::empty() =~= old(out)@);
    }
    while k < m
        invariant
            k <= m == s@.len(),
            out@ == old(out)@ + escape_json(s@.take(k as int)),
        decreases m - k,
    {
        let ghost pre = out@;
        let b = s[k];
        if b == '"' as u8 {
            out.push('\\' as u8);
            out.push('"' as u8);
        } else if b == '\\' as u8 {
            out.push('\\' as u8);
            out.push('\\' as u8);
        } else if b == 10 {
            out.push('\\' as u8);
            out.push('n' as u8);
        } else if b == 13 {
            out.push('\\' as u8);
            out.push('r' as u8);
        } else if b == 9 {
            out.push('\\' as u8);
            out.push('t' as u8);
        } else if b < 32 {
            let hi = b / 16;
            let lo = b % 16;
            out.push('\\' as u8);
            out.push('u' as u8);
            out.push('0' as u8);
            out.push('0' as u8);
            out.push(if hi < 10 {
                hi + 48
            } else {
                hi + 87
            });
            out.push(if lo < 10 {
                lo + 48
            } else {
                lo + 87
            });
        } else {
            out.push(b);
        }
        proof {
            assert(out@ =~= pre + escape_byte(s@[k as int]));
            assert(s@.take(k + 1) =~= s@.take(k as int).push(s@[k as int]));
            lemma_escape_push(s@.take(k as int), s@[k as int]);
            assert((old(out)@ + escape_json(s@.take(k as int))) + escape_byte(s@[k as int]) =~= old(
                out,
            )@ + escape_json(s@.take(k + 1)));
        }
        k += 1;
    }
    proof {
        assert(s@.take(m as int) =~= s@);
    }
}

/// The decimal rendering of `n`, as ASCII bytes.
pub open spec fn dec_bytes(n: u32) -> Seq<u8>
    decreases n,
{
    if n < 10 {
        seq![(n + 48) as u8]
    } else {
        dec_bytes(n / 10).push((n % 10 + 48) as u8)
    }
}

/// Append the decimal rendering of `n`.
fn append_dec_bytes(out: &mut Vec<u8>, n: u32)
    ensures
        final(out)@ == old(out)@ + dec_bytes(n),
    decreases n,
{
    if n >= 10 {
        append_dec_bytes(out, n / 10);
        out.push((n % 10) as u8 + 48);
        proof {
            assert(old(out)@ + dec_bytes(n) =~= (old(out)@ + dec_bytes(n / 10)).push(
                (n % 10 + 48) as u8,
            ));
        }
    } else {
        out.push(n as u8 + 48);
        proof {
            assert(old(out)@ + dec_bytes(n) =~= old(out)@.push((n + 48) as u8));
        }
    }
}

/// The decimal rendering of a temperature in tenths: whole part, a dot,
/// one fractional digit — 7 tenths render as `0.7`.
pub open spec fn temp_bytes(tenths: u32) -> Seq<u8> {
    dec_bytes(tenths / 10) + seq!['.' as u8, (tenths % 10 + 48) as u8]
}

/// The bytes of a string literal, for stating byte-level contracts.
pub open spec fn lit_bytes(s: &str) -> Seq<u8> {
    s.spec_bytes()
}

/// The request body: a JSON object with a single user message carrying the
/// escaped prompt, a streaming flag, and the two generation parameters.
pub open spec fn body_spec(prompt: Seq<u8>, max_tokens: u32, temperature_tenths: u32) -> Seq<u8> {
    lit_bytes("{\"messages\":[{\"role\":\"user\",\"content\":\"") + escape_json(prompt) + lit_bytes(
        "\"}],\"stream\":true,\"max_tokens\":",
    ) + dec_bytes(max_tokens) + lit_bytes(",\"temperature\":") + temp_bytes(temperature_tenths)
        + lit_bytes("}")
}

/// One prepared HTTP request.  The fixed headers — a JSON content type and
/// an `api-key` header carrying the secret — are implied by the fields: the
/// key appears here only, never in the URL or body.
#[derive(Debug)]
pub struct HttpRequest {
    pub url: String,
    pub api_key: String,
    pub body: Vec<u8>,
}

impl AzureOpenAIProvider {
    /// Build the request URL: the endpoint with trailing slashes removed,
    /// the chat-completions path, the deployment, the API version.
    pub fn build_url(&self) -> (r: String)
        ensures
            r@ == url_spec(self.endpoint@, self.deployment@),
    {
        let e = self.endpoint.as_str();
        let n = e.unicode_len();
        let mut k = n;
        proof {
            assert(e@.take(n as int) =~= e@);
        }
        while k > 0 && e.get_char(k - 1) == '/'
            invariant
                k <= n == e@.len(),
                e@ == self.endpoint@,
                trim_trailing_slashes(self.endpoint@) == trim_trailing_slashes(
                    e@.take(k as int),
                ),
            decreases k,
        {
            proof {
                let cur = e@.take(k as int);
                assert(cur.last() == e@[k - 1]);
                assert(cur.drop_last() =~= e@.take(k - 1));
            }
            k -= 1;
        }
        let trimmed = e.substring_char(0, k);
        proof {
            assert(trimmed@ =~= e@.take(k as int));
            assert(trim_trailing_slashes(e@.take(k as int)) == e@.take(k as int));
        }
        let mut url = String::new();
        url.append(trimmed);
        url.append("/openai/deployments/");
        url.append(self.deployment.as_str());
        url.append("/chat/completions?api-version=2024-02-15-preview");
        proof {
            assert(Seq::<char>::empty() + trimmed@ =~= trimmed@);
        }
        url
    }

    /// Build the request body, defaulting `max_tokens` to 256 and the
    /// temperature to 0.7 when the caller gave none.
    pub fn build_body(&self, req: &ChatRequest) -> (r: Vec<u8>)
        ensures
            r@ == body_spec(
                encode_utf8(req.prompt@),
                req.effective_max_tokens(),
                req.effective_temperature_tenths(),
            ),
    {
        let max_tokens = match req.max_tokens {
            Some(m) => m,
            None => DEFAULT_MAX_TOKENS,
        };
        let tenths = match req.temperature_tenths {
            Some(t) => t,
            None => DEFAULT_TEMPERATURE_TENTHS,
        };
        let mut body: Vec<u8> = Vec::new();
        body.extend_from_slice("{\"messages\":[{\"role\":\"user\",\"content\":\"".as_bytes());
        proof {
            assert(Seq::<u8>::empty() + lit_bytes(
                "{\"messages\":[{\"role\":\"user\",\"content\":\"",
            ) =~= lit_bytes("{\"messages\":[{\"role\":\"user\",\"content\":\""));
        }
        append_escaped(&mut body, req.prompt.as_str().as_bytes());
        body.extend_from_slice("\"}],\"stream\":true,\"max_tokens\":".as_bytes());
        append_dec_bytes(&mut body, max_tokens);
        body.extend_from_slice(",\"temperature\":".as_bytes());
        append_dec_bytes(&mut body, tenths / 10);
        body.push('.' as u8);
        body.push((tenths % 10) as u8 + 48);
        body.extend_from_slice("}".as_bytes());
        proof {
            assert(body@ =~= body_spec(
                encode_utf8(req.prompt@),
                req.effective_max_tokens(),
                req.effective_temperature_tenths(),
            ));
        }
        body
    }

    /// Build the one HTTP request this completion call sends.
    pub fn build_request(&self, req: &ChatRequest) -> (r: HttpRequest)
        requires
            req.wf(),
        ensures
            r.url@ == url_spec(self.endpoint@, self.deployment@),
            r.api_key@ == self.api_key@,
            r.body@ == body_spec(
                encode_utf8(req.prompt@),
                req.effective_max_tokens(),
                req.effective_temperature_tenths(),
            ),
    {
        HttpRequest { url: self.build_url(), api_key: self.api_key.clone(), body: self.build_body(req) }
    }
}

/// What the lossy UTF-8 decode of a byte sequence reads as.  Named, not
/// spelled out: writing out the UTF-8 tables would restate the decoder
/// rather than specify this library.
pub uninterp spec fn lossy_of(bytes: Seq<u8>) -> Seq<char>;

/// Relies on `String::from_utf8_lossy`: invalid sequences are replaced
/// with U+FFFD, valid UTF-8 decodes unchanged, so the result is a function
/// of the bytes alone, and ASCII bytes decode to themselves.
#[verifier::external_body]
fn lossy_string(bytes: &[u8]) -> (r: String)
    ensures
        r@ == lossy_of(bytes@),
        (forall|k: int| 0 <= k < bytes@.len() ==> bytes@[k] < 128) ==> r@ == bytes@.map_values(
            |b: u8| b as char,
        ),
{
    String::from_utf8_lossy(bytes).into_owned()
}

impl AzureOpenAIProvider {
    /// Turn one raw response into its events.  A success status hands the
    /// body to the streaming decoder; any other status surfaces as
    /// [`ProviderError::HttpError`] carrying the status and the body
    /// verbatim — for an all-ASCII body, character for character.
    pub fn process_response(&self, status: u16, body: &[u8]) -> (r: Result<
        Vec<StreamEvent>,
        ProviderError,
    >)
        ensures
            200 <= status < 300 <==> r is Ok,
            r is Ok ==> events_view(r->Ok_0@) == sse_events(body@),
            r is Err ==> r->Err_0 is HttpError && r->Err_0->HttpError_0 == status
                && r->Err_0->HttpError_1@ == lossy_of(body@),
            r is Err && (forall|k: int| 0 <= k < body@.len() ==> body@[k] < 128)
                ==> r->Err_0->HttpError_1@ == body@.map_values(|b: u8| b as char),
    {
        if 200 <= status && status < 300 {
            Ok(decode_sse(body))
        } else {
            Err(ProviderError::HttpError(status, lossy_string(body)))
        }
    }
}

} // verus!
