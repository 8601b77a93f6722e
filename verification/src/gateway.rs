//! The gateway's decisions around the one backend call.
//!
//! A request is handled in two verified steps with the backend call between
//! them: `route_request` turns the raw body into either a backend request or
//! a rejection, and `respond` turns the backend's outcome into the response
//! body. The caller performs the call itself and reports its outcome as a
//! plain value, so every decision the gateway takes is proved here while the
//! transport stays outside.

use vstd::prelude::*;

verus! {

/// Sampling parameters fixed at startup and passed unchanged to every
/// backend call. The fractional parameters are held in thousandths, so that
/// the configuration is made of plain integers; the caller converts them to
/// the backend client's scale at the edge.
#[derive(Clone, Copy, Debug, PartialEq, Eq, Structural)]
pub struct SamplingConfig {
    pub temperature_milli: u32,
    pub repeat_penalty_milli: u32,
    pub top_k: u32,
    pub top_p_milli: u32,
}

/// A fixed wrapper for the user's prompt: the text sent to the backend is
/// `prefix`, then the prompt verbatim, then `suffix`.
pub struct PromptTemplate {
    pub prefix: Vec<u8>,
    pub suffix: Vec<u8>,
}

/// The gateway's whole configuration: built once at startup, never changed,
/// shared read-only by every request.
pub struct GatewayConfig {
    pub model: Vec<u8>,
    pub template: Option<PromptTemplate>,
    pub sampling: Option<SamplingConfig>,
}

/// What one backend call carries, as the mathematics sees it.
pub ghost struct BackendCall {
    pub model: Seq<u8>,
    pub prompt: Seq<u8>,
    pub sampling: Option<SamplingConfig>,
}

/// What one backend call carries, as the caller sends it.
pub struct BackendRequest {
    pub model: Vec<u8>,
    pub prompt: Vec<u8>,
    pub sampling: Option<SamplingConfig>,
}

impl View for BackendRequest {
    type V = BackendCall;

    open spec fn view(&self) -> BackendCall {
        BackendCall { model: self.model@, prompt: self.prompt@, sampling: self.sampling }
    }
}

/// The gateway's decision on one request body: call the backend, or reject
/// the request without any backend call.
pub enum GatewayStep {
    Generate(BackendRequest),
    Reject,
}

/// The outcome of the one backend call, reported by the caller: the
/// generated text, or failure of any kind, the cause already discarded.
pub enum BackendOutcome {
    Generated(Vec<u8>),
    Failed,
}

/// What the gateway sends back for one request: whether the request was
/// accepted (an HTTP success status) and the body.
pub ghost struct Reply {
    pub ok: bool,
    pub body: Seq<u8>,
}

/// The fallback text sent whenever the backend fails:
/// `Failed to generate response.`
pub open spec fn fallback_text() -> Seq<u8> {
    seq![
        0x46u8,
        0x61,
        0x69,
        0x6C,
        0x65,
        0x64,
        0x20,
        0x74,
        0x6F,
        0x20,
        0x67,
        0x65,
        0x6E,
        0x65,
        0x72,
        0x61,
        0x74,
        0x65,
        0x20,
        0x72,
        0x65,
        0x73,
        0x70,
        0x6F,
        0x6E,
        0x73,
        0x65,
        0x2E,
    ]
}

/// The text sent to the backend for the prompt `p`: the template around it
/// where one is configured, the prompt alone where none is.
pub open spec fn spec_effective_prompt(cfg: GatewayConfig, p: Seq<u8>) -> Seq<u8> {
    match cfg.template {
        Some(t) => t.prefix@ + p + t.suffix@,
        None => p,
    }
}

/// The gateway's decision on the body `body`: the backend call to make
/// where the body parses, `None` where it is rejected.
pub open spec fn spec_route(cfg: GatewayConfig, body: Seq<u8>) -> Option<BackendCall> {
    match crate::json::spec_parse_request(body) {
        Some(p) => Some(
            BackendCall {
                model: cfg.model@,
                prompt: spec_effective_prompt(cfg, p),
                sampling: cfg.sampling,
            },
        ),
        None => None,
    }
}

/// The whole reply for one request: `outcome` is the backend's generated
/// text, or `None` where the backend failed, and is read only where the
/// body parses. A body that does not parse is refused without a backend
/// call; every parsed body is answered with a success status, the backend's
/// text on success and the fallback text on failure.
pub open spec fn spec_reply(cfg: GatewayConfig, body: Seq<u8>, outcome: Option<Seq<u8>>) -> Reply {
    match crate::json::spec_parse_request(body) {
        None => Reply { ok: false, body: Seq::empty() },
        Some(p) => Reply {
            ok: true,
            body: match outcome {
                Some(t) => crate::json::spec_response_body(t),
                None => crate::json::spec_response_body(fallback_text()),
            },
        },
    }
}

fn push_all(out: &mut Vec<u8>, src: &Vec<u8>)
    ensures
        final(out)@ == old(out)@ + src@,
{
    let ghost start = out@;
    let mut i: usize = 0;
    proof {
        assert(start + src@.take(0) =~= start);
    }
    while i < src.len()
        invariant
            i <= src.len(),
            out@ == start + src@.take(i as int),
        decreases src.len() - i,
    {
        out.push(src[i]);
        proof {
            assert(src@.take(i + 1 as int) =~= src@.take(i as int).push(src@[i as int]));
            assert(out@ =~= start + src@.take(i + 1 as int));
        }
        i = i + 1;
    }
    proof {
        assert(src@.take(src@.len() as int) =~= src@);
    }
}

fn copy_bytes(src: &Vec<u8>) -> (r: Vec<u8>)
    ensures
        r@ == src@,
{
    let mut out: Vec<u8> = Vec::new();
    push_all(&mut out, src);
    proof {
        assert(Seq::<u8>::empty() + src@ =~= src@);
    }
    out
}

/// Embeds the prompt into the template: prefix, prompt verbatim, suffix.
pub fn apply_template(t: &PromptTemplate, p: &Vec<u8>) -> (r: Vec<u8>)
    ensures
        r@ == t.prefix@ + p@ + t.suffix@,
{
    let mut out = copy_bytes(&t.prefix);
    push_all(&mut out, p);
    push_all(&mut out, &t.suffix);
    proof {
        assert((t.prefix@ + p@) + t.suffix@ =~= t.prefix@ + p@ + t.suffix@);
    }
    out
}

/// The fallback text as bytes.
pub fn fallback_bytes() -> (r: Vec<u8>)
    ensures
        r@ == fallback_text(),
{
    let mut out: Vec<u8> = Vec::new();
    out.push(0x46);
    out.push(0x61);
    out.push(0x69);
    out.push(0x6C);
    out.push(0x65);
    out.push(0x64);
    out.push(0x20);
    out.push(0x74);
    out.push(0x6F);
    out.push(0x20);
    out.push(0x67);
    out.push(0x65);
    out.push(0x6E);
    out.push(0x65);
    out.push(0x72);
    out.push(0x61);
    out.push(0x74);
    out.push(0x65);
    out.push(0x20);
    out.push(0x72);
    out.push(0x65);
    out.push(0x73);
    out.push(0x70);
    out.push(0x6F);
    out.push(0x6E);
    out.push(0x73);
    out.push(0x65);
    out.push(0x2E);
    proof {
        assert(out@ =~= fallback_text());
    }
    out
}

/// Decides what to do with one request body: where it parses, the backend
/// request to send, carrying the configured model, the templated prompt and
/// the sampling configuration unchanged; where it does not, a rejection,
/// and no backend request exists to send.
pub fn route_request(cfg: &GatewayConfig, body: &Vec<u8>) -> (step: GatewayStep)
    ensures
        (match step {
            GatewayStep::Generate(req) => spec_route(*cfg, body@) == Some(req@),
            GatewayStep::Reject => spec_route(*cfg, body@) is None,
        }),
{
    match crate::json::parse_request(body) {
        None => GatewayStep::Reject,
        Some(p) => {
            let prompt = match &cfg.template {
                Some(t) => apply_template(t, &p),
                None => p,
            };
            let req = BackendRequest {
                model: copy_bytes(&cfg.model),
                prompt,
                sampling: cfg.sampling,
            };
            GatewayStep::Generate(req)
        },
    }
}

/// Turns the backend's outcome into the response body: the generated text
/// encoded as `{"response": <text>}` on success, the fallback text in the
/// same shape on any failure.
pub fn respond(outcome: &BackendOutcome) -> (r: Vec<u8>)
    ensures
        (match *outcome {
            BackendOutcome::Generated(t) => r@ == crate::json::spec_response_body(t@),
            BackendOutcome::Failed => r@ == crate::json::spec_response_body(fallback_text()),
        }),
{
    match outcome {
        BackendOutcome::Generated(t) => crate::json::encode_response(t),
        BackendOutcome::Failed => {
            let f = fallback_bytes();
            crate::json::encode_response(&f)
        },
    }
}

/// Where the body parses and the backend returns the text `t`, the reply
/// carries a success status and exactly `{"response": t}`.
pub proof fn lemma_generated_text_returned(cfg: GatewayConfig, body: Seq<u8>, t: Seq<u8>)
    requires
        crate::json::spec_parse_request(body) is Some,
    ensures
        spec_reply(cfg, body, Some(t)) == (Reply {
            ok: true,
            body: crate::json::spec_response_body(t),
        }),
{
}

/// Where the body parses and the backend fails for any reason, the reply
/// still carries a success status, and its body is the fallback text in the
/// response shape: the cause is masked.
pub proof fn lemma_backend_failure_masked(cfg: GatewayConfig, body: Seq<u8>)
    requires
        crate::json::spec_parse_request(body) is Some,
    ensures
        spec_reply(cfg, body, None) == (Reply {
            ok: true,
            body: crate::json::spec_response_body(fallback_text()),
        }),
{
}

/// Where the body does not parse, no backend call exists and the reply is a
/// client error, whatever the backend would have answered.
pub proof fn lemma_bad_request_no_backend_call(
    cfg: GatewayConfig,
    body: Seq<u8>,
    outcome: Option<Seq<u8>>,
)
    requires
        crate::json::spec_parse_request(body) is None,
    ensures
        spec_route(cfg, body) is None,
        !spec_reply(cfg, body, outcome).ok,
{
}

/// Where a template is configured, the text sent to the backend is the
/// template with the prompt substituted verbatim exactly once: the prefix,
/// the prompt as parsed, the suffix, and nothing else. The reply's body is
/// the backend's raw output in the response shape, not wrapped again.
pub proof fn lemma_template_applied_exactly_once(
    cfg: GatewayConfig,
    body: Seq<u8>,
    p: Seq<u8>,
    t: PromptTemplate,
    out: Seq<u8>,
)
    requires
        cfg.template == Some(t),
        crate::json::spec_parse_request(body) == Some(p),
    ensures
        spec_route(cfg, body) == Some(
            (BackendCall {
                model: cfg.model@,
                prompt: t.prefix@ + p + t.suffix@,
                sampling: cfg.sampling,
            }),
        ),
        spec_reply(cfg, body, Some(out)).body == crate::json::spec_response_body(out),
{
}

/// No cross-talk between in-flight requests: under one shared
/// configuration, each request's backend call embeds that request's own
/// prompt, and each reply is built from that request's own outcome alone,
/// whatever any other request carries or answers. Stated over two requests;
/// nothing of one appears in what is said of the other.
pub proof fn lemma_no_cross_talk(
    cfg: GatewayConfig,
    b1: Seq<u8>,
    p1: Seq<u8>,
    o1: Option<Seq<u8>>,
    b2: Seq<u8>,
    p2: Seq<u8>,
    o2: Option<Seq<u8>>,
)
    requires
        crate::json::spec_parse_request(b1) == Some(p1),
        crate::json::spec_parse_request(b2) == Some(p2),
    ensures
        spec_route(cfg, b1) == Some(
            (BackendCall {
                model: cfg.model@,
                prompt: spec_effective_prompt(cfg, p1),
                sampling: cfg.sampling,
            }),
        ),
        spec_route(cfg, b2) == Some(
            (BackendCall {
                model: cfg.model@,
                prompt: spec_effective_prompt(cfg, p2),
                sampling: cfg.sampling,
            }),
        ),
        spec_reply(cfg, b1, o1).body == (match o1 {
            Some(t) => crate::json::spec_response_body(t),
            None => crate::json::spec_response_body(fallback_text()),
        }),
        spec_reply(cfg, b2, o2).body == (match o2 {
            Some(t) => crate::json::spec_response_body(t),
            None => crate::json::spec_response_body(fallback_text()),
        }),
{
}

/// The sampling configuration reaches every backend call unchanged: each
/// call carries exactly the configured value, whatever the prompt, so any
/// two calls under one configuration carry the same value.
pub proof fn lemma_sampling_config_unchanged(cfg: GatewayConfig, b1: Seq<u8>, b2: Seq<u8>)
    ensures
        spec_route(cfg, b1) matches Some(c) ==> c.sampling == cfg.sampling,
        spec_route(cfg, b1) matches Some(c1) ==> (spec_route(cfg, b2) matches Some(c2) ==> (
        c1.sampling == c2.sampling)),
{
}

} // verus!
