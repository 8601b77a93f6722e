use prompt_gateway::gateway::{
    apply_template, fallback_bytes, respond, route_request, BackendOutcome, BackendRequest,
    GatewayConfig, GatewayStep, PromptTemplate, SamplingConfig,
};

fn config(template: Option<PromptTemplate>, sampling: Option<SamplingConfig>) -> GatewayConfig {
    GatewayConfig {
        model: b"llama3.1:latest".to_vec(),
        template,
        sampling,
    }
}

/// A stand-in for the inference daemon: answers a fixed text for the one
/// known model, fails for every other, and counts how often it was called.
struct MockBackend {
    answer: Vec<u8>,
    calls: usize,
}

impl MockBackend {
    fn new(answer: &[u8]) -> MockBackend {
        MockBackend {
            answer: answer.to_vec(),
            calls: 0,
        }
    }

    fn generate(&mut self, req: &BackendRequest) -> BackendOutcome {
        self.calls += 1;
        if req.model == b"llama3.1:latest".to_vec() {
            BackendOutcome::Generated(self.answer.clone())
        } else {
            BackendOutcome::Failed
        }
    }
}

/// One full request: route, call the backend only when routing says so,
/// answer. Mirrors what the server process does around the library.
fn drive(cfg: &GatewayConfig, body: &[u8], backend: &mut MockBackend) -> (bool, Vec<u8>) {
    match route_request(cfg, &body.to_vec()) {
        GatewayStep::Generate(req) => {
            let outcome = backend.generate(&req);
            (true, respond(&outcome))
        }
        GatewayStep::Reject => (false, Vec::new()),
    }
}

#[test]
fn fallback_text_bytes() {
    assert_eq!(fallback_bytes(), b"Failed to generate response.".to_vec());
}

#[test]
fn template_wraps_prompt_once() {
    let t = PromptTemplate {
        prefix: b"PRE[".to_vec(),
        suffix: b"]POST".to_vec(),
    };
    assert_eq!(
        apply_template(&t, &b"hello".to_vec()),
        b"PRE[hello]POST".to_vec()
    );
}

#[test]
fn route_without_template() {
    let cfg = config(None, None);
    match route_request(&cfg, &b"{\"prompt\":\"abc\"}".to_vec()) {
        GatewayStep::Generate(req) => {
            assert_eq!(req.model, b"llama3.1:latest".to_vec());
            assert_eq!(req.prompt, b"abc".to_vec());
            assert_eq!(req.sampling, None);
        }
        GatewayStep::Reject => panic!("a well-formed request was rejected"),
    }
}

#[test]
fn route_applies_template() {
    let t = PromptTemplate {
        prefix: b"(SYSTEM)\nAnswer this:\n".to_vec(),
        suffix: b"\n(END)".to_vec(),
    };
    let cfg = config(Some(t), None);
    match route_request(&cfg, &b"{\"prompt\":\"abc\"}".to_vec()) {
        GatewayStep::Generate(req) => {
            assert_eq!(req.prompt, b"(SYSTEM)\nAnswer this:\nabc\n(END)".to_vec());
        }
        GatewayStep::Reject => panic!("a well-formed request was rejected"),
    }
}

#[test]
fn sampling_config_reaches_every_call_unchanged() {
    let sampling = SamplingConfig {
        temperature_milli: 700,
        repeat_penalty_milli: 1100,
        top_k: 40,
        top_p_milli: 950,
    };
    let cfg = config(None, Some(sampling));
    for body in [
        &b"{\"prompt\":\"first\"}"[..],
        &b"{\"prompt\":\"a much longer second prompt\"}"[..],
        &b"{\"prompt\":\"\"}"[..],
    ] {
        match route_request(&cfg, &body.to_vec()) {
            GatewayStep::Generate(req) => assert_eq!(req.sampling, Some(sampling)),
            GatewayStep::Reject => panic!("a well-formed request was rejected"),
        }
    }
}

#[test]
fn success_returns_backend_text() {
    let cfg = config(None, None);
    let mut backend = MockBackend::new(b"generated text");
    let (ok, body) = drive(&cfg, b"{\"prompt\":\"abc\"}", &mut backend);
    assert!(ok);
    assert_eq!(body, b"{\"response\":\"generated text\"}".to_vec());
    assert_eq!(backend.calls, 1);
}

#[test]
fn backend_failure_masked_with_fallback() {
    let cfg = GatewayConfig {
        model: b"no-such-model".to_vec(),
        template: None,
        sampling: None,
    };
    let mut backend = MockBackend::new(b"never used");
    let (ok, body) = drive(&cfg, b"{\"prompt\":\"abc\"}", &mut backend);
    assert!(ok);
    assert_eq!(
        body,
        b"{\"response\":\"Failed to generate response.\"}".to_vec()
    );
}

#[test]
fn bad_request_makes_no_backend_call() {
    let cfg = config(None, None);
    let mut backend = MockBackend::new(b"never used");
    for body in [
        &b""[..],
        &b"not json"[..],
        &b"{}"[..],
        &b"{\"prompt\": 3}"[..],
        &b"{\"other\":\"x\"}"[..],
        &b"{\"prompt\":\"x\"} extra"[..],
    ] {
        let (ok, _) = drive(&cfg, body, &mut backend);
        assert!(!ok);
    }
    assert_eq!(backend.calls, 0);
}

#[test]
fn response_is_raw_backend_output_not_rewrapped() {
    let t = PromptTemplate {
        prefix: b"PRE[".to_vec(),
        suffix: b"]POST".to_vec(),
    };
    let cfg = config(Some(t), None);
    let mut backend = MockBackend::new(b"raw output");
    let (_, body) = drive(&cfg, b"{\"prompt\":\"abc\"}", &mut backend);
    assert_eq!(body, b"{\"response\":\"raw output\"}".to_vec());
}

#[test]
fn end_to_end_example() {
    let cfg = config(None, None);
    let mut backend = MockBackend::new(b"I am fine.");
    let (ok, body) = drive(&cfg, b"{\"prompt\": \"Hello How Are You?\"}", &mut backend);
    assert!(ok);
    assert_eq!(body, b"{\"response\":\"I am fine.\"}".to_vec());
}

#[test]
fn fifty_requests_each_get_their_own_answer() {
    let cfg = config(None, None);
    let mut replies: Vec<(Vec<u8>, Vec<u8>)> = Vec::new();
    for i in 0..50 {
        let prompt = format!("prompt number {}", i);
        let body = format!("{{\"prompt\":\"{}\"}}", prompt);
        match route_request(&cfg, &body.as_bytes().to_vec()) {
            GatewayStep::Generate(req) => {
                let mut echoed = b"echo: ".to_vec();
                echoed.extend_from_slice(&req.prompt);
                let outcome = BackendOutcome::Generated(echoed);
                replies.push((prompt.into_bytes(), respond(&outcome)));
            }
            GatewayStep::Reject => panic!("a well-formed request was rejected"),
        }
    }
    for (prompt, reply) in replies {
        let mut expected = b"{\"response\":\"echo: ".to_vec();
        expected.extend_from_slice(&prompt);
        expected.extend_from_slice(b"\"}");
        assert_eq!(reply, expected);
    }
}

#[test]
fn respond_success_and_failure_shapes() {
    assert_eq!(
        respond(&BackendOutcome::Generated(b"t".to_vec())),
        b"{\"response\":\"t\"}".to_vec()
    );
    assert_eq!(
        respond(&BackendOutcome::Failed),
        b"{\"response\":\"Failed to generate response.\"}".to_vec()
    );
}
