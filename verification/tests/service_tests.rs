use gcli::agent::{
    bearer, image_endpoint, image_request_body, is_exit_command, reply_text, AgentStep, ChatRequest,
    ChatResponse, MultiAgent,
};
use gcli::json::{
    chat_reply_text, image_payload, search_digest, search_endpoint, search_params, slide_plans,
    Json, JsonField,
};
use gcli::media::{capture_file_name, fresh_capture_file_name, image_bytes, CaptureError, ImageError};

fn s(x: &str) -> Json {
    Json::Str(x.to_string())
}

fn obj(fields: Vec<(&str, Json)>) -> Json {
    Json::Object(
        fields
            .into_iter()
            .map(|(k, v)| JsonField { key: k.to_string(), value: v })
            .collect(),
    )
}

#[test]
fn chat_body_for_xai_is_compact_sorted_json() {
    let req = ChatRequest { prompt: "say \"hi\"\n".to_string(), model: "grok-4".to_string(), local: false };
    let body = req.body();
    assert_eq!(
        body,
        "{\"messages\":[{\"content\":\"say \\\"hi\\\"\\n\",\"role\":\"user\"}],\"model\":\"grok-4\",\"temperature\":0.7}"
    );
    let v: serde_json::Value = serde_json::from_str(&body).unwrap();
    assert_eq!(v["messages"][0]["content"], "say \"hi\"\n");
    assert_eq!(v["temperature"], 0.7);
    assert_eq!(req.endpoint(), "https://api.x.ai/v1/chat/completions");
    assert!(req.needs_api_key());
}

#[test]
fn chat_body_for_ollama_uses_llama() {
    let req = ChatRequest { prompt: "p".to_string(), model: "local".to_string(), local: true };
    assert_eq!(
        req.body(),
        "{\"messages\":[{\"content\":\"p\",\"role\":\"user\"}],\"model\":\"llama3.2\"}"
    );
    assert_eq!(req.endpoint(), "http://localhost:11434/api/chat");
    assert!(!req.needs_api_key());
}

#[test]
fn image_body_and_bearer() {
    assert_eq!(
        image_request_body("a\tcat"),
        "{\"model\":\"grok-imagine-image\",\"prompt\":\"a\\tcat\",\"response_format\":\"b64_json\"}"
    );
    assert_eq!(bearer("k123"), "Bearer k123");
}

#[test]
fn plan_then_execute() {
    let (mut agent, first) = MultiAgent::start("sort a list", false);
    assert_eq!(first.prompt, "High-level PLAN only: sort a list");
    assert_eq!(first.model, "grok-4");
    assert!(!first.local);
    match agent.on_reply("1. compare".to_string()) {
        AgentStep::Ask(req) => {
            assert_eq!(req.prompt, "EXECUTE precisely using this plan:\n1. compare\n\nUser task: sort a list");
            assert_eq!(req.model, "grok-4-1-fast-reasoning");
            assert!(!req.local);
        }
        AgentStep::Answer(_) => panic!("expected a second request"),
    }
    assert!(!agent.is_finished());
    match agent.on_reply("done".to_string()) {
        AgentStep::Answer(a) => assert_eq!(a, "done"),
        AgentStep::Ask(_) => panic!("expected the answer"),
    }
    assert!(agent.is_finished());
}

#[test]
fn plan_then_execute_locally() {
    let (mut agent, first) = MultiAgent::start("t", true);
    assert!(first.local);
    assert_eq!(first.model, "local");
    assert_eq!(first.prompt, "High-level PLAN only: t");
    match agent.on_reply("plan".to_string()) {
        AgentStep::Ask(req) => {
            assert_eq!(req.model, "local");
            assert!(req.local);
        }
        AgentStep::Answer(_) => panic!("expected a second request"),
    }
}

#[test]
fn exit_command() {
    assert!(is_exit_command("/exit"));
    assert!(is_exit_command("  /EXIT \n"));
    assert!(is_exit_command("\t/Exit"));
    assert!(!is_exit_command("/exit now"));
    assert!(!is_exit_command("exit"));
    assert!(!is_exit_command(""));
}

#[test]
fn chat_reply_extraction() {
    let resp = obj(vec![(
        "choices",
        Json::Array(vec![obj(vec![("message", obj(vec![("content", s("hello"))]))])]),
    )]);
    assert_eq!(chat_reply_text(&resp), "hello");
    assert_eq!(chat_reply_text(&obj(vec![("choices", Json::Array(vec![]))])), "");
    assert_eq!(chat_reply_text(&Json::Null), "");
    let numeric = obj(vec![(
        "choices",
        Json::Array(vec![obj(vec![("message", obj(vec![("content", Json::Number("3".to_string()))]))])]),
    )]);
    assert_eq!(chat_reply_text(&numeric), "");
    assert_eq!(reply_text(&ChatResponse::Document(resp)), "hello");
    assert_eq!(reply_text(&ChatResponse::Plain("a\nb\n".to_string())), "b");
}

#[test]
fn image_payload_and_bytes() {
    let resp = obj(vec![("data", Json::Array(vec![obj(vec![("b64_json", s("aGVsbG8="))])]))]);
    assert_eq!(image_payload(&resp), Some("aGVsbG8=".to_string()));
    match image_bytes(&resp) {
        Ok(v) => assert_eq!(v, b"hello".to_vec()),
        Err(_) => panic!("expected bytes"),
    }
    assert!(matches!(image_bytes(&obj(vec![])), Err(ImageError::NoImage)));
    let bad = obj(vec![("data", Json::Array(vec![obj(vec![("b64_json", s("!!"))])]))]);
    assert!(matches!(image_bytes(&bad), Err(ImageError::Decode(_))));
}

#[test]
fn search_digest_takes_first_five_complete_topics() {
    let topic = |t: &str, u: &str| obj(vec![("Text", s(t)), ("FirstURL", s(u))]);
    let resp = obj(vec![
        ("AbstractText", s("Rust is a language.")),
        (
            "RelatedTopics",
            Json::Array(vec![
                topic("a", "ua"),
                obj(vec![("Text", s("no url"))]),
                topic("b", "ub"),
                topic("c", "uc"),
                topic("d", "ud"),
                topic("e", "ue"),
            ]),
        ),
    ]);
    let d = search_digest(&resp);
    assert_eq!(d.summary, Some("Rust is a language.".to_string()));
    let got: Vec<(String, String)> = d.topics.into_iter().map(|t| (t.text, t.url)).collect();
    assert_eq!(
        got,
        vec![
            ("a".to_string(), "ua".to_string()),
            ("b".to_string(), "ub".to_string()),
            ("c".to_string(), "uc".to_string()),
            ("d".to_string(), "ud".to_string()),
        ]
    );
    let empty = search_digest(&obj(vec![("AbstractText", s(""))]));
    assert_eq!(empty.summary, None);
    assert!(empty.topics.is_empty());
}

#[test]
fn search_request_parts() {
    assert_eq!(search_endpoint(), "https://api.duckduckgo.com/");
    assert_eq!(
        search_params("rust"),
        vec![
            ("q".to_string(), "rust".to_string()),
            ("format".to_string(), "json".to_string()),
            ("no_html".to_string(), "1".to_string()),
        ]
    );
}

#[test]
fn slide_plans_from_outline() {
    let outline = Json::Array(vec![
        obj(vec![("title", s("Intro")), ("bullets", Json::Array(vec![s("one"), Json::Bool(true)]))]),
        obj(vec![("bullets", s("not a list"))]),
    ]);
    let plans = slide_plans(&Some(outline));
    assert_eq!(plans.len(), 2);
    assert_eq!(plans[0].title, "Intro");
    assert_eq!(plans[0].bullets, vec!["one".to_string(), "".to_string()]);
    assert_eq!(plans[1].title, "Slide");
    assert!(plans[1].bullets.is_empty());
    assert!(slide_plans(&None).is_empty());
    assert!(slide_plans(&Some(obj(vec![("title", s("x"))]))).is_empty());
}

#[test]
fn capture_file_names() {
    assert_eq!(capture_file_name(0), "gcli_voice_0.wav");
    assert_eq!(capture_file_name(4294967295), "gcli_voice_4294967295.wav");
    let f = match fresh_capture_file_name() {
        Ok(f) => f,
        Err(CaptureError::NoRandomness(e)) => panic!("no random number: {}", e),
    };
    assert!(f.starts_with("gcli_voice_") && f.ends_with(".wav"));
    let digits = &f["gcli_voice_".len()..f.len() - 4];
    assert!(digits.parse::<u32>().is_ok());
}

#[test]
fn prompt_quoting_follows_serde_json() {
    let mut prompt = String::new();
    for u in 0u32..0x80 {
        prompt.push(char::from_u32(u).unwrap());
    }
    prompt.push_str("é\u{2028}");
    let expected = format!(
        "{{\"model\":\"grok-imagine-image\",\"prompt\":{},\"response_format\":\"b64_json\"}}",
        serde_json::to_string(&prompt).unwrap()
    );
    assert_eq!(image_request_body(&prompt), expected);
    assert_eq!(
        image_request_body("\u{1}\u{7f}\u{8}\u{c}"),
        "{\"model\":\"grok-imagine-image\",\"prompt\":\"\\u0001\u{7f}\\b\\f\",\"response_format\":\"b64_json\"}"
    );
}

#[test]
fn image_requests_go_to_xai() {
    assert_eq!(image_endpoint(), "https://api.x.ai/v1/images/generations");
}

fn message_list(prompt: &str) -> serde_json::Value {
    let mut m = serde_json::Map::new();
    m.insert("role".to_string(), serde_json::Value::String("user".to_string()));
    m.insert("content".to_string(), serde_json::Value::String(prompt.to_string()));
    serde_json::Value::Array(vec![serde_json::Value::Object(m)])
}

#[test]
fn bodies_match_serde_json_objects() {
    let prompt = "tab\there \"quoted\" é";
    let mut x = serde_json::Map::new();
    x.insert("temperature".to_string(), serde_json::Value::from(0.7));
    x.insert("model".to_string(), serde_json::Value::String("grok-4".to_string()));
    x.insert("messages".to_string(), message_list(prompt));
    let req = ChatRequest { prompt: prompt.to_string(), model: "grok-4".to_string(), local: false };
    assert_eq!(req.body(), serde_json::Value::Object(x).to_string());

    let mut o = serde_json::Map::new();
    o.insert("model".to_string(), serde_json::Value::String("llama3.2".to_string()));
    o.insert("messages".to_string(), message_list(prompt));
    let local = ChatRequest { prompt: prompt.to_string(), model: "local".to_string(), local: true };
    assert_eq!(local.body(), serde_json::Value::Object(o).to_string());

    let mut i = serde_json::Map::new();
    i.insert("response_format".to_string(), serde_json::Value::String("b64_json".to_string()));
    i.insert("prompt".to_string(), serde_json::Value::String(prompt.to_string()));
    i.insert("model".to_string(), serde_json::Value::String("grok-imagine-image".to_string()));
    assert_eq!(image_request_body(prompt), serde_json::Value::Object(i).to_string());
}
