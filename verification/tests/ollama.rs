use reorganize::ai::ollama::{normalize_host, Ollama, DEFAULT_HOST, DEFAULT_MODEL};

#[test]
fn an_untagged_model_matches_its_tagged_form() {
    let ollama = Ollama::new(DEFAULT_HOST.to_string(), "llama3.2".to_string());

    assert!(ollama.has_model(&["llama3.2:latest".to_string()]));
    assert!(ollama.has_model(&["llama3.2".to_string()]));
}

#[test]
fn a_tagged_model_must_match_its_tag() {
    let ollama = Ollama::new(DEFAULT_HOST.to_string(), "llama3.2:3b".to_string());

    assert!(ollama.has_model(&["llama3.2:3b".to_string()]));
    assert!(!ollama.has_model(&["llama3.2:latest".to_string()]));
    assert!(!ollama.has_model(&["qwen2.5:3b".to_string()]));
    assert!(!ollama.has_model(&[]));
}

#[test]
fn a_bare_host_and_port_gets_a_scheme() {
    assert_eq!(normalize_host("127.0.0.1:11434"), "http://127.0.0.1:11434");
    assert_eq!(normalize_host("  localhost:11434  "), "http://localhost:11434");
}

#[test]
fn an_explicit_scheme_and_trailing_slash_are_respected() {
    assert_eq!(normalize_host("http://box:11434/"), "http://box:11434");
    assert_eq!(normalize_host("https://box:11434"), "https://box:11434");
}

#[test]
fn the_client_keeps_a_normalized_host_and_the_model() {
    let ollama = Ollama::new(" box:1// ".to_string(), DEFAULT_MODEL.to_string());

    assert_eq!(ollama.host(), "http://box:1");
    assert_eq!(ollama.model(), "llama3.2:3b");
}

#[test]
fn an_untagged_name_does_not_match_a_longer_one() {
    let ollama = Ollama::new(DEFAULT_HOST.to_string(), "llama3".to_string());

    assert!(!ollama.has_model(&["llama3.2:latest".to_string()]));
    assert!(ollama.has_model(&["qwen".to_string(), "llama3:8b".to_string()]));
}
