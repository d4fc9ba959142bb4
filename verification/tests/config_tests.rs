use ember::config::{AgentConfig, MemoryConfig, MAX_TEMPERATURE};
use ember::error::Error;

#[test]
fn test_default_config() {
    let config = AgentConfig::default();
    assert!(!config.system_prompt.is_empty());
    assert!(config.max_context_tokens > 0);
    assert!(config.validate().is_ok());
}

#[test]
fn test_config_builder() {
    let config = AgentConfig::builder()
        .system_prompt("Custom prompt")
        .max_context_tokens(4096)
        .temperature(50)
        .streaming(false)
        .build();

    assert_eq!(config.system_prompt, "Custom prompt");
    assert_eq!(config.max_context_tokens, 4096);
    assert_eq!(config.temperature, 50);
    assert!(!config.streaming);
}

#[test]
fn test_temperature_clamping() {
    let config = AgentConfig::builder().temperature(300).build();
    assert_eq!(config.temperature, 200);

    let config = AgentConfig::builder().temperature(-100).build();
    assert_eq!(config.temperature, 0);
}

#[test]
fn test_invalid_config() {
    let mut config = AgentConfig::default();
    config.system_prompt = String::new();
    assert!(config.validate().is_err());

    let mut config = AgentConfig::default();
    config.max_context_tokens = 0;
    assert!(config.validate().is_err());
}

fn message(r: Result<(), Error>) -> String {
    match r {
        Err(Error::Config(m)) => m,
        _ => panic!("expected a configuration error"),
    }
}

#[test]
fn config_validation_messages() {
    let mut config = AgentConfig::default();
    config.system_prompt = String::new();
    config.max_iterations = 0;
    assert_eq!(message(config.validate()), "System prompt cannot be empty");

    let mut config = AgentConfig::default();
    config.max_context_tokens = 0;
    assert_eq!(message(config.validate()), "Max context tokens must be > 0");

    let config = AgentConfig::builder().max_iterations(0).build();
    assert_eq!(message(config.validate()), "Max iterations must be > 0");

    let mut config = AgentConfig::default();
    config.temperature = MAX_TEMPERATURE + 1;
    assert_eq!(message(config.validate()), "Temperature must be between 0.0 and 2.0");

    let mut config = AgentConfig::default();
    config.temperature = MAX_TEMPERATURE;
    assert!(config.validate().is_ok());
}

#[test]
fn config_defaults_and_memory_builders() {
    let config = AgentConfig::default();
    assert_eq!(config.max_iterations, 10);
    assert_eq!(config.request_timeout_ms, 60_000);
    assert_eq!(config.temperature, 70);
    assert_eq!(config.max_tool_calls_per_turn, 5);
    assert_eq!(config.max_retries, 3);
    assert_eq!(config.memory, MemoryConfig::default());
    assert_eq!(config.memory.max_short_term_messages, 50);

    let config = AgentConfig::builder()
        .with_long_term_memory()
        .with_auto_summarize(7)
        .request_timeout(1500)
        .tools_enabled(false)
        .auto_retry(false)
        .max_retries(9)
        .max_tool_calls_per_turn(2)
        .build();
    assert!(config.memory.long_term_enabled);
    assert!(config.memory.auto_summarize);
    assert_eq!(config.memory.summarization_threshold, 7);
    assert_eq!(config.memory.max_long_term_entries, 1000);
    assert_eq!(config.request_timeout_ms, 1500);
    assert!(!config.tools_enabled);
    assert!(!config.auto_retry);
    assert_eq!(config.max_retries, 9);
    assert_eq!(config.max_tool_calls_per_turn, 2);
}
