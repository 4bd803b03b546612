use brainrot_tg_llm_rewrite::config::{
    default_context_messages, default_openai_timeout_seconds, extract_hot_config, load_hot_config,
    validate_config_for_mode, validate_integration_test_config, validate_openai_config,
    validate_rewrite_config, validate_telegram_config, Config, ConfigError, ConfigMode, HotConfig,
    IntegrationTestConfig, OpenAiConfig, RewriteConfig, TelegramConfig,
};

fn telegram() -> TelegramConfig {
    TelegramConfig {
        api_id: 12345,
        api_hash: "hash".to_owned(),
        session_file: "session.bin".to_owned(),
    }
}

fn openai() -> OpenAiConfig {
    OpenAiConfig {
        api_key: "sk-test".to_owned(),
        model: "gpt-4.1-mini".to_owned(),
        timeout_seconds: default_openai_timeout_seconds(),
    }
}

fn rewrite() -> RewriteConfig {
    RewriteConfig {
        chats: vec![-1001234567890],
        system_prompt: "rewrite this".to_owned(),
        context_messages: default_context_messages(),
    }
}

fn valid_full_config() -> Config {
    Config {
        telegram: telegram(),
        openai: Some(openai()),
        rewrite: Some(rewrite()),
        integration_test: None,
    }
}

fn telegram_only() -> Config {
    Config {
        telegram: telegram(),
        openai: None,
        rewrite: None,
        integration_test: None,
    }
}

fn with_integration(chat_id: i64, a: i32, b: i32) -> Config {
    Config {
        integration_test: Some(IntegrationTestConfig {
            chat_id,
            topic_a_root_id: a,
            topic_b_root_id: b,
        }),
        ..valid_full_config()
    }
}

#[test]
fn hot_config_partial_eq() {
    let a = HotConfig {
        openai_api_key: "sk-test".into(),
        openai_model: "gpt-4.1-mini".into(),
        rewrite: RewriteConfig {
            chats: vec![1],
            system_prompt: "test".into(),
            context_messages: 10,
        },
    };
    let b = a.clone();
    assert_eq!(a, b);

    let c = HotConfig {
        openai_model: "gpt-4.1".into(),
        ..a.clone()
    };
    assert_ne!(a, c);
}

#[test]
fn hot_config_same_as_compares_every_field() {
    let a = HotConfig {
        openai_api_key: "sk-test".into(),
        openai_model: "gpt-4.1-mini".into(),
        rewrite: RewriteConfig {
            chats: vec![1, 2],
            system_prompt: "test".into(),
            context_messages: 10,
        },
    };
    assert!(a.same_as(&a.clone()));
    let mut b = a.clone();
    b.openai_api_key.push('x');
    assert!(!a.same_as(&b));
    let mut b = a.clone();
    b.openai_model = "gpt-4.1".into();
    assert!(!a.same_as(&b));
    let mut b = a.clone();
    b.rewrite.chats = vec![2, 1];
    assert!(!a.same_as(&b));
    let mut b = a.clone();
    b.rewrite.chats.push(3);
    assert!(!a.same_as(&b));
    let mut b = a.clone();
    b.rewrite.system_prompt = "Test".into();
    assert!(!a.same_as(&b));
    let mut b = a.clone();
    b.rewrite.context_messages = 11;
    assert!(!a.same_as(&b));
}

#[test]
fn defaults_are_twenty_seconds_and_ten_messages() {
    assert_eq!(default_openai_timeout_seconds(), 20);
    assert_eq!(default_context_messages(), 10);
}

#[test]
fn valid_full_config_parses_for_rewrite_mode() {
    let config = valid_full_config();
    validate_config_for_mode(&config, ConfigMode::Rewrite).expect("config should pass");
    assert_eq!(config.telegram.api_id, 12345);
    let rewrite = config.rewrite.expect("rewrite section should exist");
    assert_eq!(rewrite.chats, vec![-1001234567890]);
    assert_eq!(rewrite.context_messages, 10);
    assert_eq!(
        config
            .openai
            .expect("openai section should exist")
            .timeout_seconds,
        20
    );
}

#[test]
fn empty_chat_list_fails_in_rewrite_mode() {
    let mut invalid = valid_full_config();
    invalid.rewrite = Some(RewriteConfig {
        chats: vec![],
        ..rewrite()
    });
    let err = validate_config_for_mode(&invalid, ConfigMode::Rewrite)
        .expect_err("expected validation to fail");
    assert_eq!(err, ConfigError::RewriteChatsEmpty);
    assert!(err.message().contains("rewrite.chats"));
}

#[test]
fn list_mode_allows_telegram_only_config() {
    validate_config_for_mode(&telegram_only(), ConfigMode::ListChats)
        .expect("telegram-only config should pass for list mode");
}

#[test]
fn list_mode_accepts_full_config() {
    validate_config_for_mode(&valid_full_config(), ConfigMode::ListChats)
        .expect("full config should pass for list mode");
}

#[test]
fn list_mode_does_not_look_at_the_other_sections() {
    let mut config = valid_full_config();
    config.openai = Some(OpenAiConfig {
        api_key: String::new(),
        ..openai()
    });
    config.rewrite = Some(RewriteConfig {
        chats: vec![],
        ..rewrite()
    });
    assert_eq!(validate_config_for_mode(&config, ConfigMode::ListChats), Ok(()));
}

#[test]
fn rewrite_mode_requires_openai_and_rewrite_sections() {
    let err = validate_config_for_mode(&telegram_only(), ConfigMode::Rewrite)
        .expect_err("rewrite mode should require more than telegram section");
    assert_eq!(err, ConfigError::RewriteModeNeedsOpenAi);
    assert!(err.message().contains("[openai]"));

    let mut no_rewrite = valid_full_config();
    no_rewrite.rewrite = None;
    let err = validate_config_for_mode(&no_rewrite, ConfigMode::Rewrite).expect_err("should fail");
    assert_eq!(err, ConfigError::RewriteModeNeedsRewrite);
    assert_eq!(
        err.message(),
        "missing required [rewrite] section for rewrite mode"
    );
}

#[test]
fn extract_hot_config_from_valid_config() {
    let config = valid_full_config();
    validate_config_for_mode(&config, ConfigMode::Rewrite).expect("config should pass");
    let hot = extract_hot_config(&config).expect("should extract hot config");
    assert_eq!(hot.openai_api_key, "sk-test");
    assert_eq!(hot.openai_model, "gpt-4.1-mini");
    assert_eq!(hot.rewrite.chats, vec![-1001234567890]);
    assert_eq!(hot.rewrite.system_prompt, "rewrite this");
}

#[test]
fn extract_hot_config_names_the_missing_section() {
    let err = extract_hot_config(&telegram_only()).expect_err("should fail");
    assert_eq!(err, ConfigError::MissingOpenAi);
    assert_eq!(err.message(), "missing required [openai] section");
    let mut no_rewrite = valid_full_config();
    no_rewrite.rewrite = None;
    let err = extract_hot_config(&no_rewrite).expect_err("should fail");
    assert_eq!(err, ConfigError::MissingRewrite);
    assert_eq!(err.message(), "missing required [rewrite] section");
    assert_eq!(telegram_only().openai_required(), Err(ConfigError::MissingOpenAi));
    assert_eq!(telegram_only().rewrite_required(), Err(ConfigError::MissingRewrite));
    let full = valid_full_config();
    assert_eq!(full.openai_required(), Ok(&openai()));
    assert_eq!(full.rewrite_required(), Ok(&rewrite()));
}

#[test]
fn load_hot_config_round_trip() {
    let hot = load_hot_config(&valid_full_config()).expect("should load hot config");
    assert_eq!(hot.openai_api_key, "sk-test");
    assert_eq!(hot.openai_model, "gpt-4.1-mini");
    assert_eq!(hot.rewrite.system_prompt, "rewrite this");
    assert_eq!(hot.rewrite.context_messages, 10);
}

#[test]
fn load_hot_config_rejects_empty_system_prompt() {
    let mut invalid = valid_full_config();
    invalid.rewrite = Some(RewriteConfig {
        system_prompt: "   ".to_owned(),
        ..rewrite()
    });
    let err = load_hot_config(&invalid).expect_err("should fail");
    assert!(err.message().contains("system_prompt"));
    assert_eq!(err, ConfigError::RewriteSystemPromptEmpty);
}

#[test]
fn load_hot_config_rejects_empty_api_key() {
    let mut invalid = valid_full_config();
    invalid.openai = Some(OpenAiConfig {
        api_key: "   ".to_owned(),
        ..openai()
    });
    let err = load_hot_config(&invalid).expect_err("should fail");
    assert!(err.message().contains("openai.api_key"));
    assert_eq!(err, ConfigError::OpenAiApiKeyEmpty);
}

#[test]
fn load_hot_config_rejects_what_the_platform_section_lacks() {
    let mut invalid = valid_full_config();
    invalid.telegram.api_id = 0;
    assert_eq!(load_hot_config(&invalid), Err(ConfigError::TelegramApiIdNotPositive));
    assert_eq!(load_hot_config(&telegram_only()), Err(ConfigError::RewriteModeNeedsOpenAi));
}

#[test]
fn integration_test_config_parses_when_present() {
    let config = with_integration(-1001234567890, 101, 202);
    validate_config_for_mode(&config, ConfigMode::Rewrite)
        .expect("config with integration_test should pass");
    let integration = config
        .integration_test
        .expect("integration_test section should exist");
    assert_eq!(integration.chat_id, -1001234567890);
    assert_eq!(integration.topic_a_root_id, 101);
    assert_eq!(integration.topic_b_root_id, 202);
}

#[test]
fn integration_test_config_allows_general_topic_marker_zero() {
    validate_config_for_mode(&with_integration(-1001234567890, 0, 202), ConfigMode::Rewrite)
        .expect("topic_*_root_id = 0 should be accepted as general topic marker");
}

#[test]
fn integration_test_config_rejects_zero_chat_id() {
    let err = validate_config_for_mode(&with_integration(0, 101, 202), ConfigMode::Rewrite)
        .expect_err("config should reject zero integration_test.chat_id");
    assert!(err.message().contains("integration_test.chat_id"));
    assert_eq!(err, ConfigError::IntegrationChatIdZero);
}

#[test]
fn integration_test_config_rejects_identical_topic_ids() {
    let err = validate_config_for_mode(
        &with_integration(-1001234567890, 101, 101),
        ConfigMode::Rewrite,
    )
    .expect_err("config should reject identical integration_test topic ids");
    assert!(err.message().contains("topic ids"));
    assert_eq!(err, ConfigError::IntegrationTopicsEqual);
}

#[test]
fn integration_test_config_rejects_negative_topic_id() {
    let err = validate_config_for_mode(
        &with_integration(-1001234567890, -1, 101),
        ConfigMode::Rewrite,
    )
    .expect_err("negative integration_test topic id should fail");
    assert!(err.message().contains("non-negative"));
    assert_eq!(err, ConfigError::IntegrationTopicANegative);
    let err = validate_integration_test_config(&IntegrationTestConfig {
        chat_id: 1,
        topic_a_root_id: 1,
        topic_b_root_id: -1,
    })
    .expect_err("should fail");
    assert_eq!(err, ConfigError::IntegrationTopicBNegative);
    assert_eq!(
        err.message(),
        "integration_test.topic_b_root_id must be non-negative"
    );
}

#[test]
fn integration_section_is_checked_in_list_mode_too() {
    let mut config = telegram_only();
    config.integration_test = Some(IntegrationTestConfig {
        chat_id: 0,
        topic_a_root_id: 1,
        topic_b_root_id: 2,
    });
    assert_eq!(
        validate_config_for_mode(&config, ConfigMode::ListChats),
        Err(ConfigError::IntegrationChatIdZero)
    );
}

#[test]
fn telegram_section_rules_in_order() {
    let bad_id = TelegramConfig {
        api_id: 0,
        api_hash: String::new(),
        session_file: String::new(),
    };
    let err = validate_telegram_config(&bad_id).expect_err("should fail");
    assert_eq!(err, ConfigError::TelegramApiIdNotPositive);
    assert_eq!(err.message(), "telegram.api_id must be positive");
    let negative = TelegramConfig {
        api_id: -5,
        ..telegram()
    };
    assert_eq!(
        validate_telegram_config(&negative),
        Err(ConfigError::TelegramApiIdNotPositive)
    );
    let bad_hash = TelegramConfig {
        api_id: 1,
        api_hash: " \t".to_owned(),
        session_file: String::new(),
    };
    let err = validate_telegram_config(&bad_hash).expect_err("should fail");
    assert_eq!(err, ConfigError::TelegramApiHashEmpty);
    assert_eq!(err.message(), "telegram.api_hash must not be empty");
    let bad_file = TelegramConfig {
        session_file: String::new(),
        ..telegram()
    };
    let err = validate_telegram_config(&bad_file).expect_err("should fail");
    assert_eq!(err, ConfigError::TelegramSessionFileEmpty);
    assert_eq!(err.message(), "telegram.session_file must not be empty");
    // a session file made of blanks is a name, not an empty path
    let blank_file = TelegramConfig {
        session_file: " ".to_owned(),
        ..telegram()
    };
    assert_eq!(validate_telegram_config(&blank_file), Ok(()));
    assert_eq!(validate_telegram_config(&telegram()), Ok(()));
}

#[test]
fn openai_and_rewrite_section_rules_in_order() {
    let both_blank = OpenAiConfig {
        api_key: " ".to_owned(),
        model: " ".to_owned(),
        timeout_seconds: 1,
    };
    assert_eq!(
        validate_openai_config(&both_blank),
        Err(ConfigError::OpenAiApiKeyEmpty)
    );
    let no_model = OpenAiConfig {
        model: String::new(),
        ..openai()
    };
    let err = validate_openai_config(&no_model).expect_err("should fail");
    assert_eq!(err, ConfigError::OpenAiModelEmpty);
    assert_eq!(err.message(), "openai.model must not be empty");
    assert_eq!(
        ConfigError::OpenAiApiKeyEmpty.message(),
        "openai.api_key must not be empty"
    );
    assert_eq!(validate_openai_config(&openai()), Ok(()));

    let both_bad = RewriteConfig {
        chats: vec![],
        system_prompt: "\n".to_owned(),
        context_messages: 0,
    };
    let err = validate_rewrite_config(&both_bad).expect_err("should fail");
    assert_eq!(err, ConfigError::RewriteSystemPromptEmpty);
    assert_eq!(err.message(), "rewrite.system_prompt must not be empty");
    assert_eq!(
        ConfigError::RewriteChatsEmpty.message(),
        "rewrite.chats must not be empty"
    );
    assert_eq!(
        ConfigError::IntegrationChatIdZero.message(),
        "integration_test.chat_id must not be zero"
    );
    assert_eq!(
        ConfigError::IntegrationTopicANegative.message(),
        "integration_test.topic_a_root_id must be non-negative"
    );
    assert_eq!(
        ConfigError::IntegrationTopicsEqual.message(),
        "integration_test topic ids must be different"
    );
    assert_eq!(
        ConfigError::RewriteModeNeedsOpenAi.message(),
        "missing required [openai] section for rewrite mode"
    );
    let zero_context = RewriteConfig {
        context_messages: 0,
        ..rewrite()
    };
    assert_eq!(validate_rewrite_config(&zero_context), Ok(()));
}

#[test]
fn config_clone_keeps_every_field() {
    let config = with_integration(5, 1, 2);
    assert_eq!(config.clone(), config);
    assert_eq!(telegram_only().clone(), telegram_only());
}
