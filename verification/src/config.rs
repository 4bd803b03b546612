//! The configuration as the runtime reads it, the rules a configuration has to
//! meet, and the part of it that can change while the runtime is up.

use crate::text::{is_blank, is_blank_text};
use vstd::prelude::*;
use vstd::string::*;

verus! {

/// Seconds allowed for one model call where the configuration names none.
pub const DEFAULT_OPENAI_TIMEOUT_SECONDS: u64 = 20;

/// Messages of context where the configuration names no number.
pub const DEFAULT_CONTEXT_MESSAGES: usize = 10;

/// The time allowed for one model call where the configuration names none.
pub fn default_openai_timeout_seconds() -> (seconds: u64)
    ensures
        seconds == DEFAULT_OPENAI_TIMEOUT_SECONDS,
{
    DEFAULT_OPENAI_TIMEOUT_SECONDS
}

/// The number of context messages where the configuration names none.
pub fn default_context_messages() -> (count: usize)
    ensures
        count == DEFAULT_CONTEXT_MESSAGES,
{
    DEFAULT_CONTEXT_MESSAGES
}

/// How the platform account is reached.
#[derive(Debug, PartialEq)]
pub struct TelegramConfig {
    pub api_id: i32,
    pub api_hash: String,
    pub session_file: String,
}

/// The values of a [`TelegramConfig`].
pub struct TelegramConfigView {
    pub api_id: i32,
    pub api_hash: Seq<char>,
    pub session_file: Seq<char>,
}

impl View for TelegramConfig {
    type V = TelegramConfigView;

    open spec fn view(&self) -> TelegramConfigView {
        TelegramConfigView {
            api_id: self.api_id,
            api_hash: self.api_hash@,
            session_file: self.session_file@,
        }
    }
}

impl Clone for TelegramConfig {
    fn clone(&self) -> (r: Self)
        ensures
            r@ == self@,
    {
        TelegramConfig {
            api_id: self.api_id,
            api_hash: self.api_hash.clone(),
            session_file: self.session_file.clone(),
        }
    }
}

/// How the language model is reached.
#[derive(Debug, PartialEq)]
pub struct OpenAiConfig {
    pub api_key: String,
    pub model: String,
    pub timeout_seconds: u64,
}

/// The values of an [`OpenAiConfig`].
pub struct OpenAiConfigView {
    pub api_key: Seq<char>,
    pub model: Seq<char>,
    pub timeout_seconds: u64,
}

impl View for OpenAiConfig {
    type V = OpenAiConfigView;

    open spec fn view(&self) -> OpenAiConfigView {
        OpenAiConfigView {
            api_key: self.api_key@,
            model: self.model@,
            timeout_seconds: self.timeout_seconds,
        }
    }
}

impl Clone for OpenAiConfig {
    fn clone(&self) -> (r: Self)
        ensures
            r@ == self@,
    {
        OpenAiConfig {
            api_key: self.api_key.clone(),
            model: self.model.clone(),
            timeout_seconds: self.timeout_seconds,
        }
    }
}

/// Which conversations are rewritten, with what instructions, and with how
/// much context.
#[derive(Debug, PartialEq)]
pub struct RewriteConfig {
    pub chats: Vec<i64>,
    pub system_prompt: String,
    pub context_messages: usize,
}

/// The values of a [`RewriteConfig`].
pub struct RewriteConfigView {
    pub chats: Seq<i64>,
    pub system_prompt: Seq<char>,
    pub context_messages: usize,
}

impl View for RewriteConfig {
    type V = RewriteConfigView;

    open spec fn view(&self) -> RewriteConfigView {
        RewriteConfigView {
            chats: self.chats@,
            system_prompt: self.system_prompt@,
            context_messages: self.context_messages,
        }
    }
}

impl Clone for RewriteConfig {
    fn clone(&self) -> (r: Self)
        ensures
            r@ == self@,
    {
        RewriteConfig {
            chats: copy_chats(&self.chats),
            system_prompt: self.system_prompt.clone(),
            context_messages: self.context_messages,
        }
    }
}

fn copy_chats(chats: &Vec<i64>) -> (r: Vec<i64>)
    ensures
        r@ == chats@,
{
    let mut out: Vec<i64> = Vec::new();
    let mut i: usize = 0;
    while i < chats.len()
        invariant
            i <= chats.len(),
            out@ == chats@.take(i as int),
        decreases chats.len() - i,
    {
        out.push(chats[i]);
        assert(out@ =~= chats@.take(i + 1));
        i = i + 1;
    }
    assert(chats@.take(chats.len() as int) =~= chats@);
    out
}

fn same_chats(a: &Vec<i64>, b: &Vec<i64>) -> (r: bool)
    ensures
        r == (a@ == b@),
{
    if a.len() != b.len() {
        return false;
    }
    let mut i: usize = 0;
    while i < a.len()
        invariant
            i <= a.len(),
            a.len() == b.len(),
            forall|j: int| 0 <= j < i ==> a@[j] == b@[j],
        decreases a.len() - i,
    {
        if a[i] != b[i] {
            return false;
        }
        i = i + 1;
    }
    assert(a@ =~= b@);
    true
}

impl RewriteConfig {
    /// Whether both hold the same values.
    pub fn same_as(&self, other: &RewriteConfig) -> (r: bool)
        ensures
            r == (self@ == other@),
    {
        same_chats(&self.chats, &other.chats) && self.system_prompt == other.system_prompt
            && self.context_messages == other.context_messages
    }
}

/// Where the end-to-end exercise against a live account takes place.
#[derive(Debug, Clone, Copy, PartialEq)]
pub struct IntegrationTestConfig {
    pub chat_id: i64,
    pub topic_a_root_id: i32,
    pub topic_b_root_id: i32,
}

/// A whole configuration. Only the platform section is always needed.
#[derive(Debug, PartialEq)]
pub struct Config {
    pub telegram: TelegramConfig,
    pub openai: Option<OpenAiConfig>,
    pub rewrite: Option<RewriteConfig>,
    pub integration_test: Option<IntegrationTestConfig>,
}

/// The values of a [`Config`].
pub struct ConfigView {
    pub telegram: TelegramConfigView,
    pub openai: Option<OpenAiConfigView>,
    pub rewrite: Option<RewriteConfigView>,
    pub integration_test: Option<IntegrationTestConfig>,
}

impl View for Config {
    type V = ConfigView;

    open spec fn view(&self) -> ConfigView {
        ConfigView {
            telegram: self.telegram@,
            openai: match self.openai {
                Some(o) => Some(o@),
                None => None,
            },
            rewrite: match self.rewrite {
                Some(r) => Some(r@),
                None => None,
            },
            integration_test: self.integration_test,
        }
    }
}

impl Clone for Config {
    fn clone(&self) -> (r: Self)
        ensures
            r@ == self@,
    {
        Config {
            telegram: self.telegram.clone(),
            openai: match &self.openai {
                Some(o) => Some(o.clone()),
                None => None,
            },
            rewrite: match &self.rewrite {
                Some(r) => Some(r.clone()),
                None => None,
            },
            integration_test: self.integration_test,
        }
    }
}

/// The part of the configuration that is replaced, as a whole, while the
/// runtime is up.
#[derive(Debug, PartialEq)]
pub struct HotConfig {
    pub openai_api_key: String,
    pub openai_model: String,
    pub rewrite: RewriteConfig,
}

/// The values of a [`HotConfig`].
pub struct HotConfigView {
    pub openai_api_key: Seq<char>,
    pub openai_model: Seq<char>,
    pub rewrite: RewriteConfigView,
}

impl View for HotConfig {
    type V = HotConfigView;

    open spec fn view(&self) -> HotConfigView {
        HotConfigView {
            openai_api_key: self.openai_api_key@,
            openai_model: self.openai_model@,
            rewrite: self.rewrite@,
        }
    }
}

impl Clone for HotConfig {
    fn clone(&self) -> (r: Self)
        ensures
            r@ == self@,
    {
        HotConfig {
            openai_api_key: self.openai_api_key.clone(),
            openai_model: self.openai_model.clone(),
            rewrite: self.rewrite.clone(),
        }
    }
}

impl HotConfig {
    /// Whether both hold the same values.
    pub fn same_as(&self, other: &HotConfig) -> (r: bool)
        ensures
            r == (self@ == other@),
    {
        self.openai_api_key == other.openai_api_key && self.openai_model == other.openai_model
            && self.rewrite.same_as(&other.rewrite)
    }
}

/// What the configuration is loaded for.
#[derive(Debug, Clone, Copy, PartialEq, Eq)]
pub enum ConfigMode {
    Rewrite,
    ListChats,
}

/// Why a configuration is turned down.
#[derive(Debug, Clone, Copy, PartialEq, Eq)]
pub enum ConfigError {
    TelegramApiIdNotPositive,
    TelegramApiHashEmpty,
    TelegramSessionFileEmpty,
    OpenAiApiKeyEmpty,
    OpenAiModelEmpty,
    RewriteSystemPromptEmpty,
    RewriteChatsEmpty,
    IntegrationChatIdZero,
    IntegrationTopicANegative,
    IntegrationTopicBNegative,
    IntegrationTopicsEqual,
    RewriteModeNeedsOpenAi,
    RewriteModeNeedsRewrite,
    MissingOpenAi,
    MissingRewrite,
}

impl ConfigError {
    /// The complaint in words.
    pub open spec fn message_text(self) -> Seq<char> {
        match self {
            ConfigError::TelegramApiIdNotPositive => "telegram.api_id must be positive"@,
            ConfigError::TelegramApiHashEmpty => "telegram.api_hash must not be empty"@,
            ConfigError::TelegramSessionFileEmpty => "telegram.session_file must not be empty"@,
            ConfigError::OpenAiApiKeyEmpty => "openai.api_key must not be empty"@,
            ConfigError::OpenAiModelEmpty => "openai.model must not be empty"@,
            ConfigError::RewriteSystemPromptEmpty => "rewrite.system_prompt must not be empty"@,
            ConfigError::RewriteChatsEmpty => "rewrite.chats must not be empty"@,
            ConfigError::IntegrationChatIdZero => "integration_test.chat_id must not be zero"@,
            ConfigError::IntegrationTopicANegative => {
                "integration_test.topic_a_root_id must be non-negative"@
            },
            ConfigError::IntegrationTopicBNegative => {
                "integration_test.topic_b_root_id must be non-negative"@
            },
            ConfigError::IntegrationTopicsEqual => "integration_test topic ids must be different"@,
            ConfigError::RewriteModeNeedsOpenAi => {
                "missing required [openai] section for rewrite mode"@
            },
            ConfigError::RewriteModeNeedsRewrite => {
                "missing required [rewrite] section for rewrite mode"@
            },
            ConfigError::MissingOpenAi => "missing required [openai] section"@,
            ConfigError::MissingRewrite => "missing required [rewrite] section"@,
        }
    }

    /// The complaint in words.
    pub fn message(&self) -> (text: String)
        ensures
            text@ == self.message_text(),
    {
        match self {
            ConfigError::TelegramApiIdNotPositive => "telegram.api_id must be positive".to_owned(),
            ConfigError::TelegramApiHashEmpty => "telegram.api_hash must not be empty".to_owned(),
            ConfigError::TelegramSessionFileEmpty => {
                "telegram.session_file must not be empty".to_owned()
            },
            ConfigError::OpenAiApiKeyEmpty => "openai.api_key must not be empty".to_owned(),
            ConfigError::OpenAiModelEmpty => "openai.model must not be empty".to_owned(),
            ConfigError::RewriteSystemPromptEmpty => {
                "rewrite.system_prompt must not be empty".to_owned()
            },
            ConfigError::RewriteChatsEmpty => "rewrite.chats must not be empty".to_owned(),
            ConfigError::IntegrationChatIdZero => {
                "integration_test.chat_id must not be zero".to_owned()
            },
            ConfigError::IntegrationTopicANegative => {
                "integration_test.topic_a_root_id must be non-negative".to_owned()
            },
            ConfigError::IntegrationTopicBNegative => {
                "integration_test.topic_b_root_id must be non-negative".to_owned()
            },
            ConfigError::IntegrationTopicsEqual => {
                "integration_test topic ids must be different".to_owned()
            },
            ConfigError::RewriteModeNeedsOpenAi => {
                "missing required [openai] section for rewrite mode".to_owned()
            },
            ConfigError::RewriteModeNeedsRewrite => {
                "missing required [rewrite] section for rewrite mode".to_owned()
            },
            ConfigError::MissingOpenAi => "missing required [openai] section".to_owned(),
            ConfigError::MissingRewrite => "missing required [rewrite] section".to_owned(),
        }
    }
}

/// `Ok` where there is no complaint, else the complaint.
pub open spec fn verdict(complaint: Option<ConfigError>) -> Result<(), ConfigError> {
    match complaint {
        Some(e) => Err(e),
        None => Ok(()),
    }
}

/// The first rule that the platform section breaks, if any.
pub open spec fn telegram_complaint(c: TelegramConfigView) -> Option<ConfigError> {
    if c.api_id <= 0 {
        Some(ConfigError::TelegramApiIdNotPositive)
    } else if is_blank(c.api_hash) {
        Some(ConfigError::TelegramApiHashEmpty)
    } else if c.session_file.len() == 0 {
        Some(ConfigError::TelegramSessionFileEmpty)
    } else {
        None
    }
}

/// The first rule that the model section breaks, if any.
pub open spec fn openai_complaint(c: OpenAiConfigView) -> Option<ConfigError> {
    if is_blank(c.api_key) {
        Some(ConfigError::OpenAiApiKeyEmpty)
    } else if is_blank(c.model) {
        Some(ConfigError::OpenAiModelEmpty)
    } else {
        None
    }
}

/// The first rule that the rewrite section breaks, if any.
pub open spec fn rewrite_complaint(c: RewriteConfigView) -> Option<ConfigError> {
    if is_blank(c.system_prompt) {
        Some(ConfigError::RewriteSystemPromptEmpty)
    } else if c.chats.len() == 0 {
        Some(ConfigError::RewriteChatsEmpty)
    } else {
        None
    }
}

/// The first rule that the end-to-end section breaks, if any.
pub open spec fn integration_test_complaint(c: IntegrationTestConfig) -> Option<ConfigError> {
    if c.chat_id == 0 {
        Some(ConfigError::IntegrationChatIdZero)
    } else if c.topic_a_root_id < 0 {
        Some(ConfigError::IntegrationTopicANegative)
    } else if c.topic_b_root_id < 0 {
        Some(ConfigError::IntegrationTopicBNegative)
    } else if c.topic_a_root_id == c.topic_b_root_id {
        Some(ConfigError::IntegrationTopicsEqual)
    } else {
        None
    }
}

/// What the rewrite mode asks beyond the platform section: both other
/// sections, each valid.
pub open spec fn rewrite_mode_complaint(c: ConfigView) -> Option<ConfigError> {
    match c.openai {
        None => Some(ConfigError::RewriteModeNeedsOpenAi),
        Some(openai) => match openai_complaint(openai) {
            Some(e) => Some(e),
            None => match c.rewrite {
                None => Some(ConfigError::RewriteModeNeedsRewrite),
                Some(rewrite) => rewrite_complaint(rewrite),
            },
        },
    }
}

/// The first rule that the configuration breaks for the mode, if any: the
/// platform section, then the end-to-end section where there is one, then
/// what the mode asks.
pub open spec fn config_complaint(c: ConfigView, mode: ConfigMode) -> Option<ConfigError> {
    match telegram_complaint(c.telegram) {
        Some(e) => Some(e),
        None => {
            let integration = match c.integration_test {
                Some(it) => integration_test_complaint(it),
                None => None,
            };
            match integration {
                Some(e) => Some(e),
                None => match mode {
                    ConfigMode::Rewrite => rewrite_mode_complaint(c),
                    ConfigMode::ListChats => None,
                },
            }
        },
    }
}

/// The hot part of a configuration that has both sections it is taken from.
pub open spec fn hot_config_of(
    openai: OpenAiConfigView,
    rewrite: RewriteConfigView,
) -> HotConfigView {
    HotConfigView { openai_api_key: openai.api_key, openai_model: openai.model, rewrite }
}

/// The hot part of a configuration, or the section that is missing for it.
pub open spec fn extracted_hot_config(c: ConfigView) -> Result<HotConfigView, ConfigError> {
    match c.openai {
        None => Err(ConfigError::MissingOpenAi),
        Some(openai) => match c.rewrite {
            None => Err(ConfigError::MissingRewrite),
            Some(rewrite) => Ok(hot_config_of(openai, rewrite)),
        },
    }
}

/// The hot part of a configuration that is valid for the rewrite mode, or the
/// first rule that it breaks.
pub open spec fn loaded_hot_config(c: ConfigView) -> Result<HotConfigView, ConfigError> {
    match config_complaint(c, ConfigMode::Rewrite) {
        Some(e) => Err(e),
        None => extracted_hot_config(c),
    }
}

/// Holds the platform section to its rules: a positive application id, an
/// application hash that is not blank, and a session file that is named.
pub fn validate_telegram_config(config: &TelegramConfig) -> (r: Result<(), ConfigError>)
    ensures
        r == verdict(telegram_complaint(config@)),
{
    if config.api_id <= 0 {
        return Err(ConfigError::TelegramApiIdNotPositive);
    }
    if is_blank_text(config.api_hash.as_str()) {
        return Err(ConfigError::TelegramApiHashEmpty);
    }
    if config.session_file.as_str().unicode_len() == 0 {
        return Err(ConfigError::TelegramSessionFileEmpty);
    }
    Ok(())
}

/// Holds the model section to its rules: neither the key nor the model name
/// is blank.
pub fn validate_openai_config(config: &OpenAiConfig) -> (r: Result<(), ConfigError>)
    ensures
        r == verdict(openai_complaint(config@)),
{
    if is_blank_text(config.api_key.as_str()) {
        return Err(ConfigError::OpenAiApiKeyEmpty);
    }
    if is_blank_text(config.model.as_str()) {
        return Err(ConfigError::OpenAiModelEmpty);
    }
    Ok(())
}

/// Holds the rewrite section to its rules: the instructions are not blank and
/// at least one conversation is named.
pub fn validate_rewrite_config(config: &RewriteConfig) -> (r: Result<(), ConfigError>)
    ensures
        r == verdict(rewrite_complaint(config@)),
{
    if is_blank_text(config.system_prompt.as_str()) {
        return Err(ConfigError::RewriteSystemPromptEmpty);
    }
    if config.chats.len() == 0 {
        return Err(ConfigError::RewriteChatsEmpty);
    }
    Ok(())
}

/// Holds the end-to-end section to its rules: a conversation is named, and
/// the two topics are not negative and differ.
pub fn validate_integration_test_config(config: &IntegrationTestConfig) -> (r: Result<
    (),
    ConfigError,
>)
    ensures
        r == verdict(integration_test_complaint(*config)),
{
    if config.chat_id == 0 {
        return Err(ConfigError::IntegrationChatIdZero);
    }
    if config.topic_a_root_id < 0 {
        return Err(ConfigError::IntegrationTopicANegative);
    }
    if config.topic_b_root_id < 0 {
        return Err(ConfigError::IntegrationTopicBNegative);
    }
    if config.topic_a_root_id == config.topic_b_root_id {
        return Err(ConfigError::IntegrationTopicsEqual);
    }
    Ok(())
}

/// Holds a configuration to the rules of the mode it is loaded for, and names
/// the first rule that it breaks.
pub fn validate_config_for_mode(config: &Config, mode: ConfigMode) -> (r: Result<(), ConfigError>)
    ensures
        r == verdict(config_complaint(config@, mode)),
{
    match validate_telegram_config(&config.telegram) {
        Err(e) => {
            return Err(e);
        },
        Ok(()) => {},
    }
    match &config.integration_test {
        Some(integration_test) => {
            match validate_integration_test_config(integration_test) {
                Err(e) => {
                    return Err(e);
                },
                Ok(()) => {},
            }
        },
        None => {},
    }
    match mode {
        ConfigMode::ListChats => Ok(()),
        ConfigMode::Rewrite => {
            let openai = match &config.openai {
                Some(openai) => openai,
                None => {
                    return Err(ConfigError::RewriteModeNeedsOpenAi);
                },
            };
            match validate_openai_config(openai) {
                Err(e) => {
                    return Err(e);
                },
                Ok(()) => {},
            }
            let rewrite = match &config.rewrite {
                Some(rewrite) => rewrite,
                None => {
                    return Err(ConfigError::RewriteModeNeedsRewrite);
                },
            };
            validate_rewrite_config(rewrite)
        },
    }
}

impl Config {
    /// The model section, which the caller cannot do without.
    pub fn openai_required(&self) -> (r: Result<&OpenAiConfig, ConfigError>)
        ensures
            match r {
                Ok(openai) => self.openai == Some(*openai),
                Err(e) => self.openai is None && e == ConfigError::MissingOpenAi,
            },
    {
        match &self.openai {
            Some(openai) => Ok(openai),
            None => Err(ConfigError::MissingOpenAi),
        }
    }

    /// The rewrite section, which the caller cannot do without.
    pub fn rewrite_required(&self) -> (r: Result<&RewriteConfig, ConfigError>)
        ensures
            match r {
                Ok(rewrite) => self.rewrite == Some(*rewrite),
                Err(e) => self.rewrite is None && e == ConfigError::MissingRewrite,
            },
    {
        match &self.rewrite {
            Some(rewrite) => Ok(rewrite),
            None => Err(ConfigError::MissingRewrite),
        }
    }
}

/// The view of a result that holds a hot configuration.
pub open spec fn hot_result_view(r: Result<HotConfig, ConfigError>) -> Result<
    HotConfigView,
    ConfigError,
> {
    match r {
        Ok(hot) => Ok(hot@),
        Err(e) => Err(e),
    }
}

/// Takes the hot part out of a configuration.
pub fn extract_hot_config(config: &Config) -> (r: Result<HotConfig, ConfigError>)
    ensures
        hot_result_view(r) == extracted_hot_config(config@),
{
    let openai = match config.openai_required() {
        Ok(openai) => openai,
        Err(e) => {
            return Err(e);
        },
    };
    let rewrite = match config.rewrite_required() {
        Ok(rewrite) => rewrite,
        Err(e) => {
            return Err(e);
        },
    };
    Ok(
        HotConfig {
            openai_api_key: openai.api_key.clone(),
            openai_model: openai.model.clone(),
            rewrite: rewrite.clone(),
        },
    )
}

/// Holds a freshly read configuration to the rules of the rewrite mode and
/// takes its hot part.
pub fn load_hot_config(config: &Config) -> (r: Result<HotConfig, ConfigError>)
    ensures
        hot_result_view(r) == loaded_hot_config(config@),
{
    match validate_config_for_mode(config, ConfigMode::Rewrite) {
        Err(e) => Err(e),
        Ok(()) => extract_hot_config(config),
    }
}

/// A configuration that passes for the rewrite mode always yields its hot
/// part, and that part meets the rules of both sections it was taken from.
pub proof fn law_valid_config_yields_hot_config(c: ConfigView)
    requires
        config_complaint(c, ConfigMode::Rewrite) is None,
    ensures
        loaded_hot_config(c) is Ok,
        loaded_hot_config(c)->Ok_0.rewrite.chats.len() > 0,
        !is_blank(loaded_hot_config(c)->Ok_0.rewrite.system_prompt),
        !is_blank(loaded_hot_config(c)->Ok_0.openai_api_key),
        !is_blank(loaded_hot_config(c)->Ok_0.openai_model),
{
}

} // verus!
