//! The configuration of a gateway.
use vstd::prelude::*;

use crate::session::TrustLevel;
use crate::text::{
    before_suffix, cat2, contains_text, has_text, lower_ascii, opt_str_view, opt_view, same_opt,
    same_text, same_texts, strip_suffix_text, to_lower_ascii, trim_text, trimmed, views,
};

verus! {

/// When the agent answers in a group.
#[derive(Clone, Copy, Debug, PartialEq, Eq, Structural)]
pub enum GroupTrigger {
    /// On every message.
    Always,
    /// When it is mentioned.
    Mention,
    /// When the message matches a regular expression.
    Regex,
    /// When a model says so.
    Llm,
}

/// A bound on the trust of group members.
#[derive(Clone, Copy, Debug, PartialEq, Eq, Structural)]
pub enum TrustCeiling {
    Unbounded,
    Fixed(TrustLevel),
    MinMember,
}

/// Whether a scheduled reply is always delivered.
#[derive(Clone, Copy, Debug, PartialEq, Eq, Structural)]
pub enum CronDeliveryMode {
    Always,
    AsNeeded,
}

/// Whether a provider is asked to stream.
#[derive(Clone, Copy, Debug, PartialEq, Eq, Structural)]
pub enum StreamPolicy {
    Prefer,
    Require,
    Disable,
}

/// A kind of model input or output.
#[derive(Clone, Copy, Debug, PartialEq, Eq, Structural)]
pub enum ModelModality {
    Text,
    Image,
    Audio,
    Video,
}

/// How long a prompt file stays the same.
#[derive(Clone, Copy, Debug, PartialEq, Eq, Structural)]
pub enum CacheHintConfig {
    Stable,
    Session,
    Volatile,
}

/// Sandbox settings that a user or a cron job overrides.
#[derive(Clone, Debug, PartialEq, Eq)]
pub struct SandboxOverrides {
    pub allow_network: Option<bool>,
    pub memory: Option<String>,
    pub pids_limit: Option<u32>,
}

/// Sandbox settings.
#[derive(Clone, Debug, PartialEq, Eq)]
pub struct SandboxConfig {
    pub enabled: bool,
    pub allow_network: bool,
    pub memory: String,
    pub pids_limit: u32,
}

/// A user the agent knows.
#[derive(Clone, Debug, PartialEq, Eq)]
pub struct UserConfig {
    pub name: String,
    pub trust: TrustLevel,
    pub match_patterns: Vec<String>,
    pub model: Option<String>,
    pub timezone: Option<String>,
    pub sandbox: Option<SandboxOverrides>,
}

/// A group conversation the agent takes part in.
#[derive(Clone, Debug, PartialEq, Eq)]
pub struct GroupConfig {
    pub match_patterns: Vec<String>,
    pub trigger: GroupTrigger,
    pub mention_names: Vec<String>,
    pub trigger_regex: Option<String>,
    pub trigger_model: Option<String>,
    pub trigger_prompt: Option<String>,
    pub default_trust: TrustLevel,
    pub trust_ceiling: TrustCeiling,
    pub history_limit: usize,
}

/// The Signal channel.
#[derive(Clone, Debug, PartialEq, Eq)]
pub struct SignalChannelConfig {
    pub db_path: String,
    pub verbose: bool,
}

/// The channels the agent speaks on.
#[derive(Clone, Debug, PartialEq, Eq)]
pub struct ChannelsConfig {
    pub signal: Option<SignalChannelConfig>,
}

/// Reasoning settings of a provider, by the names of their values.
#[derive(Clone, Debug, PartialEq, Eq)]
pub struct ReasoningConfig {
    pub effort: Option<String>,
    pub summary: Option<String>,
}

/// What a model can do, as configured.
#[derive(Clone, Debug, PartialEq, Eq)]
pub struct ModelCapabilityConfig {
    pub model: String,
    pub input_modalities: Option<Vec<ModelModality>>,
    pub output_modalities: Option<Vec<ModelModality>>,
    pub hidden: bool,
    pub subagent_only: bool,
}

/// The context limit of one model.
#[derive(Clone, Debug, PartialEq, Eq)]
pub struct ContextLimitConfig {
    pub model: String,
    pub limit: usize,
}

/// A header sent with every request.
#[derive(Clone, Debug, PartialEq, Eq)]
pub struct HeaderConfig {
    pub name: String,
    pub value: String,
}

/// A model provider.
#[derive(Clone, Debug, PartialEq, Eq)]
pub struct ProviderConfig {
    pub name: String,
    pub api_keys: Vec<String>,
    pub base_url: Option<String>,
    pub api_key_env: Option<String>,
    pub models: Vec<String>,
    pub model_context_limits: Vec<ContextLimitConfig>,
    pub model_capabilities: Vec<ModelCapabilityConfig>,
    pub extra_headers: Vec<HeaderConfig>,
    pub stream_policy: StreamPolicy,
    pub reasoning: Option<ReasoningConfig>,
}

/// A short name for a model.
#[derive(Clone, Debug, PartialEq, Eq)]
pub struct AliasConfig {
    pub alias: String,
    pub target: String,
}

/// A file of the system prompt.
#[derive(Clone, Debug, PartialEq, Eq)]
pub struct PromptFileEntry {
    pub path: String,
    pub trust: TrustLevel,
    pub cache: CacheHintConfig,
    pub description: Option<String>,
}

/// The files of the system prompt.
#[derive(Clone, Debug, PartialEq, Eq)]
pub struct PromptConfig {
    pub shared_files: Vec<PromptFileEntry>,
    pub user_files: Vec<PromptFileEntry>,
}

/// The memory index in the prompt.
#[derive(Clone, Debug, PartialEq, Eq)]
pub struct MemoryPromptIndexConfig {
    pub enabled: bool,
    pub limit: usize,
    pub max_tokens: usize,
    pub recent_days: u32,
    pub include_file_links: bool,
}

/// How long memories are kept.
#[derive(Clone, Debug, PartialEq, Eq)]
pub struct MemoryRetentionConfig {
    pub enabled: bool,
    pub archive_after_days: i64,
    pub delete_archive_after_days: i64,
    pub compress_after_days: i64,
    pub compression_min_cluster_size: usize,
    pub max_rows_per_run: usize,
}

/// What is remembered after each turn.
#[derive(Clone, Debug, PartialEq, Eq)]
pub struct MemoryAutoCaptureConfig {
    pub enabled: bool,
    pub min_turn_messages: usize,
}

/// The embedding model of the memory.
#[derive(Clone, Debug, PartialEq, Eq)]
pub struct MemoryEmbeddingConfig {
    pub provider: String,
    pub model: String,
    pub dimensions: usize,
    pub base_url: Option<String>,
    pub api_key_env: Option<String>,
}

/// The agent's memory.
#[derive(Clone, Debug, PartialEq, Eq)]
pub struct MemoryConfig {
    pub db_path: String,
    pub embedding: Option<MemoryEmbeddingConfig>,
    pub prompt_index: MemoryPromptIndexConfig,
    pub retention: MemoryRetentionConfig,
    pub auto_capture: MemoryAutoCaptureConfig,
}

/// Where a cron job delivers to.
#[derive(Clone, Debug, PartialEq, Eq)]
pub struct CronDelivery {
    pub channel: String,
    pub target: String,
}

/// A scheduled job.
#[derive(Clone, Debug, PartialEq, Eq)]
pub struct CronConfig {
    pub name: String,
    pub cron: String,
    pub message: String,
    pub user: Option<String>,
    pub timezone: Option<String>,
    pub deliver: Option<CronDelivery>,
    pub delivery: Option<CronDeliveryMode>,
    pub review_prompt: Option<String>,
    pub sandbox: Option<SandboxOverrides>,
}

/// A kind of subagent.
#[derive(Clone, Debug, PartialEq, Eq)]
pub struct SubagentProfile {
    pub name: String,
    pub model: Option<String>,
    pub tools: Option<Vec<String>>,
    pub default_timeout_seconds: Option<u64>,
    pub default_max_turns: Option<u32>,
    pub allow_spawn: bool,
}

/// Subagent settings.
#[derive(Clone, Debug, PartialEq, Eq)]
pub struct SubagentsConfig {
    pub enabled: bool,
    pub max_spawn_depth: u32,
    pub max_active_children: usize,
    pub max_concurrent: usize,
    pub default_timeout_seconds: u64,
    pub default_max_turns: u32,
    pub model: Option<String>,
    pub profiles: Vec<SubagentProfile>,
}

/// The agent itself.
#[derive(Clone, Debug, PartialEq, Eq)]
pub struct AgentConfig {
    pub id: String,
    pub model: String,
    pub workspace: String,
    pub context_limit: Option<usize>,
    pub subagents: SubagentsConfig,
}

/// The web search tool.
#[derive(Clone, Debug, PartialEq, Eq)]
pub struct WebSearchConfig {
    pub provider: Option<String>,
    pub timeout_seconds: Option<u64>,
    pub max_results: Option<u32>,
}

/// The web fetch tool.
#[derive(Clone, Debug, PartialEq, Eq)]
pub struct WebFetchConfig {
    pub max_chars: Option<usize>,
    pub timeout_seconds: Option<u64>,
}

/// The web tools.
#[derive(Clone, Debug, PartialEq, Eq)]
pub struct WebConfig {
    pub search: WebSearchConfig,
    pub fetch: WebFetchConfig,
}

/// The configuration.
#[derive(Clone, Debug, PartialEq, Eq)]
pub struct Config {
    pub agent: AgentConfig,
    pub users: Vec<UserConfig>,
    pub groups: Vec<GroupConfig>,
    pub channels: ChannelsConfig,
    pub provider: ProviderConfig,
    pub providers: Vec<ProviderConfig>,
    pub aliases: Vec<AliasConfig>,
    pub prompt: PromptConfig,
    pub memory: MemoryConfig,
    pub cron: Vec<CronConfig>,
    pub sandbox: SandboxConfig,
    pub web: WebConfig,
}

/// Whether two optional lists of modalities are the same.
pub open spec fn eq_modalities(
    a: Option<Vec<ModelModality>>,
    b: Option<Vec<ModelModality>>,
) -> bool {
    match (a, b) {
        (Some(x), Some(y)) => x@ == y@,
        (None, None) => true,
        _ => false,
    }
}

fn same_modalities(a: &Option<Vec<ModelModality>>, b: &Option<Vec<ModelModality>>) -> (r: bool)
    ensures
        r == eq_modalities(*a, *b),
{
    match (a, b) {
        (Some(x), Some(y)) => {
            if x.len() != y.len() {
                return false;
            }
            for i in 0..x.len()
                invariant
                    *a == Some(*x),
                    *b == Some(*y),
                    x.len() == y.len(),
                    forall|j: int| 0 <= j < i ==> x@[j] == y@[j],
            {
                if x[i] != y[i] {
                    assert(x@[i as int] != y@[i as int]);
                    return false;
                }
            }
            assert(x@ =~= y@);
            true
        },
        (None, None) => true,
        _ => false,
    }
}

/// Whether two optional lists of texts are the same.
pub open spec fn eq_opt_texts(a: Option<Vec<String>>, b: Option<Vec<String>>) -> bool {
    match (a, b) {
        (Some(x), Some(y)) => views(x@) == views(y@),
        (None, None) => true,
        _ => false,
    }
}

fn same_opt_texts(a: &Option<Vec<String>>, b: &Option<Vec<String>>) -> (r: bool)
    ensures
        r == eq_opt_texts(*a, *b),
{
    match (a, b) {
        (Some(x), Some(y)) => same_texts(x, y),
        (None, None) => true,
        _ => false,
    }
}

/// Whether two values of [`SandboxOverrides`] say the same.
pub open spec fn eq_sandbox_overrides(a: SandboxOverrides, b: SandboxOverrides) -> bool {
    &&& a.allow_network == b.allow_network
    &&& opt_view(a.memory) == opt_view(b.memory)
    &&& a.pids_limit == b.pids_limit
}

/// Whether two values of [`SandboxOverrides`] say the same.
pub fn same_sandbox_overrides(a: &SandboxOverrides, b: &SandboxOverrides) -> (r: bool)
    ensures
        r == eq_sandbox_overrides(*a, *b),
{
    same_bool(a.allow_network, b.allow_network)
        && same_opt(&a.memory, &b.memory)
        && same_u32(a.pids_limit, b.pids_limit)
}

/// Whether two optional values of [`SandboxOverrides`] say the same.
pub open spec fn eq_opt_sandbox_overrides(a: Option<SandboxOverrides>, b: Option<SandboxOverrides>) -> bool {
    match (a, b) {
        (Some(x), Some(y)) => eq_sandbox_overrides(x, y),
        (None, None) => true,
        _ => false,
    }
}

/// Whether two optional values of [`SandboxOverrides`] say the same.
pub fn same_opt_sandbox_overrides(a: &Option<SandboxOverrides>, b: &Option<SandboxOverrides>) -> (r: bool)
    ensures
        r == eq_opt_sandbox_overrides(*a, *b),
{
    match (a, b) {
        (Some(x), Some(y)) => same_sandbox_overrides(x, y),
        (None, None) => true,
        _ => false,
    }
}

/// Whether two values of [`SandboxConfig`] say the same.
pub open spec fn eq_sandbox_config(a: SandboxConfig, b: SandboxConfig) -> bool {
    &&& a.enabled == b.enabled
    &&& a.allow_network == b.allow_network
    &&& a.memory@ == b.memory@
    &&& a.pids_limit == b.pids_limit
}

/// Whether two values of [`SandboxConfig`] say the same.
pub fn same_sandbox_config(a: &SandboxConfig, b: &SandboxConfig) -> (r: bool)
    ensures
        r == eq_sandbox_config(*a, *b),
{
    a.enabled == b.enabled
        && a.allow_network == b.allow_network
        && same_text(a.memory.as_str(), b.memory.as_str())
        && a.pids_limit == b.pids_limit
}

/// Whether two values of [`UserConfig`] say the same.
pub open spec fn eq_user_config(a: UserConfig, b: UserConfig) -> bool {
    &&& a.name@ == b.name@
    &&& a.trust == b.trust
    &&& views(a.match_patterns@) == views(b.match_patterns@)
    &&& opt_view(a.model) == opt_view(b.model)
    &&& opt_view(a.timezone) == opt_view(b.timezone)
    &&& eq_opt_sandbox_overrides(a.sandbox, b.sandbox)
}

/// Whether two values of [`UserConfig`] say the same.
pub fn same_user_config(a: &UserConfig, b: &UserConfig) -> (r: bool)
    ensures
        r == eq_user_config(*a, *b),
{
    same_text(a.name.as_str(), b.name.as_str())
        && a.trust == b.trust
        && same_texts(&a.match_patterns, &b.match_patterns)
        && same_opt(&a.model, &b.model)
        && same_opt(&a.timezone, &b.timezone)
        && same_opt_sandbox_overrides(&a.sandbox, &b.sandbox)
}

/// Whether two lists of [`UserConfig`] say the same.
pub open spec fn eq_user_config_list(a: Seq<UserConfig>, b: Seq<UserConfig>) -> bool {
    a.len() == b.len() && forall|i: int| 0 <= i < a.len() ==> eq_user_config(#[trigger] a[i], b[i])
}

/// Whether two lists of [`UserConfig`] say the same.
pub fn same_user_config_list(a: &Vec<UserConfig>, b: &Vec<UserConfig>) -> (r: bool)
    ensures
        r == eq_user_config_list(a@, b@),
{
    if a.len() != b.len() {
        return false;
    }
    for i in 0..a.len()
        invariant
            a.len() == b.len(),
            forall|j: int| 0 <= j < i ==> eq_user_config(#[trigger] a@[j], b@[j]),
    {
        if !same_user_config(&a[i], &b[i]) {
            return false;
        }
    }
    true
}

/// Whether two values of [`GroupConfig`] say the same.
pub open spec fn eq_group_config(a: GroupConfig, b: GroupConfig) -> bool {
    &&& views(a.match_patterns@) == views(b.match_patterns@)
    &&& a.trigger == b.trigger
    &&& views(a.mention_names@) == views(b.mention_names@)
    &&& opt_view(a.trigger_regex) == opt_view(b.trigger_regex)
    &&& opt_view(a.trigger_model) == opt_view(b.trigger_model)
    &&& opt_view(a.trigger_prompt) == opt_view(b.trigger_prompt)
    &&& a.default_trust == b.default_trust
    &&& a.trust_ceiling == b.trust_ceiling
    &&& a.history_limit == b.history_limit
}

/// Whether two values of [`GroupConfig`] say the same.
pub fn same_group_config(a: &GroupConfig, b: &GroupConfig) -> (r: bool)
    ensures
        r == eq_group_config(*a, *b),
{
    same_texts(&a.match_patterns, &b.match_patterns)
        && a.trigger == b.trigger
        && same_texts(&a.mention_names, &b.mention_names)
        && same_opt(&a.trigger_regex, &b.trigger_regex)
        && same_opt(&a.trigger_model, &b.trigger_model)
        && same_opt(&a.trigger_prompt, &b.trigger_prompt)
        && a.default_trust == b.default_trust
        && a.trust_ceiling == b.trust_ceiling
        && a.history_limit == b.history_limit
}

/// Whether two lists of [`GroupConfig`] say the same.
pub open spec fn eq_group_config_list(a: Seq<GroupConfig>, b: Seq<GroupConfig>) -> bool {
    a.len() == b.len() && forall|i: int| 0 <= i < a.len() ==> eq_group_config(#[trigger] a[i], b[i])
}

/// Whether two lists of [`GroupConfig`] say the same.
pub fn same_group_config_list(a: &Vec<GroupConfig>, b: &Vec<GroupConfig>) -> (r: bool)
    ensures
        r == eq_group_config_list(a@, b@),
{
    if a.len() != b.len() {
        return false;
    }
    for i in 0..a.len()
        invariant
            a.len() == b.len(),
            forall|j: int| 0 <= j < i ==> eq_group_config(#[trigger] a@[j], b@[j]),
    {
        if !same_group_config(&a[i], &b[i]) {
            return false;
        }
    }
    true
}

/// Whether two values of [`SignalChannelConfig`] say the same.
pub open spec fn eq_signal_channel_config(a: SignalChannelConfig, b: SignalChannelConfig) -> bool {
    &&& a.db_path@ == b.db_path@
    &&& a.verbose == b.verbose
}

/// Whether two values of [`SignalChannelConfig`] say the same.
pub fn same_signal_channel_config(a: &SignalChannelConfig, b: &SignalChannelConfig) -> (r: bool)
    ensures
        r == eq_signal_channel_config(*a, *b),
{
    same_text(a.db_path.as_str(), b.db_path.as_str())
        && a.verbose == b.verbose
}

/// Whether two optional values of [`SignalChannelConfig`] say the same.
pub open spec fn eq_opt_signal_channel_config(a: Option<SignalChannelConfig>, b: Option<SignalChannelConfig>) -> bool {
    match (a, b) {
        (Some(x), Some(y)) => eq_signal_channel_config(x, y),
        (None, None) => true,
        _ => false,
    }
}

/// Whether two optional values of [`SignalChannelConfig`] say the same.
pub fn same_opt_signal_channel_config(a: &Option<SignalChannelConfig>, b: &Option<SignalChannelConfig>) -> (r: bool)
    ensures
        r == eq_opt_signal_channel_config(*a, *b),
{
    match (a, b) {
        (Some(x), Some(y)) => same_signal_channel_config(x, y),
        (None, None) => true,
        _ => false,
    }
}

/// Whether two values of [`ChannelsConfig`] say the same.
pub open spec fn eq_channels_config(a: ChannelsConfig, b: ChannelsConfig) -> bool {
    &&& eq_opt_signal_channel_config(a.signal, b.signal)
}

/// Whether two values of [`ChannelsConfig`] say the same.
pub fn same_channels_config(a: &ChannelsConfig, b: &ChannelsConfig) -> (r: bool)
    ensures
        r == eq_channels_config(*a, *b),
{
    same_opt_signal_channel_config(&a.signal, &b.signal)
}

/// Whether two values of [`ReasoningConfig`] say the same.
pub open spec fn eq_reasoning_config(a: ReasoningConfig, b: ReasoningConfig) -> bool {
    &&& opt_view(a.effort) == opt_view(b.effort)
    &&& opt_view(a.summary) == opt_view(b.summary)
}

/// Whether two values of [`ReasoningConfig`] say the same.
pub fn same_reasoning_config(a: &ReasoningConfig, b: &ReasoningConfig) -> (r: bool)
    ensures
        r == eq_reasoning_config(*a, *b),
{
    same_opt(&a.effort, &b.effort)
        && same_opt(&a.summary, &b.summary)
}

/// Whether two optional values of [`ReasoningConfig`] say the same.
pub open spec fn eq_opt_reasoning_config(a: Option<ReasoningConfig>, b: Option<ReasoningConfig>) -> bool {
    match (a, b) {
        (Some(x), Some(y)) => eq_reasoning_config(x, y),
        (None, None) => true,
        _ => false,
    }
}

/// Whether two optional values of [`ReasoningConfig`] say the same.
pub fn same_opt_reasoning_config(a: &Option<ReasoningConfig>, b: &Option<ReasoningConfig>) -> (r: bool)
    ensures
        r == eq_opt_reasoning_config(*a, *b),
{
    match (a, b) {
        (Some(x), Some(y)) => same_reasoning_config(x, y),
        (None, None) => true,
        _ => false,
    }
}

/// Whether two values of [`ModelCapabilityConfig`] say the same.
pub open spec fn eq_model_capability_config(a: ModelCapabilityConfig, b: ModelCapabilityConfig) -> bool {
    &&& a.model@ == b.model@
    &&& eq_modalities(a.input_modalities, b.input_modalities)
    &&& eq_modalities(a.output_modalities, b.output_modalities)
    &&& a.hidden == b.hidden
    &&& a.subagent_only == b.subagent_only
}

/// Whether two values of [`ModelCapabilityConfig`] say the same.
pub fn same_model_capability_config(a: &ModelCapabilityConfig, b: &ModelCapabilityConfig) -> (r: bool)
    ensures
        r == eq_model_capability_config(*a, *b),
{
    same_text(a.model.as_str(), b.model.as_str())
        && same_modalities(&a.input_modalities, &b.input_modalities)
        && same_modalities(&a.output_modalities, &b.output_modalities)
        && a.hidden == b.hidden
        && a.subagent_only == b.subagent_only
}

/// Whether two lists of [`ModelCapabilityConfig`] say the same.
pub open spec fn eq_model_capability_config_list(a: Seq<ModelCapabilityConfig>, b: Seq<ModelCapabilityConfig>) -> bool {
    a.len() == b.len() && forall|i: int| 0 <= i < a.len() ==> eq_model_capability_config(#[trigger] a[i], b[i])
}

/// Whether two lists of [`ModelCapabilityConfig`] say the same.
pub fn same_model_capability_config_list(a: &Vec<ModelCapabilityConfig>, b: &Vec<ModelCapabilityConfig>) -> (r: bool)
    ensures
        r == eq_model_capability_config_list(a@, b@),
{
    if a.len() != b.len() {
        return false;
    }
    for i in 0..a.len()
        invariant
            a.len() == b.len(),
            forall|j: int| 0 <= j < i ==> eq_model_capability_config(#[trigger] a@[j], b@[j]),
    {
        if !same_model_capability_config(&a[i], &b[i]) {
            return false;
        }
    }
    true
}

/// Whether two values of [`ContextLimitConfig`] say the same.
pub open spec fn eq_context_limit_config(a: ContextLimitConfig, b: ContextLimitConfig) -> bool {
    &&& a.model@ == b.model@
    &&& a.limit == b.limit
}

/// Whether two values of [`ContextLimitConfig`] say the same.
pub fn same_context_limit_config(a: &ContextLimitConfig, b: &ContextLimitConfig) -> (r: bool)
    ensures
        r == eq_context_limit_config(*a, *b),
{
    same_text(a.model.as_str(), b.model.as_str())
        && a.limit == b.limit
}

/// Whether two lists of [`ContextLimitConfig`] say the same.
pub open spec fn eq_context_limit_config_list(a: Seq<ContextLimitConfig>, b: Seq<ContextLimitConfig>) -> bool {
    a.len() == b.len() && forall|i: int| 0 <= i < a.len() ==> eq_context_limit_config(#[trigger] a[i], b[i])
}

/// Whether two lists of [`ContextLimitConfig`] say the same.
pub fn same_context_limit_config_list(a: &Vec<ContextLimitConfig>, b: &Vec<ContextLimitConfig>) -> (r: bool)
    ensures
        r == eq_context_limit_config_list(a@, b@),
{
    if a.len() != b.len() {
        return false;
    }
    for i in 0..a.len()
        invariant
            a.len() == b.len(),
            forall|j: int| 0 <= j < i ==> eq_context_limit_config(#[trigger] a@[j], b@[j]),
    {
        if !same_context_limit_config(&a[i], &b[i]) {
            return false;
        }
    }
    true
}

/// Whether two values of [`HeaderConfig`] say the same.
pub open spec fn eq_header_config(a: HeaderConfig, b: HeaderConfig) -> bool {
    &&& a.name@ == b.name@
    &&& a.value@ == b.value@
}

/// Whether two values of [`HeaderConfig`] say the same.
pub fn same_header_config(a: &HeaderConfig, b: &HeaderConfig) -> (r: bool)
    ensures
        r == eq_header_config(*a, *b),
{
    same_text(a.name.as_str(), b.name.as_str())
        && same_text(a.value.as_str(), b.value.as_str())
}

/// Whether two lists of [`HeaderConfig`] say the same.
pub open spec fn eq_header_config_list(a: Seq<HeaderConfig>, b: Seq<HeaderConfig>) -> bool {
    a.len() == b.len() && forall|i: int| 0 <= i < a.len() ==> eq_header_config(#[trigger] a[i], b[i])
}

/// Whether two lists of [`HeaderConfig`] say the same.
pub fn same_header_config_list(a: &Vec<HeaderConfig>, b: &Vec<HeaderConfig>) -> (r: bool)
    ensures
        r == eq_header_config_list(a@, b@),
{
    if a.len() != b.len() {
        return false;
    }
    for i in 0..a.len()
        invariant
            a.len() == b.len(),
            forall|j: int| 0 <= j < i ==> eq_header_config(#[trigger] a@[j], b@[j]),
    {
        if !same_header_config(&a[i], &b[i]) {
            return false;
        }
    }
    true
}

/// Whether two values of [`ProviderConfig`] say the same.
pub open spec fn eq_provider_config(a: ProviderConfig, b: ProviderConfig) -> bool {
    &&& a.name@ == b.name@
    &&& views(a.api_keys@) == views(b.api_keys@)
    &&& opt_view(a.base_url) == opt_view(b.base_url)
    &&& opt_view(a.api_key_env) == opt_view(b.api_key_env)
    &&& views(a.models@) == views(b.models@)
    &&& eq_context_limit_config_list(a.model_context_limits@, b.model_context_limits@)
    &&& eq_model_capability_config_list(a.model_capabilities@, b.model_capabilities@)
    &&& eq_header_config_list(a.extra_headers@, b.extra_headers@)
    &&& a.stream_policy == b.stream_policy
    &&& eq_opt_reasoning_config(a.reasoning, b.reasoning)
}

/// Whether two values of [`ProviderConfig`] say the same.
pub fn same_provider_config(a: &ProviderConfig, b: &ProviderConfig) -> (r: bool)
    ensures
        r == eq_provider_config(*a, *b),
{
    same_text(a.name.as_str(), b.name.as_str())
        && same_texts(&a.api_keys, &b.api_keys)
        && same_opt(&a.base_url, &b.base_url)
        && same_opt(&a.api_key_env, &b.api_key_env)
        && same_texts(&a.models, &b.models)
        && same_context_limit_config_list(&a.model_context_limits, &b.model_context_limits)
        && same_model_capability_config_list(&a.model_capabilities, &b.model_capabilities)
        && same_header_config_list(&a.extra_headers, &b.extra_headers)
        && a.stream_policy == b.stream_policy
        && same_opt_reasoning_config(&a.reasoning, &b.reasoning)
}

/// Whether two lists of [`ProviderConfig`] say the same.
pub open spec fn eq_provider_config_list(a: Seq<ProviderConfig>, b: Seq<ProviderConfig>) -> bool {
    a.len() == b.len() && forall|i: int| 0 <= i < a.len() ==> eq_provider_config(#[trigger] a[i], b[i])
}

/// Whether two lists of [`ProviderConfig`] say the same.
pub fn same_provider_config_list(a: &Vec<ProviderConfig>, b: &Vec<ProviderConfig>) -> (r: bool)
    ensures
        r == eq_provider_config_list(a@, b@),
{
    if a.len() != b.len() {
        return false;
    }
    for i in 0..a.len()
        invariant
            a.len() == b.len(),
            forall|j: int| 0 <= j < i ==> eq_provider_config(#[trigger] a@[j], b@[j]),
    {
        if !same_provider_config(&a[i], &b[i]) {
            return false;
        }
    }
    true
}

/// Whether two values of [`AliasConfig`] say the same.
pub open spec fn eq_alias_config(a: AliasConfig, b: AliasConfig) -> bool {
    &&& a.alias@ == b.alias@
    &&& a.target@ == b.target@
}

/// Whether two values of [`AliasConfig`] say the same.
pub fn same_alias_config(a: &AliasConfig, b: &AliasConfig) -> (r: bool)
    ensures
        r == eq_alias_config(*a, *b),
{
    same_text(a.alias.as_str(), b.alias.as_str())
        && same_text(a.target.as_str(), b.target.as_str())
}

/// Whether two lists of [`AliasConfig`] say the same.
pub open spec fn eq_alias_config_list(a: Seq<AliasConfig>, b: Seq<AliasConfig>) -> bool {
    a.len() == b.len() && forall|i: int| 0 <= i < a.len() ==> eq_alias_config(#[trigger] a[i], b[i])
}

/// Whether two lists of [`AliasConfig`] say the same.
pub fn same_alias_config_list(a: &Vec<AliasConfig>, b: &Vec<AliasConfig>) -> (r: bool)
    ensures
        r == eq_alias_config_list(a@, b@),
{
    if a.len() != b.len() {
        return false;
    }
    for i in 0..a.len()
        invariant
            a.len() == b.len(),
            forall|j: int| 0 <= j < i ==> eq_alias_config(#[trigger] a@[j], b@[j]),
    {
        if !same_alias_config(&a[i], &b[i]) {
            return false;
        }
    }
    true
}

/// Whether two values of [`PromptFileEntry`] say the same.
pub open spec fn eq_prompt_file_entry(a: PromptFileEntry, b: PromptFileEntry) -> bool {
    &&& a.path@ == b.path@
    &&& a.trust == b.trust
    &&& a.cache == b.cache
    &&& opt_view(a.description) == opt_view(b.description)
}

/// Whether two values of [`PromptFileEntry`] say the same.
pub fn same_prompt_file_entry(a: &PromptFileEntry, b: &PromptFileEntry) -> (r: bool)
    ensures
        r == eq_prompt_file_entry(*a, *b),
{
    same_text(a.path.as_str(), b.path.as_str())
        && a.trust == b.trust
        && a.cache == b.cache
        && same_opt(&a.description, &b.description)
}

/// Whether two lists of [`PromptFileEntry`] say the same.
pub open spec fn eq_prompt_file_entry_list(a: Seq<PromptFileEntry>, b: Seq<PromptFileEntry>) -> bool {
    a.len() == b.len() && forall|i: int| 0 <= i < a.len() ==> eq_prompt_file_entry(#[trigger] a[i], b[i])
}

/// Whether two lists of [`PromptFileEntry`] say the same.
pub fn same_prompt_file_entry_list(a: &Vec<PromptFileEntry>, b: &Vec<PromptFileEntry>) -> (r: bool)
    ensures
        r == eq_prompt_file_entry_list(a@, b@),
{
    if a.len() != b.len() {
        return false;
    }
    for i in 0..a.len()
        invariant
            a.len() == b.len(),
            forall|j: int| 0 <= j < i ==> eq_prompt_file_entry(#[trigger] a@[j], b@[j]),
    {
        if !same_prompt_file_entry(&a[i], &b[i]) {
            return false;
        }
    }
    true
}

/// Whether two values of [`PromptConfig`] say the same.
pub open spec fn eq_prompt_config(a: PromptConfig, b: PromptConfig) -> bool {
    &&& eq_prompt_file_entry_list(a.shared_files@, b.shared_files@)
    &&& eq_prompt_file_entry_list(a.user_files@, b.user_files@)
}

/// Whether two values of [`PromptConfig`] say the same.
pub fn same_prompt_config(a: &PromptConfig, b: &PromptConfig) -> (r: bool)
    ensures
        r == eq_prompt_config(*a, *b),
{
    same_prompt_file_entry_list(&a.shared_files, &b.shared_files)
        && same_prompt_file_entry_list(&a.user_files, &b.user_files)
}

/// Whether two values of [`MemoryPromptIndexConfig`] say the same.
pub open spec fn eq_memory_prompt_index_config(a: MemoryPromptIndexConfig, b: MemoryPromptIndexConfig) -> bool {
    &&& a.enabled == b.enabled
    &&& a.limit == b.limit
    &&& a.max_tokens == b.max_tokens
    &&& a.recent_days == b.recent_days
    &&& a.include_file_links == b.include_file_links
}

/// Whether two values of [`MemoryPromptIndexConfig`] say the same.
pub fn same_memory_prompt_index_config(a: &MemoryPromptIndexConfig, b: &MemoryPromptIndexConfig) -> (r: bool)
    ensures
        r == eq_memory_prompt_index_config(*a, *b),
{
    a.enabled == b.enabled
        && a.limit == b.limit
        && a.max_tokens == b.max_tokens
        && a.recent_days == b.recent_days
        && a.include_file_links == b.include_file_links
}

/// Whether two values of [`MemoryRetentionConfig`] say the same.
pub open spec fn eq_memory_retention_config(a: MemoryRetentionConfig, b: MemoryRetentionConfig) -> bool {
    &&& a.enabled == b.enabled
    &&& a.archive_after_days == b.archive_after_days
    &&& a.delete_archive_after_days == b.delete_archive_after_days
    &&& a.compress_after_days == b.compress_after_days
    &&& a.compression_min_cluster_size == b.compression_min_cluster_size
    &&& a.max_rows_per_run == b.max_rows_per_run
}

/// Whether two values of [`MemoryRetentionConfig`] say the same.
pub fn same_memory_retention_config(a: &MemoryRetentionConfig, b: &MemoryRetentionConfig) -> (r: bool)
    ensures
        r == eq_memory_retention_config(*a, *b),
{
    a.enabled == b.enabled
        && a.archive_after_days == b.archive_after_days
        && a.delete_archive_after_days == b.delete_archive_after_days
        && a.compress_after_days == b.compress_after_days
        && a.compression_min_cluster_size == b.compression_min_cluster_size
        && a.max_rows_per_run == b.max_rows_per_run
}

/// Whether two values of [`MemoryAutoCaptureConfig`] say the same.
pub open spec fn eq_memory_auto_capture_config(a: MemoryAutoCaptureConfig, b: MemoryAutoCaptureConfig) -> bool {
    &&& a.enabled == b.enabled
    &&& a.min_turn_messages == b.min_turn_messages
}

/// Whether two values of [`MemoryAutoCaptureConfig`] say the same.
pub fn same_memory_auto_capture_config(a: &MemoryAutoCaptureConfig, b: &MemoryAutoCaptureConfig) -> (r: bool)
    ensures
        r == eq_memory_auto_capture_config(*a, *b),
{
    a.enabled == b.enabled
        && a.min_turn_messages == b.min_turn_messages
}

/// Whether two values of [`MemoryEmbeddingConfig`] say the same.
pub open spec fn eq_memory_embedding_config(a: MemoryEmbeddingConfig, b: MemoryEmbeddingConfig) -> bool {
    &&& a.provider@ == b.provider@
    &&& a.model@ == b.model@
    &&& a.dimensions == b.dimensions
    &&& opt_view(a.base_url) == opt_view(b.base_url)
    &&& opt_view(a.api_key_env) == opt_view(b.api_key_env)
}

/// Whether two values of [`MemoryEmbeddingConfig`] say the same.
pub fn same_memory_embedding_config(a: &MemoryEmbeddingConfig, b: &MemoryEmbeddingConfig) -> (r: bool)
    ensures
        r == eq_memory_embedding_config(*a, *b),
{
    same_text(a.provider.as_str(), b.provider.as_str())
        && same_text(a.model.as_str(), b.model.as_str())
        && a.dimensions == b.dimensions
        && same_opt(&a.base_url, &b.base_url)
        && same_opt(&a.api_key_env, &b.api_key_env)
}

/// Whether two optional values of [`MemoryEmbeddingConfig`] say the same.
pub open spec fn eq_opt_memory_embedding_config(a: Option<MemoryEmbeddingConfig>, b: Option<MemoryEmbeddingConfig>) -> bool {
    match (a, b) {
        (Some(x), Some(y)) => eq_memory_embedding_config(x, y),
        (None, None) => true,
        _ => false,
    }
}

/// Whether two optional values of [`MemoryEmbeddingConfig`] say the same.
pub fn same_opt_memory_embedding_config(a: &Option<MemoryEmbeddingConfig>, b: &Option<MemoryEmbeddingConfig>) -> (r: bool)
    ensures
        r == eq_opt_memory_embedding_config(*a, *b),
{
    match (a, b) {
        (Some(x), Some(y)) => same_memory_embedding_config(x, y),
        (None, None) => true,
        _ => false,
    }
}

/// Whether two values of [`MemoryConfig`] say the same.
pub open spec fn eq_memory_config(a: MemoryConfig, b: MemoryConfig) -> bool {
    &&& a.db_path@ == b.db_path@
    &&& eq_opt_memory_embedding_config(a.embedding, b.embedding)
    &&& eq_memory_prompt_index_config(a.prompt_index, b.prompt_index)
    &&& eq_memory_retention_config(a.retention, b.retention)
    &&& eq_memory_auto_capture_config(a.auto_capture, b.auto_capture)
}

/// Whether two values of [`MemoryConfig`] say the same.
pub fn same_memory_config(a: &MemoryConfig, b: &MemoryConfig) -> (r: bool)
    ensures
        r == eq_memory_config(*a, *b),
{
    same_text(a.db_path.as_str(), b.db_path.as_str())
        && same_opt_memory_embedding_config(&a.embedding, &b.embedding)
        && same_memory_prompt_index_config(&a.prompt_index, &b.prompt_index)
        && same_memory_retention_config(&a.retention, &b.retention)
        && same_memory_auto_capture_config(&a.auto_capture, &b.auto_capture)
}

/// Whether two values of [`CronDelivery`] say the same.
pub open spec fn eq_cron_delivery(a: CronDelivery, b: CronDelivery) -> bool {
    &&& a.channel@ == b.channel@
    &&& a.target@ == b.target@
}

/// Whether two values of [`CronDelivery`] say the same.
pub fn same_cron_delivery(a: &CronDelivery, b: &CronDelivery) -> (r: bool)
    ensures
        r == eq_cron_delivery(*a, *b),
{
    same_text(a.channel.as_str(), b.channel.as_str())
        && same_text(a.target.as_str(), b.target.as_str())
}

/// Whether two optional values of [`CronDelivery`] say the same.
pub open spec fn eq_opt_cron_delivery(a: Option<CronDelivery>, b: Option<CronDelivery>) -> bool {
    match (a, b) {
        (Some(x), Some(y)) => eq_cron_delivery(x, y),
        (None, None) => true,
        _ => false,
    }
}

/// Whether two optional values of [`CronDelivery`] say the same.
pub fn same_opt_cron_delivery(a: &Option<CronDelivery>, b: &Option<CronDelivery>) -> (r: bool)
    ensures
        r == eq_opt_cron_delivery(*a, *b),
{
    match (a, b) {
        (Some(x), Some(y)) => same_cron_delivery(x, y),
        (None, None) => true,
        _ => false,
    }
}

/// Whether two values of [`CronConfig`] say the same.
pub open spec fn eq_cron_config(a: CronConfig, b: CronConfig) -> bool {
    &&& a.name@ == b.name@
    &&& a.cron@ == b.cron@
    &&& a.message@ == b.message@
    &&& opt_view(a.user) == opt_view(b.user)
    &&& opt_view(a.timezone) == opt_view(b.timezone)
    &&& eq_opt_cron_delivery(a.deliver, b.deliver)
    &&& a.delivery == b.delivery
    &&& opt_view(a.review_prompt) == opt_view(b.review_prompt)
    &&& eq_opt_sandbox_overrides(a.sandbox, b.sandbox)
}

/// Whether two values of [`CronConfig`] say the same.
pub fn same_cron_config(a: &CronConfig, b: &CronConfig) -> (r: bool)
    ensures
        r == eq_cron_config(*a, *b),
{
    same_text(a.name.as_str(), b.name.as_str())
        && same_text(a.cron.as_str(), b.cron.as_str())
        && same_text(a.message.as_str(), b.message.as_str())
        && same_opt(&a.user, &b.user)
        && same_opt(&a.timezone, &b.timezone)
        && same_opt_cron_delivery(&a.deliver, &b.deliver)
        && same_delivery(a.delivery, b.delivery)
        && same_opt(&a.review_prompt, &b.review_prompt)
        && same_opt_sandbox_overrides(&a.sandbox, &b.sandbox)
}

/// Whether two lists of [`CronConfig`] say the same.
pub open spec fn eq_cron_config_list(a: Seq<CronConfig>, b: Seq<CronConfig>) -> bool {
    a.len() == b.len() && forall|i: int| 0 <= i < a.len() ==> eq_cron_config(#[trigger] a[i], b[i])
}

/// Whether two lists of [`CronConfig`] say the same.
pub fn same_cron_config_list(a: &Vec<CronConfig>, b: &Vec<CronConfig>) -> (r: bool)
    ensures
        r == eq_cron_config_list(a@, b@),
{
    if a.len() != b.len() {
        return false;
    }
    for i in 0..a.len()
        invariant
            a.len() == b.len(),
            forall|j: int| 0 <= j < i ==> eq_cron_config(#[trigger] a@[j], b@[j]),
    {
        if !same_cron_config(&a[i], &b[i]) {
            return false;
        }
    }
    true
}

/// Whether two values of [`SubagentProfile`] say the same.
pub open spec fn eq_subagent_profile(a: SubagentProfile, b: SubagentProfile) -> bool {
    &&& a.name@ == b.name@
    &&& opt_view(a.model) == opt_view(b.model)
    &&& eq_opt_texts(a.tools, b.tools)
    &&& a.default_timeout_seconds == b.default_timeout_seconds
    &&& a.default_max_turns == b.default_max_turns
    &&& a.allow_spawn == b.allow_spawn
}

/// Whether two values of [`SubagentProfile`] say the same.
pub fn same_subagent_profile(a: &SubagentProfile, b: &SubagentProfile) -> (r: bool)
    ensures
        r == eq_subagent_profile(*a, *b),
{
    same_text(a.name.as_str(), b.name.as_str())
        && same_opt(&a.model, &b.model)
        && same_opt_texts(&a.tools, &b.tools)
        && same_u64(a.default_timeout_seconds, b.default_timeout_seconds)
        && same_u32(a.default_max_turns, b.default_max_turns)
        && a.allow_spawn == b.allow_spawn
}

/// Whether two lists of [`SubagentProfile`] say the same.
pub open spec fn eq_subagent_profile_list(a: Seq<SubagentProfile>, b: Seq<SubagentProfile>) -> bool {
    a.len() == b.len() && forall|i: int| 0 <= i < a.len() ==> eq_subagent_profile(#[trigger] a[i], b[i])
}

/// Whether two lists of [`SubagentProfile`] say the same.
pub fn same_subagent_profile_list(a: &Vec<SubagentProfile>, b: &Vec<SubagentProfile>) -> (r: bool)
    ensures
        r == eq_subagent_profile_list(a@, b@),
{
    if a.len() != b.len() {
        return false;
    }
    for i in 0..a.len()
        invariant
            a.len() == b.len(),
            forall|j: int| 0 <= j < i ==> eq_subagent_profile(#[trigger] a@[j], b@[j]),
    {
        if !same_subagent_profile(&a[i], &b[i]) {
            return false;
        }
    }
    true
}

/// Whether two values of [`SubagentsConfig`] say the same.
pub open spec fn eq_subagents_config(a: SubagentsConfig, b: SubagentsConfig) -> bool {
    &&& a.enabled == b.enabled
    &&& a.max_spawn_depth == b.max_spawn_depth
    &&& a.max_active_children == b.max_active_children
    &&& a.max_concurrent == b.max_concurrent
    &&& a.default_timeout_seconds == b.default_timeout_seconds
    &&& a.default_max_turns == b.default_max_turns
    &&& opt_view(a.model) == opt_view(b.model)
    &&& eq_subagent_profile_list(a.profiles@, b.profiles@)
}

/// Whether two values of [`SubagentsConfig`] say the same.
pub fn same_subagents_config(a: &SubagentsConfig, b: &SubagentsConfig) -> (r: bool)
    ensures
        r == eq_subagents_config(*a, *b),
{
    a.enabled == b.enabled
        && a.max_spawn_depth == b.max_spawn_depth
        && a.max_active_children == b.max_active_children
        && a.max_concurrent == b.max_concurrent
        && a.default_timeout_seconds == b.default_timeout_seconds
        && a.default_max_turns == b.default_max_turns
        && same_opt(&a.model, &b.model)
        && same_subagent_profile_list(&a.profiles, &b.profiles)
}

/// Whether two values of [`AgentConfig`] say the same.
pub open spec fn eq_agent_config(a: AgentConfig, b: AgentConfig) -> bool {
    &&& a.id@ == b.id@
    &&& a.model@ == b.model@
    &&& a.workspace@ == b.workspace@
    &&& a.context_limit == b.context_limit
    &&& eq_subagents_config(a.subagents, b.subagents)
}

/// Whether two values of [`AgentConfig`] say the same.
pub fn same_agent_config(a: &AgentConfig, b: &AgentConfig) -> (r: bool)
    ensures
        r == eq_agent_config(*a, *b),
{
    same_text(a.id.as_str(), b.id.as_str())
        && same_text(a.model.as_str(), b.model.as_str())
        && same_text(a.workspace.as_str(), b.workspace.as_str())
        && same_usize(a.context_limit, b.context_limit)
        && same_subagents_config(&a.subagents, &b.subagents)
}

/// Whether two values of [`WebSearchConfig`] say the same.
pub open spec fn eq_web_search_config(a: WebSearchConfig, b: WebSearchConfig) -> bool {
    &&& opt_view(a.provider) == opt_view(b.provider)
    &&& a.timeout_seconds == b.timeout_seconds
    &&& a.max_results == b.max_results
}

/// Whether two values of [`WebSearchConfig`] say the same.
pub fn same_web_search_config(a: &WebSearchConfig, b: &WebSearchConfig) -> (r: bool)
    ensures
        r == eq_web_search_config(*a, *b),
{
    same_opt(&a.provider, &b.provider)
        && same_u64(a.timeout_seconds, b.timeout_seconds)
        && same_u32(a.max_results, b.max_results)
}

/// Whether two values of [`WebFetchConfig`] say the same.
pub open spec fn eq_web_fetch_config(a: WebFetchConfig, b: WebFetchConfig) -> bool {
    &&& a.max_chars == b.max_chars
    &&& a.timeout_seconds == b.timeout_seconds
}

/// Whether two values of [`WebFetchConfig`] say the same.
pub fn same_web_fetch_config(a: &WebFetchConfig, b: &WebFetchConfig) -> (r: bool)
    ensures
        r == eq_web_fetch_config(*a, *b),
{
    same_usize(a.max_chars, b.max_chars)
        && same_u64(a.timeout_seconds, b.timeout_seconds)
}

/// Whether two values of [`WebConfig`] say the same.
pub open spec fn eq_web_config(a: WebConfig, b: WebConfig) -> bool {
    &&& eq_web_search_config(a.search, b.search)
    &&& eq_web_fetch_config(a.fetch, b.fetch)
}

/// Whether two values of [`WebConfig`] say the same.
pub fn same_web_config(a: &WebConfig, b: &WebConfig) -> (r: bool)
    ensures
        r == eq_web_config(*a, *b),
{
    same_web_search_config(&a.search, &b.search)
        && same_web_fetch_config(&a.fetch, &b.fetch)
}

/// Whether two values of [`Config`] say the same.
pub open spec fn eq_config(a: Config, b: Config) -> bool {
    &&& eq_agent_config(a.agent, b.agent)
    &&& eq_user_config_list(a.users@, b.users@)
    &&& eq_group_config_list(a.groups@, b.groups@)
    &&& eq_channels_config(a.channels, b.channels)
    &&& eq_provider_config(a.provider, b.provider)
    &&& eq_provider_config_list(a.providers@, b.providers@)
    &&& eq_alias_config_list(a.aliases@, b.aliases@)
    &&& eq_prompt_config(a.prompt, b.prompt)
    &&& eq_memory_config(a.memory, b.memory)
    &&& eq_cron_config_list(a.cron@, b.cron@)
    &&& eq_sandbox_config(a.sandbox, b.sandbox)
    &&& eq_web_config(a.web, b.web)
}

/// Whether two values of [`Config`] say the same.
pub fn same_config(a: &Config, b: &Config) -> (r: bool)
    ensures
        r == eq_config(*a, *b),
{
    same_agent_config(&a.agent, &b.agent)
        && same_user_config_list(&a.users, &b.users)
        && same_group_config_list(&a.groups, &b.groups)
        && same_channels_config(&a.channels, &b.channels)
        && same_provider_config(&a.provider, &b.provider)
        && same_provider_config_list(&a.providers, &b.providers)
        && same_alias_config_list(&a.aliases, &b.aliases)
        && same_prompt_config(&a.prompt, &b.prompt)
        && same_memory_config(&a.memory, &b.memory)
        && same_cron_config_list(&a.cron, &b.cron)
        && same_sandbox_config(&a.sandbox, &b.sandbox)
        && same_web_config(&a.web, &b.web)
}

fn same_bool(a: Option<bool>, b: Option<bool>) -> (r: bool)
    ensures
        r == (a == b),
{
    match (a, b) {
        (Some(x), Some(y)) => x == y,
        (None, None) => true,
        _ => false,
    }
}

fn same_u32(a: Option<u32>, b: Option<u32>) -> (r: bool)
    ensures
        r == (a == b),
{
    match (a, b) {
        (Some(x), Some(y)) => x == y,
        (None, None) => true,
        _ => false,
    }
}

fn same_u64(a: Option<u64>, b: Option<u64>) -> (r: bool)
    ensures
        r == (a == b),
{
    match (a, b) {
        (Some(x), Some(y)) => x == y,
        (None, None) => true,
        _ => false,
    }
}

fn same_usize(a: Option<usize>, b: Option<usize>) -> (r: bool)
    ensures
        r == (a == b),
{
    match (a, b) {
        (Some(x), Some(y)) => x == y,
        (None, None) => true,
        _ => false,
    }
}

fn same_delivery(a: Option<CronDeliveryMode>, b: Option<CronDeliveryMode>) -> (r: bool)
    ensures
        r == (a == b),
{
    match (a, b) {
        (Some(x), Some(y)) => x == y,
        (None, None) => true,
        _ => false,
    }
}

/// The directory an agent works in unless configured.
pub fn default_workspace() -> (r: String)
    ensures
        r@ == "./workspaces/default"@,
{
    "./workspaces/default".to_owned()
}

/// The trust a prompt file needs unless configured.
pub fn default_file_trust() -> (r: TrustLevel)
    ensures
        r == TrustLevel::Full,
{
    TrustLevel::Full
}

/// How long a prompt file stays the same unless configured.
pub fn default_file_cache() -> (r: CacheHintConfig)
    ensures
        r == CacheHintConfig::Session,
{
    CacheHintConfig::Session
}

/// Whether an entry has the given contents.
pub open spec fn is_entry(
    e: PromptFileEntry,
    path: Seq<char>,
    trust: TrustLevel,
    cache: CacheHintConfig,
    description: Seq<char>,
) -> bool {
    e.path@ == path && e.trust == trust && e.cache == cache && opt_view(e.description) == Some(
        description,
    )
}

fn entry(path: &str, trust: TrustLevel, cache: CacheHintConfig, description: &str) -> (r:
    PromptFileEntry)
    ensures
        is_entry(r, path@, trust, cache, description@),
{
    PromptFileEntry {
        path: path.to_owned(),
        trust,
        cache,
        description: Some(description.to_owned()),
    }
}

/// Whether these are the usual shared prompt files.
pub open spec fn usual_shared_files(f: Seq<PromptFileEntry>) -> bool {
    &&& f.len() == 3
    &&& is_entry(f[0], "SOUL.md"@, TrustLevel::Familiar, CacheHintConfig::Stable, "Agent personality and voice"@)
    &&& is_entry(f[1], "IDENTITY.md"@, TrustLevel::Familiar, CacheHintConfig::Session, "Agent identity"@)
    &&& is_entry(f[2], "TOOLS.md"@, TrustLevel::Full, CacheHintConfig::Session, "Tool setup notes"@)
}

/// Whether these are the usual per-user prompt files.
pub open spec fn usual_user_files(f: Seq<PromptFileEntry>) -> bool {
    &&& f.len() == 3
    &&& is_entry(f[0], "AGENTS.md"@, TrustLevel::Full, CacheHintConfig::Stable, "Behavioral instructions"@)
    &&& is_entry(f[1], "USER.md"@, TrustLevel::Inner, CacheHintConfig::Session, "Per-user info"@)
    &&& is_entry(f[2], "TOOLS.md"@, TrustLevel::Full, CacheHintConfig::Session, "Per-user tool notes"@)
}

/// The prompt files shared by all users unless configured.
pub fn default_shared_files() -> (r: Vec<PromptFileEntry>)
    ensures
        usual_shared_files(r@),
{
    let mut out: Vec<PromptFileEntry> = Vec::new();
    out.push(entry("SOUL.md", TrustLevel::Familiar, CacheHintConfig::Stable, "Agent personality and voice"));
    out.push(entry("IDENTITY.md", TrustLevel::Familiar, CacheHintConfig::Session, "Agent identity"));
    out.push(entry("TOOLS.md", TrustLevel::Full, CacheHintConfig::Session, "Tool setup notes"));
    out
}

/// The prompt files of each user unless configured.
pub fn default_user_files() -> (r: Vec<PromptFileEntry>)
    ensures
        usual_user_files(r@),
{
    let mut out: Vec<PromptFileEntry> = Vec::new();
    out.push(entry("AGENTS.md", TrustLevel::Full, CacheHintConfig::Stable, "Behavioral instructions"));
    out.push(entry("USER.md", TrustLevel::Inner, CacheHintConfig::Session, "Per-user info"));
    out.push(entry("TOOLS.md", TrustLevel::Full, CacheHintConfig::Session, "Per-user tool notes"));
    out
}

impl Default for PromptConfig {
    fn default() -> (r: PromptConfig)
        ensures
            usual_shared_files(r.shared_files@),
            usual_user_files(r.user_files@),
    {
        PromptConfig { shared_files: default_shared_files(), user_files: default_user_files() }
    }
}

/// How long a prompt block stays the same.
#[derive(Clone, Copy, Debug, PartialEq, Eq, Structural)]
pub enum CacheHint {
    Stable,
    Session,
    Volatile,
}

/// A prompt file as the prompt builder takes it.
#[derive(Clone, Debug, PartialEq, Eq)]
pub struct PromptFileConfig {
    pub path: String,
    pub min_trust: TrustLevel,
    pub cache: CacheHint,
    pub description: String,
}

impl CacheHintConfig {
    /// The hint that the setting stands for.
    pub open spec fn hint(self) -> CacheHint {
        match self {
            CacheHintConfig::Stable => CacheHint::Stable,
            CacheHintConfig::Session => CacheHint::Session,
            CacheHintConfig::Volatile => CacheHint::Volatile,
        }
    }

    /// The hint that the setting stands for.
    pub fn to_core(&self) -> (r: CacheHint)
        ensures
            r == self.hint(),
    {
        match self {
            CacheHintConfig::Stable => CacheHint::Stable,
            CacheHintConfig::Session => CacheHint::Session,
            CacheHintConfig::Volatile => CacheHint::Volatile,
        }
    }
}

/// Whether a prompt file is taken as an entry says: without a description, the
/// path without its `.md` describes it.
pub open spec fn core_of(e: PromptFileEntry, c: PromptFileConfig) -> bool {
    &&& c.path@ == e.path@
    &&& c.min_trust == e.trust
    &&& c.cache == e.cache.hint()
    &&& c.description@ == (match e.description {
        Some(d) => d@,
        None => match before_suffix(e.path@, ".md"@) {
            Some(stem) => stem,
            None => e.path@,
        },
    })
}

impl PromptFileEntry {
    /// The entry as the prompt builder takes it.
    pub fn to_core(&self) -> (r: PromptFileConfig)
        ensures
            core_of(*self, r),
    {
        let description = match &self.description {
            Some(d) => d.clone(),
            None => match strip_suffix_text(self.path.as_str(), ".md") {
                Some(stem) => stem,
                None => self.path.clone(),
            },
        };
        PromptFileConfig {
            path: self.path.clone(),
            min_trust: self.trust,
            cache: self.cache.to_core(),
            description,
        }
    }
}

fn core_configs(files: &Vec<PromptFileEntry>) -> (r: Vec<PromptFileConfig>)
    ensures
        r@.len() == files@.len(),
        forall|i: int| 0 <= i < r@.len() ==> core_of(files@[i], #[trigger] r@[i]),
{
    let mut out: Vec<PromptFileConfig> = Vec::new();
    for i in 0..files.len()
        invariant
            out@.len() == i,
            forall|j: int| 0 <= j < i ==> core_of(files@[j], #[trigger] out@[j]),
    {
        out.push(files[i].to_core());
    }
    out
}

impl PromptConfig {
    /// The shared files as the prompt builder takes them.
    pub fn shared_core_configs(&self) -> (r: Vec<PromptFileConfig>)
        ensures
            r@.len() == self.shared_files@.len(),
            forall|i: int| 0 <= i < r@.len() ==> core_of(self.shared_files@[i], #[trigger] r@[i]),
    {
        core_configs(&self.shared_files)
    }

    /// The per-user files as the prompt builder takes them.
    pub fn user_core_configs(&self) -> (r: Vec<PromptFileConfig>)
        ensures
            r@.len() == self.user_files@.len(),
            forall|i: int| 0 <= i < r@.len() ==> core_of(self.user_files@[i], #[trigger] r@[i]),
    {
        core_configs(&self.user_files)
    }
}

/// The provider unless configured.
pub fn default_provider() -> (r: String)
    ensures
        r@ == "anthropic"@,
{
    "anthropic".to_owned()
}

/// The memory database unless configured.
pub fn default_memory_db_path() -> (r: String)
    ensures
        r@ == "./db/memory.db"@,
{
    "./db/memory.db".to_owned()
}

/// Whether the prompt has a memory index unless configured.
pub fn default_prompt_index_enabled() -> (r: bool)
    ensures
        r == true,
{
    true
}

/// The entries of the memory index unless configured.
pub fn default_prompt_index_limit() -> (r: usize)
    ensures
        r == 12,
{
    12
}

/// The size of the memory index unless configured.
pub fn default_prompt_index_max_tokens() -> (r: usize)
    ensures
        r == 1_200,
{
    1_200
}

/// Whether memories age unless configured.
pub fn default_memory_retention_enabled() -> (r: bool)
    ensures
        r == true,
{
    true
}

/// The age at which memories are archived unless configured.
pub fn default_memory_archive_after_days() -> (r: i64)
    ensures
        r == 30,
{
    30
}

/// The age at which archived memories are deleted unless configured.
pub fn default_memory_delete_archive_after_days() -> (r: i64)
    ensures
        r == 365,
{
    365
}

/// The age at which memories are compressed unless configured.
pub fn default_memory_compress_after_days() -> (r: i64)
    ensures
        r == 14,
{
    14
}

/// The smallest cluster that is compressed unless configured.
pub fn default_memory_compression_min_cluster_size() -> (r: usize)
    ensures
        r == 3,
{
    3
}

/// The rows of one maintenance run unless configured.
pub fn default_memory_max_rows_per_run() -> (r: usize)
    ensures
        r == 200,
{
    200
}

impl Default for MemoryPromptIndexConfig {
    fn default() -> (r: MemoryPromptIndexConfig)
        ensures
            r == (MemoryPromptIndexConfig {
                enabled: true,
                limit: 12,
                max_tokens: 1_200,
                recent_days: 3,
                include_file_links: true,
            }),
    {
        MemoryPromptIndexConfig {
            enabled: default_prompt_index_enabled(),
            limit: default_prompt_index_limit(),
            max_tokens: default_prompt_index_max_tokens(),
            recent_days: 3,
            include_file_links: true,
        }
    }
}

impl Default for MemoryRetentionConfig {
    fn default() -> (r: MemoryRetentionConfig)
        ensures
            r == (MemoryRetentionConfig {
                enabled: true,
                archive_after_days: 30,
                delete_archive_after_days: 365,
                compress_after_days: 14,
                compression_min_cluster_size: 3,
                max_rows_per_run: 200,
            }),
    {
        MemoryRetentionConfig {
            enabled: default_memory_retention_enabled(),
            archive_after_days: default_memory_archive_after_days(),
            delete_archive_after_days: default_memory_delete_archive_after_days(),
            compress_after_days: default_memory_compress_after_days(),
            compression_min_cluster_size: default_memory_compression_min_cluster_size(),
            max_rows_per_run: default_memory_max_rows_per_run(),
        }
    }
}

/// The settings of one memory maintenance run.
#[derive(Clone, Copy, Debug, PartialEq, Eq, Structural)]
pub struct MemoryMaintenanceConfig {
    pub archive_after_days: i64,
    pub delete_archive_after_days: i64,
    pub compress_after_days: i64,
    pub compression_min_cluster_size: usize,
    pub max_rows_per_run: usize,
}

impl MemoryRetentionConfig {
    /// The settings of a maintenance run.
    pub fn to_maintenance_config(&self) -> (r: MemoryMaintenanceConfig)
        ensures
            r == (MemoryMaintenanceConfig {
                archive_after_days: self.archive_after_days,
                delete_archive_after_days: self.delete_archive_after_days,
                compress_after_days: self.compress_after_days,
                compression_min_cluster_size: self.compression_min_cluster_size,
                max_rows_per_run: self.max_rows_per_run,
            }),
    {
        MemoryMaintenanceConfig {
            archive_after_days: self.archive_after_days,
            delete_archive_after_days: self.delete_archive_after_days,
            compress_after_days: self.compress_after_days,
            compression_min_cluster_size: self.compression_min_cluster_size,
            max_rows_per_run: self.max_rows_per_run,
        }
    }
}

/// The embedding providers that are supported.
pub open spec fn embedding_provider(name: Seq<char>) -> bool {
    name == "openai"@ || name == "voyage"@ || name == "cohere"@ || name == "openai-compatible"@
}

impl MemoryEmbeddingConfig {
    /// The provider's name, trimmed and in small letters.
    pub open spec fn provider_key(self) -> Seq<char> {
        lower_ascii(trimmed(self.provider@))
    }

    /// The environment variable that holds the provider's key.
    pub open spec fn key_env(self) -> Option<Seq<char>> {
        let p = self.provider_key();
        if p == "openai"@ {
            Some("OPENAI_API_KEY"@)
        } else if p == "voyage"@ {
            Some("VOYAGE_API_KEY"@)
        } else if p == "cohere"@ {
            Some("COHERE_API_KEY"@)
        } else if p == "openai-compatible"@ {
            match self.api_key_env {
                Some(v) => if trimmed(v@).len() > 0 {
                    Some(trimmed(v@))
                } else {
                    None
                },
                None => None,
            }
        } else {
            None
        }
    }

    /// The provider's name, trimmed and in small letters.
    pub fn normalized_provider(&self) -> (r: String)
        ensures
            r@ == self.provider_key(),
    {
        let t = trim_text(self.provider.as_str());
        to_lower_ascii(t.as_str())
    }

    /// Whether the provider is supported.
    pub fn is_supported_provider(&self) -> (r: bool)
        ensures
            r == embedding_provider(self.provider_key()),
    {
        let p = self.normalized_provider();
        same_text(p.as_str(), "openai") || same_text(p.as_str(), "voyage") || same_text(
            p.as_str(),
            "cohere",
        ) || same_text(p.as_str(), "openai-compatible")
    }

    /// The environment variable that holds the provider's key.
    pub fn required_api_key_env(&self) -> (r: Option<String>)
        ensures
            opt_view(r) == self.key_env(),
    {
        let p = self.normalized_provider();
        if same_text(p.as_str(), "openai") {
            Some("OPENAI_API_KEY".to_owned())
        } else if same_text(p.as_str(), "voyage") {
            Some("VOYAGE_API_KEY".to_owned())
        } else if same_text(p.as_str(), "cohere") {
            Some("COHERE_API_KEY".to_owned())
        } else if same_text(p.as_str(), "openai-compatible") {
            match &self.api_key_env {
                Some(v) => {
                    let t = trim_text(v.as_str());
                    if t.as_str().is_empty() {
                        None
                    } else {
                        Some(t)
                    }
                },
                None => None,
            }
        } else {
            None
        }
    }
}

impl StreamPolicy {
    /// The policy's name.
    pub open spec fn name(self) -> Seq<char> {
        match self {
            StreamPolicy::Prefer => "prefer"@,
            StreamPolicy::Require => "require"@,
            StreamPolicy::Disable => "disable"@,
        }
    }

    /// The policy's name.
    pub fn text(self) -> (r: &'static str)
        ensures
            r@ == self.name(),
    {
        match self {
            StreamPolicy::Prefer => "prefer",
            StreamPolicy::Require => "require",
            StreamPolicy::Disable => "disable",
        }
    }
}

impl CronConfig {
    /// How replies are delivered: as set, or where nothing is set only when
    /// needed for a job whose message names the heartbeat file.
    pub open spec fn mode(self) -> CronDeliveryMode {
        match self.delivery {
            Some(m) => m,
            None => if has_text(self.message@, "HEARTBEAT.md"@) {
                CronDeliveryMode::AsNeeded
            } else {
                CronDeliveryMode::Always
            },
        }
    }

    /// How replies are delivered.
    pub fn effective_delivery_mode(&self) -> (r: CronDeliveryMode)
        ensures
            r == self.mode(),
    {
        match self.delivery {
            Some(m) => m,
            None => if contains_text(self.message.as_str(), "HEARTBEAT.md") {
                CronDeliveryMode::AsNeeded
            } else {
                CronDeliveryMode::Always
            },
        }
    }

    /// Whether the way of delivery is left to the message.
    pub fn uses_legacy_delivery_mode(&self) -> (r: bool)
        ensures
            r == (self.delivery is None),
    {
        self.delivery.is_none()
    }
}

/// A path, and whether there is something at it.
#[derive(Clone, Debug, PartialEq, Eq)]
pub struct CandidatePath {
    pub path: String,
    pub exists: bool,
}

/// The configuration file in the current directory.
pub const LOCAL_CONFIG: &'static str = "coop.toml";

/// The path of a candidate, where there is something at it.
pub open spec fn found_at(c: Option<CandidatePath>) -> Option<Seq<char>> {
    match c {
        Some(p) => if p.exists {
            Some(p.path@)
        } else {
            None
        },
        None => None,
    }
}

/// The configuration file: the one that is named, else the first that is there
/// of the one in the current directory, the one in the configuration directory
/// and the one in the home directory, else the one in the current directory.
pub open spec fn config_path(
    explicit: Option<Seq<char>>,
    local_exists: bool,
    xdg: Option<CandidatePath>,
    home: Option<CandidatePath>,
) -> Seq<char> {
    match explicit {
        Some(p) => p,
        None => if local_exists {
            LOCAL_CONFIG@
        } else {
            match (found_at(xdg), found_at(home)) {
                (Some(p), _) => p,
                (None, Some(p)) => p,
                (None, None) => LOCAL_CONFIG@,
            }
        },
    }
}

/// Finds the configuration file.
pub fn find_config_path(
    explicit: Option<&str>,
    local_exists: bool,
    xdg: Option<CandidatePath>,
    home: Option<CandidatePath>,
) -> (r: String)
    ensures
        r@ == config_path(opt_str_view(explicit), local_exists, xdg, home),
{
    if let Some(p) = explicit {
        return p.to_owned();
    }
    if local_exists {
        return LOCAL_CONFIG.to_owned();
    }
    if let Some(c) = xdg {
        if c.exists {
            return c.path;
        }
    }
    if let Some(c) = home {
        if c.exists {
            return c.path;
        }
    }
    LOCAL_CONFIG.to_owned()
}

/// The workspace at a path, where there is a directory.
pub fn resolve_workspace(path: String, is_dir: bool) -> (r: Result<String, String>)
    ensures
        match r {
            Ok(p) => is_dir && p@ == path@,
            Err(e) => !is_dir && e@ == "workspace directory not found: "@ + path@,
        },
{
    if is_dir {
        Ok(path)
    } else {
        Err(cat2("workspace directory not found: ", path.as_str()))
    }
}

} // verus!
