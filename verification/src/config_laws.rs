//! When two configurations say the same: where every field of theirs does.
use vstd::prelude::*;

use crate::config::{
    eq_agent_config, eq_alias_config, eq_channels_config, eq_config, eq_context_limit_config,
    eq_cron_config, eq_cron_delivery, eq_group_config, eq_header_config,
    eq_memory_auto_capture_config, eq_memory_config, eq_memory_embedding_config,
    eq_memory_prompt_index_config, eq_memory_retention_config, eq_model_capability_config,
    eq_prompt_config, eq_prompt_file_entry, eq_provider_config, eq_reasoning_config,
    eq_sandbox_config, eq_sandbox_overrides, eq_signal_channel_config, eq_subagent_profile,
    eq_subagents_config, eq_user_config, eq_web_config, eq_web_fetch_config, eq_web_search_config,
    AgentConfig, AliasConfig, ChannelsConfig, Config, ContextLimitConfig, CronConfig, CronDelivery,
    GroupConfig, HeaderConfig, MemoryAutoCaptureConfig, MemoryConfig, MemoryEmbeddingConfig,
    MemoryPromptIndexConfig, MemoryRetentionConfig, ModelCapabilityConfig, PromptConfig,
    PromptFileEntry, ProviderConfig, ReasoningConfig, SandboxConfig, SandboxOverrides,
    SignalChannelConfig, SubagentProfile, SubagentsConfig, UserConfig, WebConfig, WebFetchConfig,
    WebSearchConfig,
};
use crate::text::views;

verus! {

proof fn texts_agree(a: Seq<String>, b: Seq<String>)
    ensures
        views(a) == views(b) <==> a.len() == b.len() && (forall|i: int|
            0 <= i < a.len() ==> (#[trigger] a[i])@ == b[i]@),
{
    let x = views(a);
    let y = views(b);
    if x == y {
        assert(x.len() == y.len());
        assert forall|i: int| 0 <= i < a.len() implies (#[trigger] a[i])@ == b[i]@ by {
            assert(x[i] == y[i]);
        }
    }
    if a.len() == b.len() && (forall|i: int| 0 <= i < a.len() ==> (#[trigger] a[i])@ == b[i]@) {
        assert(x =~= y);
    }
}

/// Two values of [`SandboxOverrides`] say the same exactly where they agree in every field.
pub proof fn sandbox_overrides_agrees(a: SandboxOverrides, b: SandboxOverrides)
    ensures
        eq_sandbox_overrides(a, b) <==> {
            &&& a.allow_network == b.allow_network
            &&& (a.memory is Some) == (b.memory is Some)
            &&& a.memory is Some && b.memory is Some ==> a.memory->0@ == b.memory->0@
            &&& a.pids_limit == b.pids_limit
        },
{
}

/// Two values of [`SandboxConfig`] say the same exactly where they agree in every field.
pub proof fn sandbox_config_agrees(a: SandboxConfig, b: SandboxConfig)
    ensures
        eq_sandbox_config(a, b) <==> {
            &&& a.enabled == b.enabled
            &&& a.allow_network == b.allow_network
            &&& a.memory@ == b.memory@
            &&& a.pids_limit == b.pids_limit
        },
{
}

/// Two values of [`UserConfig`] say the same exactly where they agree in every field.
pub proof fn user_config_agrees(a: UserConfig, b: UserConfig)
    ensures
        eq_user_config(a, b) <==> {
            &&& a.name@ == b.name@
            &&& a.trust == b.trust
            &&& a.match_patterns@.len() == b.match_patterns@.len()
            &&& forall|i: int|
                0 <= i < a.match_patterns@.len()
                    ==> (#[trigger] a.match_patterns@[i])@ == b.match_patterns@[i]@
            &&& (a.model is Some) == (b.model is Some)
            &&& a.model is Some && b.model is Some ==> a.model->0@ == b.model->0@
            &&& (a.timezone is Some) == (b.timezone is Some)
            &&& a.timezone is Some && b.timezone is Some ==> a.timezone->0@ == b.timezone->0@
            &&& (a.sandbox is Some) == (b.sandbox is Some)
            &&& a.sandbox is Some && b.sandbox is Some
                ==> eq_sandbox_overrides(a.sandbox->0, b.sandbox->0)
        },
{
    texts_agree(a.match_patterns@, b.match_patterns@);
}

/// Two values of [`GroupConfig`] say the same exactly where they agree in every field.
pub proof fn group_config_agrees(a: GroupConfig, b: GroupConfig)
    ensures
        eq_group_config(a, b) <==> {
            &&& a.match_patterns@.len() == b.match_patterns@.len()
            &&& forall|i: int|
                0 <= i < a.match_patterns@.len()
                    ==> (#[trigger] a.match_patterns@[i])@ == b.match_patterns@[i]@
            &&& a.trigger == b.trigger
            &&& a.mention_names@.len() == b.mention_names@.len()
            &&& forall|i: int|
                0 <= i < a.mention_names@.len()
                    ==> (#[trigger] a.mention_names@[i])@ == b.mention_names@[i]@
            &&& (a.trigger_regex is Some) == (b.trigger_regex is Some)
            &&& a.trigger_regex is Some && b.trigger_regex is Some
                ==> a.trigger_regex->0@ == b.trigger_regex->0@
            &&& (a.trigger_model is Some) == (b.trigger_model is Some)
            &&& a.trigger_model is Some && b.trigger_model is Some
                ==> a.trigger_model->0@ == b.trigger_model->0@
            &&& (a.trigger_prompt is Some) == (b.trigger_prompt is Some)
            &&& a.trigger_prompt is Some && b.trigger_prompt is Some
                ==> a.trigger_prompt->0@ == b.trigger_prompt->0@
            &&& a.default_trust == b.default_trust
            &&& a.trust_ceiling == b.trust_ceiling
            &&& a.history_limit == b.history_limit
        },
{
    texts_agree(a.match_patterns@, b.match_patterns@);
    texts_agree(a.mention_names@, b.mention_names@);
}

/// Two values of [`SignalChannelConfig`] say the same exactly where they agree in every field.
pub proof fn signal_channel_config_agrees(a: SignalChannelConfig, b: SignalChannelConfig)
    ensures
        eq_signal_channel_config(a, b) <==> {
            &&& a.db_path@ == b.db_path@
            &&& a.verbose == b.verbose
        },
{
}

/// Two values of [`ChannelsConfig`] say the same exactly where they agree in every field.
pub proof fn channels_config_agrees(a: ChannelsConfig, b: ChannelsConfig)
    ensures
        eq_channels_config(a, b) <==> {
            &&& (a.signal is Some) == (b.signal is Some)
            &&& a.signal is Some && b.signal is Some
                ==> eq_signal_channel_config(a.signal->0, b.signal->0)
        },
{
}

/// Two values of [`ReasoningConfig`] say the same exactly where they agree in every field.
pub proof fn reasoning_config_agrees(a: ReasoningConfig, b: ReasoningConfig)
    ensures
        eq_reasoning_config(a, b) <==> {
            &&& (a.effort is Some) == (b.effort is Some)
            &&& a.effort is Some && b.effort is Some ==> a.effort->0@ == b.effort->0@
            &&& (a.summary is Some) == (b.summary is Some)
            &&& a.summary is Some && b.summary is Some ==> a.summary->0@ == b.summary->0@
        },
{
}

/// Two values of [`ModelCapabilityConfig`] say the same exactly where they agree in every field.
pub proof fn model_capability_config_agrees(a: ModelCapabilityConfig, b: ModelCapabilityConfig)
    ensures
        eq_model_capability_config(a, b) <==> {
            &&& a.model@ == b.model@
            &&& (a.input_modalities is Some) == (b.input_modalities is Some)
            &&& a.input_modalities is Some && b.input_modalities is Some
                ==> a.input_modalities->0@ == b.input_modalities->0@
            &&& (a.output_modalities is Some) == (b.output_modalities is Some)
            &&& a.output_modalities is Some && b.output_modalities is Some
                ==> a.output_modalities->0@ == b.output_modalities->0@
            &&& a.hidden == b.hidden
            &&& a.subagent_only == b.subagent_only
        },
{
}

/// Two values of [`ContextLimitConfig`] say the same exactly where they agree in every field.
pub proof fn context_limit_config_agrees(a: ContextLimitConfig, b: ContextLimitConfig)
    ensures
        eq_context_limit_config(a, b) <==> {
            &&& a.model@ == b.model@
            &&& a.limit == b.limit
        },
{
}

/// Two values of [`HeaderConfig`] say the same exactly where they agree in every field.
pub proof fn header_config_agrees(a: HeaderConfig, b: HeaderConfig)
    ensures
        eq_header_config(a, b) <==> {
            &&& a.name@ == b.name@
            &&& a.value@ == b.value@
        },
{
}

/// Two values of [`ProviderConfig`] say the same exactly where they agree in every field.
pub proof fn provider_config_agrees(a: ProviderConfig, b: ProviderConfig)
    ensures
        eq_provider_config(a, b) <==> {
            &&& a.name@ == b.name@
            &&& a.api_keys@.len() == b.api_keys@.len()
            &&& forall|i: int|
                0 <= i < a.api_keys@.len() ==> (#[trigger] a.api_keys@[i])@ == b.api_keys@[i]@
            &&& (a.base_url is Some) == (b.base_url is Some)
            &&& a.base_url is Some && b.base_url is Some ==> a.base_url->0@ == b.base_url->0@
            &&& (a.api_key_env is Some) == (b.api_key_env is Some)
            &&& a.api_key_env is Some && b.api_key_env is Some
                ==> a.api_key_env->0@ == b.api_key_env->0@
            &&& a.models@.len() == b.models@.len()
            &&& forall|i: int|
                0 <= i < a.models@.len() ==> (#[trigger] a.models@[i])@ == b.models@[i]@
            &&& a.model_context_limits@.len() == b.model_context_limits@.len()
            &&& forall|i: int|
                0 <= i < a.model_context_limits@.len()
                    ==> eq_context_limit_config(#[trigger] a.model_context_limits@[i], b.model_context_limits@[i])
            &&& a.model_capabilities@.len() == b.model_capabilities@.len()
            &&& forall|i: int|
                0 <= i < a.model_capabilities@.len()
                    ==> eq_model_capability_config(#[trigger] a.model_capabilities@[i], b.model_capabilities@[i])
            &&& a.extra_headers@.len() == b.extra_headers@.len()
            &&& forall|i: int|
                0 <= i < a.extra_headers@.len()
                    ==> eq_header_config(#[trigger] a.extra_headers@[i], b.extra_headers@[i])
            &&& a.stream_policy == b.stream_policy
            &&& (a.reasoning is Some) == (b.reasoning is Some)
            &&& a.reasoning is Some && b.reasoning is Some
                ==> eq_reasoning_config(a.reasoning->0, b.reasoning->0)
        },
{
    texts_agree(a.api_keys@, b.api_keys@);
    texts_agree(a.models@, b.models@);
}

/// Two values of [`AliasConfig`] say the same exactly where they agree in every field.
pub proof fn alias_config_agrees(a: AliasConfig, b: AliasConfig)
    ensures
        eq_alias_config(a, b) <==> {
            &&& a.alias@ == b.alias@
            &&& a.target@ == b.target@
        },
{
}

/// Two values of [`PromptFileEntry`] say the same exactly where they agree in every field.
pub proof fn prompt_file_entry_agrees(a: PromptFileEntry, b: PromptFileEntry)
    ensures
        eq_prompt_file_entry(a, b) <==> {
            &&& a.path@ == b.path@
            &&& a.trust == b.trust
            &&& a.cache == b.cache
            &&& (a.description is Some) == (b.description is Some)
            &&& a.description is Some && b.description is Some
                ==> a.description->0@ == b.description->0@
        },
{
}

/// Two values of [`PromptConfig`] say the same exactly where they agree in every field.
pub proof fn prompt_config_agrees(a: PromptConfig, b: PromptConfig)
    ensures
        eq_prompt_config(a, b) <==> {
            &&& a.shared_files@.len() == b.shared_files@.len()
            &&& forall|i: int|
                0 <= i < a.shared_files@.len()
                    ==> eq_prompt_file_entry(#[trigger] a.shared_files@[i], b.shared_files@[i])
            &&& a.user_files@.len() == b.user_files@.len()
            &&& forall|i: int|
                0 <= i < a.user_files@.len()
                    ==> eq_prompt_file_entry(#[trigger] a.user_files@[i], b.user_files@[i])
        },
{
}

/// Two values of [`MemoryPromptIndexConfig`] say the same exactly where they agree in every field.
pub proof fn memory_prompt_index_config_agrees(
    a: MemoryPromptIndexConfig,
    b: MemoryPromptIndexConfig,
)
    ensures
        eq_memory_prompt_index_config(a, b) <==> {
            &&& a.enabled == b.enabled
            &&& a.limit == b.limit
            &&& a.max_tokens == b.max_tokens
            &&& a.recent_days == b.recent_days
            &&& a.include_file_links == b.include_file_links
        },
{
}

/// Two values of [`MemoryRetentionConfig`] say the same exactly where they agree in every field.
pub proof fn memory_retention_config_agrees(a: MemoryRetentionConfig, b: MemoryRetentionConfig)
    ensures
        eq_memory_retention_config(a, b) <==> {
            &&& a.enabled == b.enabled
            &&& a.archive_after_days == b.archive_after_days
            &&& a.delete_archive_after_days == b.delete_archive_after_days
            &&& a.compress_after_days == b.compress_after_days
            &&& a.compression_min_cluster_size == b.compression_min_cluster_size
            &&& a.max_rows_per_run == b.max_rows_per_run
        },
{
}

/// Two values of [`MemoryAutoCaptureConfig`] say the same exactly where they agree in every field.
pub proof fn memory_auto_capture_config_agrees(
    a: MemoryAutoCaptureConfig,
    b: MemoryAutoCaptureConfig,
)
    ensures
        eq_memory_auto_capture_config(a, b) <==> {
            &&& a.enabled == b.enabled
            &&& a.min_turn_messages == b.min_turn_messages
        },
{
}

/// Two values of [`MemoryEmbeddingConfig`] say the same exactly where they agree in every field.
pub proof fn memory_embedding_config_agrees(a: MemoryEmbeddingConfig, b: MemoryEmbeddingConfig)
    ensures
        eq_memory_embedding_config(a, b) <==> {
            &&& a.provider@ == b.provider@
            &&& a.model@ == b.model@
            &&& a.dimensions == b.dimensions
            &&& (a.base_url is Some) == (b.base_url is Some)
            &&& a.base_url is Some && b.base_url is Some ==> a.base_url->0@ == b.base_url->0@
            &&& (a.api_key_env is Some) == (b.api_key_env is Some)
            &&& a.api_key_env is Some && b.api_key_env is Some
                ==> a.api_key_env->0@ == b.api_key_env->0@
        },
{
}

/// Two values of [`MemoryConfig`] say the same exactly where they agree in every field.
pub proof fn memory_config_agrees(a: MemoryConfig, b: MemoryConfig)
    ensures
        eq_memory_config(a, b) <==> {
            &&& a.db_path@ == b.db_path@
            &&& (a.embedding is Some) == (b.embedding is Some)
            &&& a.embedding is Some && b.embedding is Some
                ==> eq_memory_embedding_config(a.embedding->0, b.embedding->0)
            &&& eq_memory_prompt_index_config(a.prompt_index, b.prompt_index)
            &&& eq_memory_retention_config(a.retention, b.retention)
            &&& eq_memory_auto_capture_config(a.auto_capture, b.auto_capture)
        },
{
}

/// Two values of [`CronDelivery`] say the same exactly where they agree in every field.
pub proof fn cron_delivery_agrees(a: CronDelivery, b: CronDelivery)
    ensures
        eq_cron_delivery(a, b) <==> {
            &&& a.channel@ == b.channel@
            &&& a.target@ == b.target@
        },
{
}

/// Two values of [`CronConfig`] say the same exactly where they agree in every field.
pub proof fn cron_config_agrees(a: CronConfig, b: CronConfig)
    ensures
        eq_cron_config(a, b) <==> {
            &&& a.name@ == b.name@
            &&& a.cron@ == b.cron@
            &&& a.message@ == b.message@
            &&& (a.user is Some) == (b.user is Some)
            &&& a.user is Some && b.user is Some ==> a.user->0@ == b.user->0@
            &&& (a.timezone is Some) == (b.timezone is Some)
            &&& a.timezone is Some && b.timezone is Some ==> a.timezone->0@ == b.timezone->0@
            &&& (a.deliver is Some) == (b.deliver is Some)
            &&& a.deliver is Some && b.deliver is Some
                ==> eq_cron_delivery(a.deliver->0, b.deliver->0)
            &&& a.delivery == b.delivery
            &&& (a.review_prompt is Some) == (b.review_prompt is Some)
            &&& a.review_prompt is Some && b.review_prompt is Some
                ==> a.review_prompt->0@ == b.review_prompt->0@
            &&& (a.sandbox is Some) == (b.sandbox is Some)
            &&& a.sandbox is Some && b.sandbox is Some
                ==> eq_sandbox_overrides(a.sandbox->0, b.sandbox->0)
        },
{
}

/// Two values of [`SubagentProfile`] say the same exactly where they agree in every field.
pub proof fn subagent_profile_agrees(a: SubagentProfile, b: SubagentProfile)
    ensures
        eq_subagent_profile(a, b) <==> {
            &&& a.name@ == b.name@
            &&& (a.model is Some) == (b.model is Some)
            &&& a.model is Some && b.model is Some ==> a.model->0@ == b.model->0@
            &&& (a.tools is Some) == (b.tools is Some)
            &&& a.tools is Some && b.tools is Some
                ==> a.tools->0@.len() == b.tools->0@.len() && forall|i: int|
                0 <= i < a.tools->0@.len() ==> (#[trigger] a.tools->0@[i])@ == b.tools->0@[i]@
            &&& a.default_timeout_seconds == b.default_timeout_seconds
            &&& a.default_max_turns == b.default_max_turns
            &&& a.allow_spawn == b.allow_spawn
        },
{
    if a.tools is Some && b.tools is Some {
        texts_agree(a.tools->0@, b.tools->0@);
    }
}

/// Two values of [`SubagentsConfig`] say the same exactly where they agree in every field.
pub proof fn subagents_config_agrees(a: SubagentsConfig, b: SubagentsConfig)
    ensures
        eq_subagents_config(a, b) <==> {
            &&& a.enabled == b.enabled
            &&& a.max_spawn_depth == b.max_spawn_depth
            &&& a.max_active_children == b.max_active_children
            &&& a.max_concurrent == b.max_concurrent
            &&& a.default_timeout_seconds == b.default_timeout_seconds
            &&& a.default_max_turns == b.default_max_turns
            &&& (a.model is Some) == (b.model is Some)
            &&& a.model is Some && b.model is Some ==> a.model->0@ == b.model->0@
            &&& a.profiles@.len() == b.profiles@.len()
            &&& forall|i: int|
                0 <= i < a.profiles@.len()
                    ==> eq_subagent_profile(#[trigger] a.profiles@[i], b.profiles@[i])
        },
{
}

/// Two values of [`AgentConfig`] say the same exactly where they agree in every field.
pub proof fn agent_config_agrees(a: AgentConfig, b: AgentConfig)
    ensures
        eq_agent_config(a, b) <==> {
            &&& a.id@ == b.id@
            &&& a.model@ == b.model@
            &&& a.workspace@ == b.workspace@
            &&& a.context_limit == b.context_limit
            &&& eq_subagents_config(a.subagents, b.subagents)
        },
{
}

/// Two values of [`WebSearchConfig`] say the same exactly where they agree in every field.
pub proof fn web_search_config_agrees(a: WebSearchConfig, b: WebSearchConfig)
    ensures
        eq_web_search_config(a, b) <==> {
            &&& (a.provider is Some) == (b.provider is Some)
            &&& a.provider is Some && b.provider is Some ==> a.provider->0@ == b.provider->0@
            &&& a.timeout_seconds == b.timeout_seconds
            &&& a.max_results == b.max_results
        },
{
}

/// Two values of [`WebFetchConfig`] say the same exactly where they agree in every field.
pub proof fn web_fetch_config_agrees(a: WebFetchConfig, b: WebFetchConfig)
    ensures
        eq_web_fetch_config(a, b) <==> {
            &&& a.max_chars == b.max_chars
            &&& a.timeout_seconds == b.timeout_seconds
        },
{
}

/// Two values of [`WebConfig`] say the same exactly where they agree in every field.
pub proof fn web_config_agrees(a: WebConfig, b: WebConfig)
    ensures
        eq_web_config(a, b) <==> {
            &&& eq_web_search_config(a.search, b.search)
            &&& eq_web_fetch_config(a.fetch, b.fetch)
        },
{
}

/// Two values of [`Config`] say the same exactly where they agree in every field.
pub proof fn config_agrees(a: Config, b: Config)
    ensures
        eq_config(a, b) <==> {
            &&& eq_agent_config(a.agent, b.agent)
            &&& a.users@.len() == b.users@.len()
            &&& forall|i: int|
                0 <= i < a.users@.len() ==> eq_user_config(#[trigger] a.users@[i], b.users@[i])
            &&& a.groups@.len() == b.groups@.len()
            &&& forall|i: int|
                0 <= i < a.groups@.len() ==> eq_group_config(#[trigger] a.groups@[i], b.groups@[i])
            &&& eq_channels_config(a.channels, b.channels)
            &&& eq_provider_config(a.provider, b.provider)
            &&& a.providers@.len() == b.providers@.len()
            &&& forall|i: int|
                0 <= i < a.providers@.len()
                    ==> eq_provider_config(#[trigger] a.providers@[i], b.providers@[i])
            &&& a.aliases@.len() == b.aliases@.len()
            &&& forall|i: int|
                0 <= i < a.aliases@.len()
                    ==> eq_alias_config(#[trigger] a.aliases@[i], b.aliases@[i])
            &&& eq_prompt_config(a.prompt, b.prompt)
            &&& eq_memory_config(a.memory, b.memory)
            &&& a.cron@.len() == b.cron@.len()
            &&& forall|i: int|
                0 <= i < a.cron@.len() ==> eq_cron_config(#[trigger] a.cron@[i], b.cron@[i])
            &&& eq_sandbox_config(a.sandbox, b.sandbox)
            &&& eq_web_config(a.web, b.web)
        },
{
}

} // verus!
