//! Which model, which provider and which tools a turn gets.
use vstd::prelude::*;

use crate::config::{Config, StreamPolicy, UserConfig};
use crate::session::{KindView, SessionKind};
use crate::text::{cat3, holds_text, opt_str_view, opt_view, same_text, views};

verus! {

/// The model that the first user of a name among the users from `i` on has
/// configured.
pub open spec fn model_of(users: Seq<UserConfig>, name: Seq<char>, i: int) -> Option<Seq<char>>
    decreases users.len() - i,
{
    if i < 0 || i >= users.len() {
        None
    } else if users[i].name@ == name {
        opt_view(users[i].model)
    } else {
        model_of(users, name, i + 1)
    }
}

/// The model that a user has configured.
pub fn configured_user_model(config: &Config, user_name: Option<&str>) -> (r: Option<String>)
    ensures
        opt_view(r) == (match user_name {
            Some(n) => model_of(config.users@, n@, 0),
            None => None,
        }),
{
    let name = match user_name {
        Some(n) => n,
        None => {
            return None;
        },
    };
    for i in 0..config.users.len()
        invariant
            user_name matches Some(n) && n@ == name@,
            model_of(config.users@, name@, 0) == model_of(config.users@, name@, i as int),
    {
        if same_text(config.users[i].name.as_str(), name) {
            return crate::text::copy_opt(&config.users[i].model);
        }
    }
    None
}

/// The model of a user before any choice of their own: their configured model
/// where it is available, else the default model, by its catalog name where it
/// has one.
pub open spec fn configured_name(
    default_reference: Seq<char>,
    default_available: Option<Seq<char>>,
    user_model: Option<Seq<char>>,
    user_available: Option<Seq<char>>,
) -> Seq<char> {
    let default_model = match default_available {
        Some(m) => m,
        None => default_reference,
    };
    match (user_model, user_available) {
        (Some(_), Some(m)) => m,
        _ => default_model,
    }
}

/// The model of a user before any choice of their own. `default_available` and
/// `user_available` are the catalog names of the default model and of the
/// user's configured model, where they are available.
pub fn configured_model_name(
    default_reference: &str,
    default_available: Option<&str>,
    user_model: Option<&str>,
    user_available: Option<&str>,
) -> (r: String)
    ensures
        r@ == configured_name(
            default_reference@,
            opt_str_view(default_available),
            opt_str_view(user_model),
            opt_str_view(user_available),
        ),
{
    match (user_model, user_available) {
        (Some(_), Some(m)) => m.to_owned(),
        _ => match default_available {
            Some(m) => m.to_owned(),
            None => default_reference.to_owned(),
        },
    }
}

/// The model of a user: the one they chose where it is another than the
/// configured one and available, else the configured one.
pub fn model_name_for_user(
    configured: &str,
    chosen: Option<&str>,
    chosen_is_configured: bool,
    chosen_available: Option<&str>,
) -> (r: String)
    ensures
        r@ == (if chosen is Some && !chosen_is_configured && chosen_available is Some {
            chosen_available->0@
        } else {
            configured@
        }),
{
    match (chosen, chosen_available) {
        (Some(_), Some(m)) => if chosen_is_configured {
            configured.to_owned()
        } else {
            m.to_owned()
        },
        _ => configured.to_owned(),
    }
}

/// The first limit whose model has a key, from position `i` on.
pub open spec fn limit_from(
    keys: Seq<Seq<char>>,
    limits: Seq<usize>,
    key: Seq<char>,
    i: int,
) -> Option<usize>
    decreases keys.len() - i,
{
    if i < 0 || i >= keys.len() {
        None
    } else if keys[i] == key {
        Some(limits[i])
    } else {
        limit_from(keys, limits, key, i + 1)
    }
}

/// The configured context limit of a model: for the agent's own model the
/// agent's limit where it has one, else the limit that the provider sets for
/// the model. `keys` and `limits` are the provider's, `key` is the model's.
pub fn configured_context_limit_for_model(
    agent_limit: Option<usize>,
    is_agent_model: bool,
    keys: &Vec<String>,
    limits: &Vec<usize>,
    key: &str,
) -> (r: Option<usize>)
    requires
        keys@.len() == limits@.len(),
    ensures
        r == (if agent_limit is Some && is_agent_model {
            agent_limit
        } else {
            limit_from(views(keys@), limits@, key@, 0)
        }),
{
    if agent_limit.is_some() && is_agent_model {
        return agent_limit;
    }
    for i in 0..keys.len()
        invariant
            keys@.len() == limits@.len(),
            !(agent_limit is Some && is_agent_model),
            limit_from(views(keys@), limits@, key@, 0) == limit_from(
                views(keys@),
                limits@,
                key@,
                i as int,
            ),
    {
        assert(views(keys@)[i as int] == keys@[i as int]@);
        if same_text(keys[i].as_str(), key) {
            return Some(limits[i]);
        }
    }
    None
}

/// The streaming policy of a model: that of its provider where several are
/// configured and one has it, else that of the single provider.
pub fn stream_policy_for_model(config: &Config, provider_policy: Option<StreamPolicy>) -> (r:
    StreamPolicy)
    ensures
        r == (if config.providers@.len() > 0 && provider_policy is Some {
            provider_policy->0
        } else {
            config.provider.stream_policy
        }),
{
    if config.providers.len() == 0 {
        return config.provider.stream_policy;
    }
    match provider_policy {
        Some(p) => p,
        None => config.provider.stream_policy,
    }
}

/// Where the provider of a model comes from.
#[derive(Clone, Copy, Debug, PartialEq, Eq, Structural)]
pub enum ProviderSource {
    /// It was used before.
    Cached,
    /// It is registered under the model's name.
    Registered,
    /// It has to be made.
    Create,
}

/// Where the provider of a model comes from.
pub fn main_provider_for_model(cached: bool, registered: bool) -> (r: ProviderSource)
    ensures
        r == (if cached {
            ProviderSource::Cached
        } else if registered {
            ProviderSource::Registered
        } else {
            ProviderSource::Create
        }),
{
    if cached {
        ProviderSource::Cached
    } else if registered {
        ProviderSource::Registered
    } else {
        ProviderSource::Create
    }
}

/// Checks that a model may serve a session: one for subagents only serves no
/// other session.
pub fn check_model_for_session(model: &str, subagent_only: bool, kind: &SessionKind) -> (r: Result<
    (),
    String,
>)
    ensures
        match r {
            Ok(_) => !subagent_only || kind@ is Subagent,
            Err(e) => subagent_only && !(kind@ is Subagent) && e@ == "model '"@ + model@
                + "' is configured as subagent-only; use a subagent profile instead"@,
        },
{
    let is_subagent = match kind {
        SessionKind::Subagent(_) => true,
        _ => false,
    };
    if subagent_only && !is_subagent {
        Err(
            cat3(
                "model '",
                model,
                "' is configured as subagent-only; use a subagent profile instead",
            ),
        )
    } else {
        Ok(())
    }
}

/// Whether a tool is kept from scheduled sessions: those that send messages by
/// themselves, and that which starts scheduled jobs.
pub open spec fn kept_from_cron(name: Seq<char>) -> bool {
    name == "signal_send"@ || name == "signal_react"@ || name == "signal_reply"@ || name
        == "cron_trigger"@
}

/// Whether a session has a tool: all but some in a scheduled session, of these
/// only the allowed ones where a list is given, and none at all where the
/// model takes no tools.
pub open spec fn has_tool(
    name: Seq<char>,
    kind: KindView,
    allowed: Option<Seq<Seq<char>>>,
    supports_tools: bool,
) -> bool {
    &&& supports_tools
    &&& kind is Cron ==> !kept_from_cron(name)
    &&& allowed matches Some(a) ==> a.contains(name)
}

/// The tools among the first `n` that a session has.
pub open spec fn session_tools(
    tools: Seq<Seq<char>>,
    n: int,
    kind: KindView,
    allowed: Option<Seq<Seq<char>>>,
    supports_tools: bool,
) -> Seq<Seq<char>>
    decreases n,
{
    if n <= 0 {
        Seq::empty()
    } else {
        let rest = session_tools(tools, n - 1, kind, allowed, supports_tools);
        if has_tool(tools[n - 1], kind, allowed, supports_tools) {
            rest.push(tools[n - 1])
        } else {
            rest
        }
    }
}

/// The view of an optional list of texts.
pub open spec fn opt_views(v: Option<&Vec<String>>) -> Option<Seq<Seq<char>>> {
    match v {
        Some(v) => Some(views(v@)),
        None => None,
    }
}

/// The tools that a session has, in their order.
pub fn tool_defs_for_session(
    tools: &Vec<String>,
    kind: &SessionKind,
    allowed: Option<&Vec<String>>,
    supports_tools: bool,
) -> (r: Vec<String>)
    ensures
        views(r@) == session_tools(
            views(tools@),
            tools@.len() as int,
            kind@,
            opt_views(allowed),
            supports_tools,
        ),
{
    let is_cron = match kind {
        SessionKind::Cron(_) => true,
        _ => false,
    };
    let mut out: Vec<String> = Vec::new();
    assert(views(out@) =~= Seq::empty());
    for i in 0..tools.len()
        invariant
            is_cron == (kind@ is Cron),
            views(out@) == session_tools(
                views(tools@),
                i as int,
                kind@,
                opt_views(allowed),
                supports_tools,
            ),
    {
        let name = tools[i].as_str();
        let hidden = is_cron && (same_text(name, "signal_send") || same_text(name, "signal_react")
            || same_text(name, "signal_reply") || same_text(name, "cron_trigger"));
        let listed = match allowed {
            Some(a) => holds_text(a, name),
            None => true,
        };
        assert(views(tools@)[i as int] == name@);
        if supports_tools && !hidden && listed {
            let ghost before = views(out@);
            out.push(tools[i].clone());
            assert(views(out@) =~= before.push(tools@[i as int]@));
        }
    }
    out
}

/// A scheduled session can neither send messages by itself nor start scheduled
/// jobs.
pub proof fn cron_sessions_cannot_send(
    tools: Seq<Seq<char>>,
    n: int,
    name: Seq<char>,
    allowed: Option<Seq<Seq<char>>>,
    supports_tools: bool,
    kind: KindView,
)
    requires
        kind is Cron,
        kept_from_cron(name),
        n <= tools.len(),
    ensures
        !session_tools(tools, n, kind, allowed, supports_tools).contains(name),
    decreases n,
{
    if n > 0 {
        cron_sessions_cannot_send(tools, n - 1, name, allowed, supports_tools, kind);
        let rest = session_tools(tools, n - 1, kind, allowed, supports_tools);
        let all = session_tools(tools, n, kind, allowed, supports_tools);
        if all.contains(name) {
            let i = choose|i: int| 0 <= i < all.len() && all[i] == name;
            if i < rest.len() {
                assert(rest[i] == name);
            }
        }
    }
}

/// Whether the messages of a turn are looked through for things to remember.
pub fn auto_capture_applies(enabled: bool, messages: usize, min_turn_messages: usize) -> (r: bool)
    ensures
        r == (enabled && messages >= min_turn_messages),
{
    enabled && messages >= min_turn_messages
}

} // verus!
