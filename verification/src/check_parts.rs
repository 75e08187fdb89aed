//! What the checks of the configuration are told about the world around it,
//! and what several of them ask.
use vstd::prelude::*;

use crate::text::{cat2, cat4, cat5, is_blank, same_text, starts_with, trim_text, trimmed, views};

verus! {

/// A model that a reference stands for, and the provider that offers it.
#[derive(Clone, Debug, PartialEq, Eq)]
pub struct ModelFound {
    pub id: String,
    pub provider: String,
}

/// What a reference to a model stands for.
#[derive(Clone, Debug, PartialEq, Eq)]
pub struct ModelAnswer {
    /// The alias, where the reference is one.
    pub alias: Option<String>,
    pub found: Option<ModelFound>,
}

/// A model that a provider offers.
#[derive(Clone, Debug, PartialEq, Eq)]
pub struct OfferedModel {
    pub id: String,
    /// The form in which model ids are compared.
    pub key: String,
}

/// What a model can take and give, defaults filled in.
#[derive(Clone, Copy, Debug, PartialEq, Eq)]
pub struct EffectiveModalities {
    pub text_input: bool,
    pub text_output: bool,
    pub image_output: bool,
}

/// What the model catalog says of a provider.
#[derive(Clone, Debug, PartialEq, Eq)]
pub struct ProviderFacts {
    pub normalized_name: String,
    /// The key of each configured model.
    pub model_keys: Vec<String>,
    /// The key of each model with configured capabilities.
    pub capability_keys: Vec<String>,
    /// What each model with configured capabilities can do.
    pub modalities: Vec<EffectiveModalities>,
    /// The key of each model with a configured context limit.
    pub limit_keys: Vec<String>,
    pub offered: Vec<OfferedModel>,
    /// The environment variable that holds the key.
    pub api_key_env: Option<String>,
}

impl ProviderFacts {
    /// Whether there is an answer for each part of a provider's configuration.
    pub open spec fn fits(self, p: crate::config::ProviderConfig) -> bool {
        &&& self.model_keys@.len() == p.models@.len()
        &&& self.capability_keys@.len() == p.model_capabilities@.len()
        &&& self.modalities@.len() == p.model_capabilities@.len()
        &&& self.limit_keys@.len() == p.model_context_limits@.len()
    }
}

/// What the model catalog says of an alias.
#[derive(Clone, Debug, PartialEq, Eq)]
pub struct AliasFacts {
    pub alias_key: String,
    pub target_key: String,
    /// Whether the target stands for a configured model.
    pub target_resolves: bool,
}

/// What is at a path.
#[derive(Clone, Debug, PartialEq, Eq)]
pub struct PathFacts {
    pub path: String,
    pub exists: bool,
}

/// What is at the place of the memory database.
#[derive(Clone, Debug, PartialEq, Eq)]
pub enum DatabasePlace {
    /// Its parent is a directory.
    Ready { path: String },
    /// There is nothing at its parent.
    ToCreate { parent: String },
    /// Its parent is something else.
    NotDirectory { parent: String },
    /// It has no parent.
    NoParent { path: String },
}

/// A file of the workspace that goes into the prompt.
#[derive(Clone, Debug, PartialEq, Eq)]
pub struct WorkspaceFile {
    pub path: String,
    pub tokens: u64,
}

/// What a look through the workspace gave.
#[derive(Debug, PartialEq, Eq)]
pub enum WorkspaceScan {
    Failed { error: String },
    /// The files, and the length of the prompt built from them.
    Read { files: Vec<WorkspaceFile>, prompt: Result<u64, String> },
}

/// What the sandbox can do here.
#[derive(Clone, Debug, PartialEq, Eq)]
pub struct SandboxProbe {
    pub name: String,
    pub landlock: bool,
    pub seccomp: bool,
    pub cgroups_v2: bool,
    pub internet_only: bool,
}

/// What the sandbox says of this machine and of the configuration.
#[derive(Debug, PartialEq, Eq)]
pub struct SandboxFacts {
    pub probe: Result<SandboxProbe, String>,
    /// Whether the memory limit is a size.
    pub memory_ok: bool,
    /// For each user, whether their memory limit is a size.
    pub user_memory_ok: Vec<bool>,
    pub namespaces_disabled: bool,
}

/// All that the checks are told.
#[derive(Debug, PartialEq, Eq)]
pub struct Facts {
    /// The environment variables that are set.
    pub env: Vec<String>,
    /// The workspace, or why there is none.
    pub workspace: Result<String, String>,
    pub scan: WorkspaceScan,
    pub bootstrap_pending: bool,
    pub provider: ProviderFacts,
    pub providers: Vec<ProviderFacts>,
    pub agent_model: ModelAnswer,
    /// Whether the agent's model is offered for main sessions.
    pub agent_model_visible: bool,
    pub aliases: Vec<AliasFacts>,
    /// The keys of all models that are not aliases.
    pub real_model_keys: Vec<String>,
    pub memory_db: DatabasePlace,
    /// Whether the subagents' model is configured.
    pub subagent_model_ok: bool,
    /// For each profile, whether its model is configured.
    pub profile_models_ok: Vec<bool>,
    pub sandbox: SandboxFacts,
    /// For each user, what their model stands for.
    pub user_models: Vec<ModelAnswer>,
    /// The machine's time zone.
    pub system_timezone: Option<String>,
    pub signal_db: PathFacts,
    /// For each group, the model that decides whether to answer.
    pub trigger_model_names: Vec<String>,
    pub trigger_models: Vec<ModelAnswer>,
    /// The running program, or why it is not known.
    pub program: Result<PathFacts, String>,
}

impl Facts {
    /// Whether there is an answer for each part of a configuration.
    pub open spec fn fits(self, c: crate::config::Config) -> bool {
        &&& self.provider.fits(c.provider)
        &&& self.providers@.len() == c.providers@.len()
        &&& forall|i: int|
            0 <= i < c.providers@.len() ==> (#[trigger] self.providers@[i]).fits(c.providers@[i])
        &&& self.aliases@.len() == c.aliases@.len()
        &&& self.profile_models_ok@.len() == c.agent.subagents.profiles@.len()
        &&& self.sandbox.user_memory_ok@.len() == c.users@.len()
        &&& self.user_models@.len() == c.users@.len()
        &&& self.trigger_model_names@.len() == c.groups@.len()
        &&& self.trigger_models@.len() == c.groups@.len()
    }
}

pub open spec fn bool_text(b: bool) -> Seq<char> {
    if b {
        "true"@
    } else {
        "false"@
    }
}

pub fn bool_word(b: bool) -> (r: &'static str)
    ensures
        r@ == bool_text(b),
{
    if b {
        "true"
    } else {
        "false"
    }
}

/// Whether a text, trimmed, is the address of something on the web.
pub open spec fn web_address(s: Seq<char>) -> bool {
    trimmed(s).len() > 0 && ("http://"@.is_prefix_of(trimmed(s)) || "https://"@.is_prefix_of(
        trimmed(s),
    ))
}

pub fn is_web_address(s: &str) -> (r: bool)
    ensures
        r == web_address(s@),
{
    let t = trim_text(s);
    !is_blank(s) && (starts_with(t.as_str(), "http://") || starts_with(t.as_str(), "https://"))
}

/// Adds a text to a list of texts.
pub fn add_text(list: &mut Vec<String>, text: String)
    ensures
        views(final(list)@) == views(old(list)@).push(text@),
{
    list.push(text);
    assert(views(list@) =~= views(old(list)@).push(text@));
}

/// Whether some text of a list is blank.
pub open spec fn some_blank(v: Seq<Seq<char>>) -> bool {
    exists|i: int| 0 <= i < v.len() && trimmed(#[trigger] v[i]).len() == 0
}

pub fn has_blank(v: &Vec<String>) -> (r: bool)
    ensures
        r == some_blank(views(v@)),
{
    for i in 0..v.len()
        invariant
            forall|j: int| 0 <= j < i ==> trimmed(#[trigger] views(v@)[j]).len() != 0,
    {
        assert(views(v@)[i as int] == v@[i as int]@);
        if is_blank(v[i].as_str()) {
            return true;
        }
    }
    false
}

/// Where a text last stands among the first `n` of a list.
pub open spec fn last_place(v: Seq<Seq<char>>, t: Seq<char>, n: int) -> Option<int>
    decreases n,
{
    if n <= 0 {
        None
    } else if v[n - 1] == t {
        Some(n - 1)
    } else {
        last_place(v, t, n - 1)
    }
}

pub fn find_last(v: &Vec<String>, t: &str, n: usize) -> (r: Option<usize>)
    requires
        n <= v@.len(),
    ensures
        match r {
            Some(i) => i < n && last_place(views(v@), t@, n as int) == Some(i as int),
            None => last_place(views(v@), t@, n as int) is None,
        },
{
    let mut k: usize = n;
    while k > 0
        invariant
            k <= n <= v@.len(),
            last_place(views(v@), t@, n as int) == last_place(views(v@), t@, k as int),
        decreases k,
    {
        assert(views(v@)[k - 1] == v@[k - 1]@);
        if same_text(v[k - 1].as_str(), t) {
            return Some(k - 1);
        }
        k -= 1;
    }
    None
}

/// The names whose key stands earlier in the list too. A name without a key
/// counts only where `blank_counts`.
pub open spec fn repeats(
    keys: Seq<Seq<char>>,
    names: Seq<Seq<char>>,
    blank_counts: bool,
    n: int,
) -> Seq<Seq<char>>
    decreases n,
{
    if n <= 0 {
        Seq::empty()
    } else {
        let before = repeats(keys, names, blank_counts, n - 1);
        if (blank_counts || keys[n - 1].len() > 0) && last_place(
            keys,
            keys[n - 1],
            n - 1,
        ) is Some {
            before.push(names[n - 1])
        } else {
            before
        }
    }
}

pub fn find_repeats(keys: &Vec<String>, names: &Vec<String>, blank_counts: bool) -> (r: Vec<String>)
    requires
        keys@.len() == names@.len(),
    ensures
        views(r@) == repeats(views(keys@), views(names@), blank_counts, names@.len() as int),
{
    let mut out: Vec<String> = Vec::new();
    assert(views(out@) =~= Seq::<Seq<char>>::empty());
    for i in 0..names.len()
        invariant
            keys@.len() == names@.len(),
            views(out@) == repeats(views(keys@), views(names@), blank_counts, i as int),
    {
        assert(views(keys@)[i as int] == keys@[i as int]@);
        assert(views(names@)[i as int] == names@[i as int]@);
        let ghost was = out@;
        if (blank_counts || !keys[i].as_str().is_empty()) && find_last(
            keys,
            keys[i].as_str(),
            i,
        ).is_some() {
            out.push(names[i].clone());
            assert(views(out@) =~= views(was).push(names@[i as int]@));
        }
    }
    out
}

/// What a report says of a model that a setting refers to.
pub open spec fn model_line(
    subject: Seq<char>,
    requested: Seq<char>,
    answer: ModelAnswer,
) -> Seq<char> {
    match (answer.found, answer.alias) {
        (Some(model), None) => subject + " '"@ + model.id@ + "' resolved via provider '"@
            + model.provider@ + "'"@,
        (Some(model), Some(alias)) => subject + " alias '"@ + alias@ + "' -> '"@ + model.id@
            + "' via provider '"@ + model.provider@ + "'"@,
        (None, _) => subject + " '"@ + requested
            + "' must appear in one configured provider's model list or built-in catalog"@,
    }
}

pub fn describe_model(subject: &str, requested: &str, answer: &ModelAnswer) -> (r: String)
    ensures
        r@ == model_line(subject@, requested@, *answer),
{
    match (&answer.found, &answer.alias) {
        (Some(model), None) => cat2(
            cat5(
                subject,
                " '",
                model.id.as_str(),
                "' resolved via provider '",
                model.provider.as_str(),
            ).as_str(),
            "'",
        ),
        (Some(model), Some(alias)) => cat4(
            cat5(subject, " alias '", alias.as_str(), "' -> '", model.id.as_str()).as_str(),
            "' via provider '",
            model.provider.as_str(),
            "'",
        ),
        (None, _) => cat4(
            subject,
            " '",
            requested,
            "' must appear in one configured provider's model list or built-in catalog",
        ),
    }
}

} // verus!
