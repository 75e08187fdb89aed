//! Compaction of a session: whether it is due, and the passes that shrink the
//! recent context until the next request fits.
use vstd::prelude::*;

use crate::compaction::{
    build_provider_context, call_tokens, capped_size, copy_files, cut_point,
    estimate_message_chars, file_views, finish_compaction, message_ops, opt_state_view,
    parts_size_nonnegative, plan_compaction, provider_context, size_from, stripped_from,
    summarized, CompactionPlan, CompactionState, FileTouched, StateView, COMPACTION_THRESHOLD,
    RECENT_CONTEXT_TARGET,
};
use crate::gateway::{Gateway, GatewayView};
use crate::message::{message_views, texts_in, Message, MessageView};
use crate::session::{KeyView, SessionKey};
use crate::text::joined;
use crate::usage::Usage;

verus! {

/// The most passes of one compaction.
pub const MAX_COMPACTION_PASSES: u32 = 4;

/// The smallest recent context that passes shrink to, in tokens.
pub const MIN_RECENT_CONTEXT_TARGET_TOKENS: u32 = 2_000;

/// The tokens of a model's context that are kept free for its reply.
pub const RESERVE_TOKENS: usize = 16_000;

/// The tokens of a request of so many JSON bytes, about four bytes each.
pub open spec fn tokens_of(bytes: int) -> u32 {
    if bytes / 4 > u32::MAX {
        u32::MAX
    } else {
        (bytes / 4) as u32
    }
}

/// The tokens of a request of so many JSON bytes.
pub fn estimate_tokens_from_json_bytes(bytes: usize) -> (r: u32)
    ensures
        r == tokens_of(bytes as int),
{
    let tokens: usize = bytes / 4;
    if tokens as u64 > u32::MAX as u64 {
        u32::MAX
    } else {
        tokens as u32
    }
}

/// The tokens that a request may have: the context without the reserve.
pub open spec fn budget_of(context_limit: int, reserve: int) -> u32 {
    if context_limit - reserve > u32::MAX {
        u32::MAX
    } else if context_limit > reserve {
        (context_limit - reserve) as u32
    } else {
        0
    }
}

/// The tokens that a request may have.
pub fn input_budget_tokens(context_limit: usize, reserve_tokens: usize) -> (r: u32)
    ensures
        r == budget_of(context_limit as int, reserve_tokens as int),
{
    let left: usize = context_limit.saturating_sub(reserve_tokens);
    if left as u64 > u32::MAX as u64 {
        u32::MAX
    } else {
        left as u32
    }
}

/// The next target of recent context: scaled by how far the request is over
/// its budget, at least one less, and not below the minimum. A request within
/// its budget leaves the target as it is.
pub open spec fn shrunk(current: u32, estimated: u32, budget: u32) -> int {
    if estimated <= budget || current == 0 {
        current as int
    } else {
        let product = if current * budget > u32::MAX {
            u32::MAX as int
        } else {
            current * budget
        };
        let scaled = product / estimated as int;
        let reduced = if scaled < current - 1 {
            scaled
        } else {
            current - 1
        };
        if reduced > MIN_RECENT_CONTEXT_TARGET_TOKENS {
            reduced
        } else {
            MIN_RECENT_CONTEXT_TARGET_TOKENS as int
        }
    }
}

/// The next target of recent context.
pub fn shrink_recent_context_target(
    current_target: u32,
    estimated_request_tokens: u32,
    input_budget_tokens: u32,
) -> (r: u32)
    ensures
        r == shrunk(current_target, estimated_request_tokens, input_budget_tokens),
{
    if estimated_request_tokens <= input_budget_tokens || current_target == 0 {
        return current_target;
    }
    proof {
        assert(current_target * input_budget_tokens <= 0xffff_ffff * 0xffff_ffff)
            by (nonlinear_arith)
            requires
                current_target <= 0xffff_ffff,
                input_budget_tokens <= 0xffff_ffff,
        ;
    }
    let product: u64 = current_target as u64 * input_budget_tokens as u64;
    let capped: u32 = if product > u32::MAX as u64 {
        u32::MAX
    } else {
        product as u32
    };
    let scaled: u32 = capped / estimated_request_tokens;
    let reduced: u32 = if scaled < current_target - 1 {
        scaled
    } else {
        current_target - 1
    };
    if reduced > MIN_RECENT_CONTEXT_TARGET_TOKENS {
        reduced
    } else {
        MIN_RECENT_CONTEXT_TARGET_TOKENS
    }
}

/// Shrinking makes progress above the minimum: the target gets smaller when a
/// request is over its budget, and never falls below the minimum.
pub proof fn shrinking_makes_progress(current: u32, estimated: u32, budget: u32)
    requires
        estimated > budget,
        current > MIN_RECENT_CONTEXT_TARGET_TOKENS,
    ensures
        MIN_RECENT_CONTEXT_TARGET_TOKENS <= shrunk(current, estimated, budget) < current,
{
}

/// The tokens above which a session is compacted: what a request may have, and
/// never more than the usual threshold.
pub open spec fn threshold_of(budget: u32) -> u32 {
    if budget < COMPACTION_THRESHOLD {
        budget
    } else {
        COMPACTION_THRESHOLD
    }
}

/// The tokens above which a session is compacted, given what a request may
/// have.
pub fn compaction_threshold(input_budget_tokens: u32) -> (r: u32)
    ensures
        r == threshold_of(input_budget_tokens),
{
    if input_budget_tokens < COMPACTION_THRESHOLD {
        input_budget_tokens
    } else {
        COMPACTION_THRESHOLD
    }
}

/// The messages of a session's next request: the history, or what its
/// compaction leaves of it.
pub open spec fn session_context(g: GatewayView, k: KeyView) -> Seq<MessageView> {
    match g.compaction(k) {
        Some(c) => provider_context(g.history(k), Some(c.0), c.1 as int),
        None => g.history(k),
    }
}

/// The messages of a session's next request, whose size decides whether it is
/// compacted.
pub fn compaction_context(g: &Gateway, key: &SessionKey) -> (r: Vec<Message>)
    requires
        g.wf(),
    ensures
        message_views(r@) == session_context(g@, key@),
{
    let history = g.history(key);
    match g.cached_compaction(key) {
        Some((state, covered)) => build_provider_context(
            history.as_slice(),
            Some(&state),
            covered,
        ),
        None => history,
    }
}

/// The tokens of messages, about four characters each.
pub open spec fn message_tokens(m: Seq<MessageView>) -> u32 {
    tokens_of(capped_size(size_from(m, 0)))
}

/// A fresh estimate of the tokens of messages.
pub fn estimate_messages_tokens(messages: &[Message]) -> (r: u32)
    ensures
        r == message_tokens(message_views(messages@)),
{
    let ghost m = message_views(messages@);
    let mut chars: usize = 0;
    let mut i: usize = messages.len();
    while i > 0
        invariant
            m == message_views(messages@),
            i <= messages.len(),
            0 <= size_from(m, i as int),
            chars == capped_size(size_from(m, i as int)),
        decreases i,
    {
        proof {
            assert(m[i - 1] == messages@[i - 1]@);
            parts_size_nonnegative(m[i - 1].content);
        }
        i -= 1;
        chars = chars.saturating_add(estimate_message_chars(&messages[i]));
    }
    estimate_tokens_from_json_bytes(chars)
}

/// The larger of the tokens that the provider last reported and a fresh
/// estimate.
pub open spec fn effective_tokens(g: GatewayView, k: KeyView, estimated: u32) -> u32 {
    if g.usage_of(k).last_input_tokens > estimated {
        g.usage_of(k).last_input_tokens
    } else {
        estimated
    }
}

/// Whether a session is to be compacted: it is forced or over the threshold,
/// and has messages that the last compaction does not cover.
pub open spec fn due(
    g: GatewayView,
    k: KeyView,
    estimated: u32,
    threshold: u32,
    force: bool,
) -> bool {
    &&& force || effective_tokens(g, k, estimated) > threshold
    &&& g.compaction(k) matches Some(c) ==> g.history(k).len() > c.1
}

/// Whether a session is to be compacted.
///
/// The estimate matters for sessions loaded from disk and for models with a
/// smaller context: a history may be large though the provider has not
/// reported on it yet.
pub fn compaction_due(
    g: &Gateway,
    key: &SessionKey,
    estimated: u32,
    threshold: u32,
    force: bool,
) -> (r: bool)
    requires
        g.wf(),
    ensures
        r == due(g@, key@, estimated, threshold, force),
{
    let last: u32 = g.session_usage(key).last_input_tokens;
    let effective: u32 = if last > estimated {
        last
    } else {
        estimated
    };
    if !force && effective <= threshold {
        return false;
    }
    match g.cached_compaction(key) {
        Some((_, n)) => g.session_message_count(key) > n,
        None => true,
    }
}

/// What a compaction needs done next.
#[derive(Debug, PartialEq, Eq)]
pub enum CompactStep {
    /// Ask the provider for a summary.
    Summarize { messages: Vec<Message> },
    /// Measure the request that would carry this context.
    Measure { context: Vec<Message> },
}

/// What a [`CompactStep`] stands for.
pub enum CompactStepView {
    Summarize { messages: Seq<MessageView> },
    Measure { context: Seq<MessageView> },
}

impl View for CompactStep {
    type V = CompactStepView;

    open spec fn view(&self) -> CompactStepView {
        match *self {
            CompactStep::Summarize { messages } => CompactStepView::Summarize {
                messages: message_views(messages@),
            },
            CompactStep::Measure { context } => CompactStepView::Measure {
                context: message_views(context@),
            },
        }
    }
}

/// A compaction under way.
pub struct Compactor {
    pub key: SessionKey,
    /// The messages of the session when the compaction began.
    pub messages: Vec<Message>,
    pub pass: u32,
    pub target: u32,
    pub budget: u32,
    pub previous: Option<CompactionState>,
    /// The cut and the files of the summary that was asked for.
    pub cut: usize,
    pub files: Vec<FileTouched>,
    /// The state whose request is being measured.
    pub candidate: Option<CompactionState>,
}

impl Compactor {
    /// The counters are within their bounds.
    pub open spec fn wf(&self) -> bool {
        &&& self.pass < MAX_COMPACTION_PASSES
        &&& self.target <= RECENT_CONTEXT_TARGET
        &&& self.cut <= self.messages@.len()
    }

    /// The history being compacted.
    pub open spec fn history(&self) -> Seq<MessageView> {
        message_views(self.messages@)
    }

    /// The number of messages that a state covers.
    pub open spec fn covered(&self, s: StateView) -> usize {
        match s.messages_at_compaction {
            Some(n) => n,
            None => self.messages@.len() as usize,
        }
    }

    /// Whether nothing but the candidate and the plan differs.
    pub open spec fn same_run(&self, other: &Compactor) -> bool {
        &&& self.key@ == other.key@
        &&& self.messages@ == other.messages@
        &&& self.pass == other.pass
        &&& self.target == other.target
        &&& self.budget == other.budget
        &&& opt_state_view(self.previous) == opt_state_view(other.previous)
    }

    /// Begins a compaction of a session.
    pub fn begin(g: &Gateway, key: &SessionKey, budget: u32) -> (r: Compactor)
        requires
            g.wf(),
        ensures
            r.wf(),
            r.key@ == key@,
            r.history() == g@.history(key@),
            r.pass == 0,
            r.target == RECENT_CONTEXT_TARGET,
            r.budget == budget,
            opt_state_view(r.previous) == (match g@.compaction(key@) {
                Some(c) => Some(c.0),
                None => None,
            }),
            r.candidate is None,
    {
        let previous = match g.cached_compaction(key) {
            Some((state, _)) => Some(state),
            None => None,
        };
        Compactor {
            key: key.clone(),
            messages: g.history(key),
            pass: 0,
            target: RECENT_CONTEXT_TARGET,
            budget,
            previous,
            cut: 0,
            files: Vec::new(),
            candidate: None,
        }
    }

    fn measure(&mut self, state: CompactionState) -> (r: CompactStep)
        ensures
            final(self).same_run(old(self)),
            final(self).cut == old(self).cut,
            opt_state_view(final(self).candidate) == Some(state@),
            r@ == (CompactStepView::Measure {
                context: provider_context(
                    old(self).history(),
                    Some(state@),
                    old(self).covered(state@) as int,
                ),
            }),
    {
        let covered: usize = match state.messages_at_compaction {
            Some(n) => n,
            None => self.messages.len(),
        };
        let context = build_provider_context(self.messages.as_slice(), Some(&state), covered);
        self.candidate = Some(state);
        CompactStep::Measure { context }
    }

    /// Plans the next pass: the summary to ask for, or where there is nothing
    /// to summarize the request to measure.
    pub fn plan(&mut self, now: i64) -> (r: CompactStep)
        requires
            old(self).wf(),
        ensures
            final(self).wf(),
            final(self).same_run(old(self)),
            ({
                let m = old(self).history();
                let prev = opt_state_view(old(self).previous);
                let cut = cut_point(m, old(self).target * 4);
                let (from, to) = summarized(cut, prev);
                if prev is Some && from == to {
                    let state = StateView {
                        created_at: now,
                        messages_at_compaction: Some(cut as usize),
                        ..prev->0
                    };
                    &&& opt_state_view(final(self).candidate) == Some(state)
                    &&& r@ == (CompactStepView::Measure {
                        context: provider_context(m, Some(state), cut),
                    })
                } else {
                    &&& final(self).cut == cut
                    &&& final(self).candidate is None
                    &&& crate::compaction::lists(
                        file_views(final(self).files@),
                        crate::compaction::touch_all(
                            match prev {
                                Some(p) => crate::compaction::last_actions(p.files_touched),
                                None => Map::empty(),
                            },
                            crate::compaction::add_all_new(
                                Seq::empty(),
                                message_ops(m.subrange(from, to)),
                            ),
                        ),
                    )
                    &&& r@ == (CompactStepView::Summarize {
                        messages: stripped_from(m.subrange(from, to), 0).push(
                            crate::message::user_text(
                                crate::compaction::summary_prompt(
                                    match prev {
                                        Some(p) => Some(p.summary),
                                        None => None,
                                    },
                                    file_views(final(self).files@),
                                ),
                            ),
                        ),
                    })
                }
            }),
    {
        proof {
            crate::compaction::cut_point_is_aligned(self.history(), self.target * 4);
        }
        let plan = plan_compaction(
            self.messages.as_slice(),
            self.previous.as_ref(),
            self.target,
            now,
        );
        match plan {
            CompactionPlan::Reuse { state } => {
                assert(self.covered(state@) as int == cut_point(self.history(), self.target * 4));
                self.measure(state)
            },
            CompactionPlan::Summarize { cut_point, messages, files } => {
                self.cut = cut_point;
                self.files = files;
                self.candidate = None;
                CompactStep::Summarize { messages }
            },
        }
    }

    /// Takes in the summary, and measures the request that it would lead to.
    pub fn summarized(&mut self, response: &Message, usage: &Usage, now: i64) -> (r: CompactStep)
        requires
            old(self).wf(),
            call_tokens(*usage) <= u32::MAX,
            old(self).previous matches Some(p) ==> p.compaction_count < u32::MAX,
        ensures
            final(self).wf(),
            final(self).same_run(old(self)),
            ({
                let state = StateView {
                    summary: joined(texts_in(response@.content), "\n"@),
                    files_touched: file_views(old(self).files@),
                    compaction_count: match old(self).previous {
                        Some(p) => (p.compaction_count + 1) as u32,
                        None => 1,
                    },
                    tokens_at_compaction: call_tokens(*usage) as u32,
                    created_at: now,
                    messages_at_compaction: Some(old(self).cut),
                };
                &&& opt_state_view(final(self).candidate) == Some(state)
                &&& r@ == (CompactStepView::Measure {
                    context: provider_context(
                        old(self).history(),
                        Some(state),
                        old(self).cut as int,
                    ),
                })
            }),
    {
        let files = copy_files(&self.files);
        let state = finish_compaction(
            self.previous.as_ref(),
            self.cut,
            files,
            response,
            usage,
            now,
        );
        self.measure(state)
    }

    /// Takes in the size of the request. The state is kept. The compaction is
    /// over when the request fits its budget, when there is no pass left, or
    /// when the target cannot shrink; else the next pass has a smaller target.
    /// Returns whether it is over.
    pub fn measured(&mut self, g: &mut Gateway, json_bytes: usize) -> (r: bool)
        requires
            old(g).wf(),
            old(self).wf(),
            old(self).candidate is Some,
        ensures
            final(g).wf(),
            final(g).same_buffers(old(g)),
            final(self).wf(),
            ({
                let state = old(self).candidate->0@;
                let tokens = tokens_of(json_bytes as int);
                let next = shrunk(old(self).target, tokens, old(self).budget);
                &&& final(g)@ == (GatewayView {
                    compactions: old(g)@.compactions.insert(
                        old(self).key@,
                        (state, old(self).covered(state)),
                    ),
                    ..old(g)@
                })
                &&& final(self).candidate is None
                &&& r == (tokens <= old(self).budget || old(self).pass + 1 >= MAX_COMPACTION_PASSES
                    || next >= old(self).target)
                &&& !r ==> {
                    &&& final(self).key@ == old(self).key@
                    &&& final(self).messages@ == old(self).messages@
                    &&& final(self).budget == old(self).budget
                    &&& final(self).pass == old(self).pass + 1
                    &&& final(self).target == next
                    &&& opt_state_view(final(self).previous) == Some(state)
                }
            }),
    {
        let mut taken: Option<CompactionState> = None;
        std::mem::swap(&mut taken, &mut self.candidate);
        if let Some(state) = taken {
            let covered: usize = match state.messages_at_compaction {
                Some(n) => n,
                None => self.messages.len(),
            };
            g.set_compaction(&self.key, state.clone(), covered);
            let tokens: u32 = estimate_tokens_from_json_bytes(json_bytes);
            if tokens <= self.budget || self.pass + 1 >= MAX_COMPACTION_PASSES {
                return true;
            }
            let next: u32 = shrink_recent_context_target(self.target, tokens, self.budget);
            if next >= self.target {
                return true;
            }
            self.previous = Some(state);
            self.target = next;
            self.pass = self.pass + 1;
            false
        } else {
            true
        }
    }
}

/// The tokens that a request to a model may have, its reply left room for.
pub open spec fn request_budget(context_limit: usize) -> u32 {
    budget_of(context_limit as int, RESERVE_TOKENS as int)
}

/// Begins a compaction of a session where it is due: where it is forced, or
/// where the session's context is too large for a model with this limit.
pub fn start_compaction(g: &Gateway, key: &SessionKey, context_limit: usize, force: bool) -> (r:
    Option<Compactor>)
    requires
        g.wf(),
    ensures
        r is Some <==> due(
            g@,
            key@,
            message_tokens(session_context(g@, key@)),
            threshold_of(request_budget(context_limit)),
            force,
        ),
        r matches Some(c) ==> {
            &&& c.wf()
            &&& c.key@ == key@
            &&& c.history() == g@.history(key@)
            &&& c.pass == 0
            &&& c.target == RECENT_CONTEXT_TARGET
            &&& c.budget == request_budget(context_limit)
            &&& opt_state_view(c.previous) == (match g@.compaction(key@) {
                Some(p) => Some(p.0),
                None => None,
            })
            &&& c.candidate is None
        },
{
    let budget: u32 = input_budget_tokens(context_limit, RESERVE_TOKENS);
    let context = compaction_context(g, key);
    let estimated: u32 = estimate_messages_tokens(context.as_slice());
    if compaction_due(g, key, estimated, compaction_threshold(budget), force) {
        Some(Compactor::begin(g, key, budget))
    } else {
        None
    }
}

} // verus!
