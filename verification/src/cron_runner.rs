//! A run of a scheduled task: whether it runs at all, what the agent is asked,
//! and to whom the answer goes.
use vstd::prelude::*;

use crate::config::{Config, CronConfig, CronDeliveryMode, UserConfig};
use crate::cron_timezone::{cron_zone, find_user, resolve_cron_timezone_with_default, user_named};
use crate::gateway::Gateway;
use crate::heartbeat::{
    deliverable, idle, is_heartbeat_content_empty, strip_suppression_token, SuppressionTokenResult,
};
use crate::message::{
    answered, assistant_text, paired, paired_push_user, user_text, Message, MessageView,
};
use crate::session::{key_text, KeyView, KindView, SessionKey, SessionKind};
use crate::text::{
    after_colon, before_colon, cat2, cat3, cat4, contains_text, has_text, is_blank, opt_str_view,
    opt_view, same_text, split_at_colon, starts_with, trimmed, views,
};

verus! {

/// How a run ended.
#[derive(Clone, Copy, Debug, PartialEq, Eq, Structural)]
pub enum CronTriggerStatus {
    Completed,
    CompletedEmpty,
    Suppressed,
    SkippedHeartbeat,
    Busy,
}

/// What came of a run.
#[derive(Clone, Debug, PartialEq, Eq)]
pub struct CronTriggerResult {
    pub cron_name: String,
    pub status: CronTriggerStatus,
    pub response: Option<String>,
    pub delivered_to: usize,
    pub attempted_to: usize,
}

#[verifier::ext_equal]
pub struct ResultView {
    pub cron_name: Seq<char>,
    pub status: CronTriggerStatus,
    pub response: Option<Seq<char>>,
    pub delivered_to: nat,
    pub attempted_to: nat,
}

impl View for CronTriggerResult {
    type V = ResultView;

    open spec fn view(&self) -> ResultView {
        ResultView {
            cron_name: self.cron_name@,
            status: self.status,
            response: opt_view(self.response),
            delivered_to: self.delivered_to as nat,
            attempted_to: self.attempted_to as nat,
        }
    }
}

/// A run that delivered nothing and answered nothing.
pub open spec fn no_answer(name: Seq<char>, status: CronTriggerStatus) -> ResultView {
    ResultView { cron_name: name, status, response: None, delivered_to: 0, attempted_to: 0 }
}

pub open spec fn answer(
    name: Seq<char>,
    response: Seq<char>,
    delivered_to: nat,
    attempted_to: nat,
) -> ResultView {
    ResultView {
        cron_name: name,
        status: CronTriggerStatus::Completed,
        response: Some(response),
        delivered_to,
        attempted_to,
    }
}

impl CronTriggerResult {
    pub fn completed(
        cron_name: &str,
        response: String,
        delivered_to: usize,
        attempted_to: usize,
    ) -> (r: CronTriggerResult)
        ensures
            r@ == answer(cron_name@, response@, delivered_to as nat, attempted_to as nat),
    {
        CronTriggerResult {
            cron_name: cron_name.to_owned(),
            status: CronTriggerStatus::Completed,
            response: Some(response),
            delivered_to,
            attempted_to,
        }
    }

    pub fn completed_empty(cron_name: &str) -> (r: CronTriggerResult)
        ensures
            r@ == no_answer(cron_name@, CronTriggerStatus::CompletedEmpty),
    {
        CronTriggerResult {
            cron_name: cron_name.to_owned(),
            status: CronTriggerStatus::CompletedEmpty,
            response: None,
            delivered_to: 0,
            attempted_to: 0,
        }
    }

    pub fn suppressed(cron_name: &str) -> (r: CronTriggerResult)
        ensures
            r@ == no_answer(cron_name@, CronTriggerStatus::Suppressed),
    {
        CronTriggerResult {
            cron_name: cron_name.to_owned(),
            status: CronTriggerStatus::Suppressed,
            response: None,
            delivered_to: 0,
            attempted_to: 0,
        }
    }

    pub fn skipped_heartbeat(cron_name: &str) -> (r: CronTriggerResult)
        ensures
            r@ == no_answer(cron_name@, CronTriggerStatus::SkippedHeartbeat),
    {
        CronTriggerResult {
            cron_name: cron_name.to_owned(),
            status: CronTriggerStatus::SkippedHeartbeat,
            response: None,
            delivered_to: 0,
            attempted_to: 0,
        }
    }

    pub fn busy(cron_name: &str) -> (r: CronTriggerResult)
        ensures
            r@ == no_answer(cron_name@, CronTriggerStatus::Busy),
    {
        CronTriggerResult {
            cron_name: cron_name.to_owned(),
            status: CronTriggerStatus::Busy,
            response: None,
            delivered_to: 0,
            attempted_to: 0,
        }
    }
}

/// What set a run off.
#[derive(Clone, Debug, PartialEq, Eq)]
pub enum CronRunTrigger {
    Scheduled,
    Manual { deliver: bool, origin_session_id: String },
}

impl CronRunTrigger {
    pub open spec fn delivers(self) -> bool {
        match self {
            CronRunTrigger::Scheduled => true,
            CronRunTrigger::Manual { deliver, .. } => deliver,
        }
    }

    pub open spec fn origin(self) -> Option<Seq<char>> {
        match self {
            CronRunTrigger::Scheduled => None,
            CronRunTrigger::Manual { origin_session_id, .. } => Some(origin_session_id@),
        }
    }

    pub fn kind(&self) -> (r: &'static str)
        ensures
            r@ == (match *self {
                CronRunTrigger::Scheduled => "scheduled"@,
                CronRunTrigger::Manual { .. } => "manual"@,
            }),
    {
        match self {
            CronRunTrigger::Scheduled => "scheduled",
            CronRunTrigger::Manual { .. } => "manual",
        }
    }

    /// Whether the answer is sent out.
    pub fn delivery_enabled(&self) -> (r: bool)
        ensures
            r == self.delivers(),
    {
        match self {
            CronRunTrigger::Scheduled => true,
            CronRunTrigger::Manual { deliver, .. } => *deliver,
        }
    }

    /// The conversation in which the run was asked for.
    pub fn origin_session_id(&self) -> (r: Option<&str>)
        ensures
            opt_str_view(r) == self.origin(),
    {
        match self {
            CronRunTrigger::Scheduled => None,
            CronRunTrigger::Manual { origin_session_id, .. } => Some(origin_session_id.as_str()),
        }
    }
}

/// Where an answer goes.
#[derive(Clone, Debug, PartialEq, Eq)]
pub struct CronTarget {
    pub channel: String,
    pub target: String,
}

#[verifier::ext_equal]
pub struct TargetView {
    pub channel: Seq<char>,
    pub target: Seq<char>,
}

impl View for CronTarget {
    type V = TargetView;

    open spec fn view(&self) -> TargetView {
        TargetView { channel: self.channel@, target: self.target@ }
    }
}

pub open spec fn target_views(v: Seq<CronTarget>) -> Seq<TargetView> {
    v.map(|i: int, t: CronTarget| t@)
}

/// The places that the first `n` patterns of a user name, but for the terminal.
pub open spec fn pattern_targets(patterns: Seq<Seq<char>>, n: int) -> Seq<TargetView>
    decreases n,
{
    if n <= 0 {
        Seq::empty()
    } else {
        let before = pattern_targets(patterns, n - 1);
        let p = patterns[n - 1];
        match after_colon(p) {
            Some(target) => if before_colon(p) == "terminal"@ {
                before
            } else {
                before.push(TargetView { channel: before_colon(p), target })
            },
            None => before,
        }
    }
}

/// Where the answers of a task go: where it says, else to all places but the
/// terminal at which its user is found, else nowhere.
pub open spec fn targets_of(users: Seq<UserConfig>, cfg: CronConfig) -> Seq<TargetView> {
    match cfg.deliver {
        Some(d) => seq![TargetView { channel: d.channel@, target: d.target@ }],
        None => match cfg.user {
            None => Seq::empty(),
            Some(name) => match user_named(users, name@) {
                None => Seq::empty(),
                Some(u) => pattern_targets(
                    views(u.match_patterns@),
                    u.match_patterns@.len() as int,
                ),
            },
        },
    }
}

fn find_pattern_targets(patterns: &Vec<String>) -> (r: Vec<CronTarget>)
    ensures
        target_views(r@) == pattern_targets(views(patterns@), patterns@.len() as int),
{
    let mut out: Vec<CronTarget> = Vec::new();
    assert(target_views(out@) =~= Seq::<TargetView>::empty());
    for i in 0..patterns.len()
        invariant
            target_views(out@) == pattern_targets(views(patterns@), i as int),
    {
        assert(views(patterns@)[i as int] == patterns@[i as int]@);
        let (channel, rest) = split_at_colon(patterns[i].as_str());
        if let Some(target) = rest {
            if !same_text(channel.as_str(), "terminal") {
                let t = CronTarget { channel, target };
                let ghost was = out@;
                out.push(t);
                assert(target_views(out@) =~= target_views(was).push(t@));
            }
        }
    }
    out
}

/// Finds out where the answers of a task go.
pub fn resolve_cron_delivery_targets(config: &Config, cfg: &CronConfig) -> (r: Vec<CronTarget>)
    ensures
        target_views(r@) == targets_of(config.users@, *cfg),
{
    if let Some(d) = &cfg.deliver {
        let r = vec![CronTarget { channel: d.channel.clone(), target: d.target.clone() }];
        assert(target_views(r@) =~= targets_of(config.users@, *cfg));
        return r;
    }
    if let Some(name) = &cfg.user {
        if let Some(user) = find_user(&config.users, name.as_str()) {
            return find_pattern_targets(&user.match_patterns);
        }
    }
    let none: Vec<CronTarget> = Vec::new();
    assert(target_views(none@) =~= Seq::<TargetView>::empty());
    none
}

/// The conversation of a task's runs.
pub fn cron_session_key(agent_id: &str, cron_name: &str) -> (r: SessionKey)
    ensures
        r@ == (KeyView { agent_id: agent_id@, kind: KindView::Cron(cron_name@) }),
{
    SessionKey { agent_id: agent_id.to_owned(), kind: SessionKind::Cron(cron_name.to_owned()) }
}

pub open spec fn is_group(t: TargetView) -> bool {
    "group:"@.is_prefix_of(t.target)
}

/// The conversation with whoever an answer goes to.
pub open spec fn dm_key(agent_id: Seq<char>, t: TargetView) -> KeyView {
    KeyView { agent_id, kind: KindView::Dm(t.channel + ":"@ + t.target) }
}

/// The conversation that an answer is written into: that with whoever it goes
/// to, unless that is a group or the run was asked for there.
pub open spec fn session_for(
    agent_id: Seq<char>,
    origin: Option<Seq<char>>,
    t: TargetView,
) -> Option<KeyView> {
    if is_group(t) || origin == Some(key_text(dm_key(agent_id, t))) {
        None
    } else {
        Some(dm_key(agent_id, t))
    }
}

fn find_session_for(agent_id: &str, origin: &Option<String>, t: &CronTarget) -> (r: Option<
    SessionKey,
>)
    ensures
        crate::session::opt_key_view(r) == session_for(agent_id@, opt_view(*origin), t@),
{
    if starts_with(t.target.as_str(), "group:") {
        return None;
    }
    let key = SessionKey {
        agent_id: agent_id.to_owned(),
        kind: SessionKind::Dm(cat3(t.channel.as_str(), ":", t.target.as_str())),
    };
    if let Some(o) = origin {
        let id = key.text();
        if same_text(o.as_str(), id.as_str()) {
            return None;
        }
    }
    Some(key)
}

pub open spec fn key_views(v: Seq<SessionKey>) -> Seq<KeyView> {
    v.map(|i: int, k: SessionKey| k@)
}

/// The conversations that a run waits for: a turn that is under way in one of
/// them is to end before an answer is written into it.
pub open spec fn awaited_sessions(
    agent_id: Seq<char>,
    origin: Option<Seq<char>>,
    targets: Seq<TargetView>,
    n: int,
) -> Seq<KeyView>
    decreases n,
{
    if n <= 0 {
        Seq::empty()
    } else {
        let before = awaited_sessions(agent_id, origin, targets, n - 1);
        match session_for(agent_id, origin, targets[n - 1]) {
            Some(k) => before.push(k),
            None => before,
        }
    }
}

/// Finds the conversations that a run waits for.
fn delivery_sessions(agent_id: &str, origin: &Option<String>, targets: &Vec<CronTarget>) -> (r: Vec<
    SessionKey,
>)
    ensures
        key_views(r@) == awaited_sessions(
            agent_id@,
            opt_view(*origin),
            target_views(targets@),
            targets@.len() as int,
        ),
{
    let mut out: Vec<SessionKey> = Vec::new();
    assert(key_views(out@) =~= Seq::<KeyView>::empty());
    for i in 0..targets.len()
        invariant
            key_views(out@) == awaited_sessions(
                agent_id@,
                opt_view(*origin),
                target_views(targets@),
                i as int,
            ),
    {
        assert(target_views(targets@)[i as int] == targets@[i as int]@);
        if let Some(k) = find_session_for(agent_id, origin, &targets[i]) {
            let ghost was = out@;
            out.push(k);
            assert(key_views(out@) =~= key_views(was).push(k@));
        }
    }
    out
}

/// How far a run has come.
#[derive(Debug, PartialEq, Eq)]
pub enum CronPhase {
    /// The heartbeat file is read.
    Heartbeat,
    /// Turns in the conversations that the answer goes to are awaited.
    Waiting,
    /// The agent is at work.
    Running,
    /// It is asked whether this is worth sending.
    Reviewing { content: String },
    /// This is sent to one target after the other.
    Announcing { content: String, done: usize, delivered: usize },
    Finished,
}

#[verifier::ext_equal]
pub enum CronPhaseView {
    Heartbeat,
    Waiting,
    Running,
    Reviewing { content: Seq<char> },
    Announcing { content: Seq<char>, done: nat, delivered: nat },
    Finished,
}

impl View for CronPhase {
    type V = CronPhaseView;

    open spec fn view(&self) -> CronPhaseView {
        match *self {
            CronPhase::Heartbeat => CronPhaseView::Heartbeat,
            CronPhase::Waiting => CronPhaseView::Waiting,
            CronPhase::Running => CronPhaseView::Running,
            CronPhase::Reviewing { content } => CronPhaseView::Reviewing { content: content@ },
            CronPhase::Announcing { content, done, delivered } => CronPhaseView::Announcing {
                content: content@,
                done: done as nat,
                delivered: delivered as nat,
            },
            CronPhase::Finished => CronPhaseView::Finished,
        }
    }
}

/// What is to be done next.
#[derive(Debug, PartialEq, Eq)]
pub enum CronAction {
    /// Read the heartbeat file of the workspace.
    ReadHeartbeat,
    /// Wait for the turns under way in these conversations.
    Wait { sessions: Vec<SessionKey> },
    /// Hand the agent this message from this sender. Its prompt speaks of a
    /// channel and a way of delivery where the answer is sent out.
    Dispatch {
        sender: String,
        content: String,
        channel: Option<String>,
        mode: Option<CronDeliveryMode>,
    },
    /// Ask whether this is worth sending.
    Review { channel: Option<String>, response: String },
    /// Write this into a conversation, if one is given, and send it to the
    /// target at a place of the list.
    Announce { place: usize, content: String, session: Option<SessionKey> },
    Finish { result: CronTriggerResult },
}

#[verifier::ext_equal]
pub enum CronActionView {
    ReadHeartbeat,
    Wait { sessions: Seq<KeyView> },
    Dispatch {
        sender: Seq<char>,
        content: Seq<char>,
        channel: Option<Seq<char>>,
        mode: Option<CronDeliveryMode>,
    },
    Review { channel: Option<Seq<char>>, response: Seq<char> },
    Announce { place: nat, content: Seq<char>, session: Option<KeyView> },
    Finish { result: ResultView },
}

impl View for CronAction {
    type V = CronActionView;

    open spec fn view(&self) -> CronActionView {
        match *self {
            CronAction::ReadHeartbeat => CronActionView::ReadHeartbeat,
            CronAction::Wait { sessions } => CronActionView::Wait { sessions: key_views(sessions@) },
            CronAction::Dispatch { sender, content, channel, mode } => CronActionView::Dispatch {
                sender: sender@,
                content: content@,
                channel: opt_view(channel),
                mode,
            },
            CronAction::Review { channel, response } => CronActionView::Review {
                channel: opt_view(channel),
                response: response@,
            },
            CronAction::Announce { place, content, session } => CronActionView::Announce {
                place: place as nat,
                content: content@,
                session: crate::session::opt_key_view(session),
            },
            CronAction::Finish { result } => CronActionView::Finish { result: result@ },
        }
    }
}

/// A run of a task.
#[derive(Debug, PartialEq, Eq)]
pub struct CronRun {
    pub cfg: CronConfig,
    pub agent_id: String,
    pub origin: Option<String>,
    pub targets: Vec<CronTarget>,
    pub phase: CronPhase,
}

#[verifier::ext_equal]
pub struct RunView {
    pub cfg: CronConfig,
    pub agent_id: Seq<char>,
    pub origin: Option<Seq<char>>,
    pub targets: Seq<TargetView>,
    pub phase: CronPhaseView,
}

impl View for CronRun {
    type V = RunView;

    open spec fn view(&self) -> RunView {
        RunView {
            cfg: self.cfg,
            agent_id: self.agent_id@,
            origin: opt_view(self.origin),
            targets: target_views(self.targets@),
            phase: self.phase@,
        }
    }
}

/// Who the agent is told that the message is from.
pub open spec fn cron_sender(cfg: CronConfig) -> Seq<char> {
    match cfg.user {
        Some(user) => "cron:"@ + cfg.name@ + ":"@ + user@,
        None => "cron:"@ + cfg.name@,
    }
}

impl RunView {
    /// Whether the run sends to targets only where there are some left.
    pub open spec fn sound(self) -> bool {
        match self.phase {
            CronPhaseView::Announcing { done, delivered, .. } => done < self.targets.len()
                && delivered <= done,
            _ => true,
        }
    }

    /// The channel that the answer goes out on first.
    pub open spec fn channel(self) -> Option<Seq<char>> {
        if self.targets.len() > 0 {
            Some(self.targets[0].channel)
        } else {
            None
        }
    }

    pub open spec fn at(self, phase: CronPhaseView) -> RunView {
        RunView { phase, ..self }
    }

    pub open spec fn ended(self, result: ResultView) -> (RunView, CronActionView) {
        (self.at(CronPhaseView::Finished), CronActionView::Finish { result })
    }

    pub open spec fn ended_with(self, status: CronTriggerStatus) -> (RunView, CronActionView) {
        self.ended(no_answer(self.cfg.name@, status))
    }

    pub open spec fn waiting(self) -> (RunView, CronActionView) {
        (
            self.at(CronPhaseView::Waiting),
            CronActionView::Wait {
                sessions: awaited_sessions(
                    self.agent_id,
                    self.origin,
                    self.targets,
                    self.targets.len() as int,
                ),
            },
        )
    }

    /// What the agent is asked.
    pub open spec fn request(self) -> Seq<char> {
        if self.targets.len() == 0 {
            self.cfg.message@
        } else {
            "[Your response will be delivered to the user via "@ + self.targets[0].channel
                + ". Your response is delivered automatically.]\n\n"@ + self.cfg.message@
        }
    }

    pub open spec fn running(self) -> (RunView, CronActionView) {
        (
            self.at(CronPhaseView::Running),
            CronActionView::Dispatch {
                sender: cron_sender(self.cfg),
                content: self.request(),
                channel: self.channel(),
                mode: if self.targets.len() == 0 {
                    None
                } else {
                    Some(self.cfg.mode())
                },
            },
        )
    }

    /// The next target is sent to, or all were.
    pub open spec fn announcing(self, content: Seq<char>, done: nat, delivered: nat) -> (
        RunView,
        CronActionView,
    ) {
        if done < self.targets.len() {
            (
                self.at(CronPhaseView::Announcing { content, done, delivered }),
                CronActionView::Announce {
                    place: done,
                    content,
                    session: session_for(self.agent_id, self.origin, self.targets[done as int]),
                },
            )
        } else {
            self.ended(answer(self.cfg.name@, content, delivered, self.targets.len()))
        }
    }

    /// What becomes of an answer.
    pub open spec fn answered_with(self, response: Seq<char>) -> (RunView, CronActionView) {
        if self.targets.len() == 0 {
            self.ended(answer(self.cfg.name@, response, 0, 0))
        } else if self.cfg.mode() == CronDeliveryMode::Always {
            self.announcing(response, 0, 0)
        } else {
            match deliverable(response) {
                None => self.ended_with(CronTriggerStatus::Suppressed),
                Some(content) => (
                    self.at(CronPhaseView::Reviewing { content }),
                    CronActionView::Review { channel: self.channel(), response: content },
                ),
            }
        }
    }

    /// How a run begins.
    pub open spec fn begin(self, active: bool) -> (RunView, CronActionView) {
        if active {
            self.ended_with(CronTriggerStatus::Busy)
        } else if has_text(self.cfg.message@, "HEARTBEAT.md"@) {
            (self.at(CronPhaseView::Heartbeat), CronActionView::ReadHeartbeat)
        } else {
            self.waiting()
        }
    }

    pub open spec fn heartbeat(self, content: Option<Seq<char>>) -> (RunView, CronActionView) {
        match content {
            Some(c) if idle(c) => self.ended_with(CronTriggerStatus::SkippedHeartbeat),
            _ => self.waiting(),
        }
    }

    pub open spec fn replied(self, response: Seq<char>, active: bool) -> (RunView, CronActionView) {
        if trimmed(response).len() > 0 {
            self.answered_with(response)
        } else if active {
            self.ended_with(CronTriggerStatus::Busy)
        } else {
            self.ended_with(CronTriggerStatus::CompletedEmpty)
        }
    }

    pub open spec fn reviewed(self, verdict: Option<bool>) -> (RunView, CronActionView) {
        if verdict == Some(false) {
            self.ended_with(CronTriggerStatus::Suppressed)
        } else {
            self.announcing(self.phase->Reviewing_content, 0, 0)
        }
    }

    pub open spec fn announced(self, sent: bool) -> (RunView, CronActionView) {
        self.announcing(
            self.phase->Announcing_content,
            self.phase->done + 1,
            self.phase->delivered + if sent {
                1nat
            } else {
                0nat
            },
        )
    }
}

impl CronRun {
    /// A run of a task that is about to begin. `active` says whether its
    /// conversation has a turn under way.
    pub fn begin(cfg: CronConfig, config: &Config, trigger: &CronRunTrigger, active: bool) -> (r: (
        CronRun,
        CronAction,
    ))
        ensures
            ({
                let targets = if trigger.delivers() && !active {
                    targets_of(config.users@, cfg)
                } else {
                    Seq::empty()
                };
                let start = RunView {
                    cfg,
                    agent_id: config.agent.id@,
                    origin: trigger.origin(),
                    targets,
                    phase: CronPhaseView::Waiting,
                };
                (r.0@, r.1@) == start.begin(active)
            }),
            r.0@.sound(),
    {
        let mut targets: Vec<CronTarget> = Vec::new();
        assert(target_views(targets@) =~= Seq::<TargetView>::empty());
        if trigger.delivery_enabled() && !active {
            targets = resolve_cron_delivery_targets(config, &cfg);
        }
        let origin = match trigger.origin_session_id() {
            Some(o) => Some(o.to_owned()),
            None => None,
        };
        let mut run = CronRun {
            cfg,
            agent_id: config.agent.id.clone(),
            origin,
            targets,
            phase: CronPhase::Waiting,
        };
        if active {
            run.phase = CronPhase::Finished;
            let result = CronTriggerResult::busy(run.cfg.name.as_str());
            return (run, CronAction::Finish { result });
        }
        if contains_text(run.cfg.message.as_str(), "HEARTBEAT.md") {
            run.phase = CronPhase::Heartbeat;
            return (run, CronAction::ReadHeartbeat);
        }
        let action = run.wait();
        (run, action)
    }

    fn wait(&mut self) -> (r: CronAction)
        ensures
            (final(self)@, r@) == old(self)@.waiting(),
    {
        self.phase = CronPhase::Waiting;
        let sessions = delivery_sessions(self.agent_id.as_str(), &self.origin, &self.targets);
        CronAction::Wait { sessions }
    }

    /// The heartbeat file was read, or could not be.
    pub fn heartbeat(&mut self, content: Option<&str>) -> (r: CronAction)
        requires
            old(self)@.phase is Heartbeat,
        ensures
            (final(self)@, r@) == old(self)@.heartbeat(opt_str_view(content)),
            final(self)@.sound(),
    {
        if let Some(c) = content {
            if is_heartbeat_content_empty(c) {
                self.phase = CronPhase::Finished;
                return CronAction::Finish {
                    result: CronTriggerResult::skipped_heartbeat(self.cfg.name.as_str()),
                };
            }
        }
        self.wait()
    }

    /// The turns under way have ended.
    pub fn waited(&mut self) -> (r: CronAction)
        requires
            old(self)@.phase is Waiting,
        ensures
            (final(self)@, r@) == old(self)@.running(),
            final(self)@.sound(),
    {
        self.phase = CronPhase::Running;
        let sender = match &self.cfg.user {
            Some(user) => cat4("cron:", self.cfg.name.as_str(), ":", user.as_str()),
            None => cat2("cron:", self.cfg.name.as_str()),
        };
        if self.targets.len() == 0 {
            CronAction::Dispatch {
                sender,
                content: self.cfg.message.clone(),
                channel: None,
                mode: None,
            }
        } else {
            assert(target_views(self.targets@)[0] == self.targets@[0]@);
            let channel = self.targets[0].channel.clone();
            let content = cat4(
                "[Your response will be delivered to the user via ",
                channel.as_str(),
                ". Your response is delivered automatically.]\n\n",
                self.cfg.message.as_str(),
            );
            CronAction::Dispatch {
                sender,
                content,
                channel: Some(channel),
                mode: Some(self.cfg.effective_delivery_mode()),
            }
        }
    }

    /// Goes on to the target at place `done`.
    fn announce(&mut self, content: String, done: usize, delivered: usize) -> (r: CronAction)
        requires
            delivered <= done <= old(self).targets@.len(),
        ensures
            (final(self)@, r@) == old(self)@.announcing(content@, done as nat, delivered as nat),
            final(self)@.sound(),
    {
        if done < self.targets.len() {
            assert(target_views(self.targets@)[done as int] == self.targets@[done as int]@);
            let session = find_session_for(
                self.agent_id.as_str(),
                &self.origin,
                &self.targets[done],
            );
            self.phase = CronPhase::Announcing { content: content.clone(), done, delivered };
            CronAction::Announce { place: done, content, session }
        } else {
            self.phase = CronPhase::Finished;
            CronAction::Finish {
                result: CronTriggerResult::completed(
                    self.cfg.name.as_str(),
                    content,
                    delivered,
                    self.targets.len(),
                ),
            }
        }
    }

    /// The agent has answered. `active` says whether its conversation has
    /// another turn under way.
    pub fn replied(&mut self, response: String, active: bool) -> (r: CronAction)
        requires
            old(self)@.phase is Running,
        ensures
            (final(self)@, r@) == old(self)@.replied(response@, active),
            final(self)@.sound(),
    {
        if is_blank(response.as_str()) {
            self.phase = CronPhase::Finished;
            let result = if active {
                CronTriggerResult::busy(self.cfg.name.as_str())
            } else {
                CronTriggerResult::completed_empty(self.cfg.name.as_str())
            };
            return CronAction::Finish { result };
        }
        if self.targets.len() == 0 {
            self.phase = CronPhase::Finished;
            return CronAction::Finish {
                result: CronTriggerResult::completed(self.cfg.name.as_str(), response, 0, 0),
            };
        }
        match self.cfg.effective_delivery_mode() {
            CronDeliveryMode::Always => self.announce(response, 0, 0),
            CronDeliveryMode::AsNeeded => match strip_suppression_token(response.as_str()) {
                SuppressionTokenResult::Suppress => {
                    self.phase = CronPhase::Finished;
                    CronAction::Finish {
                        result: CronTriggerResult::suppressed(self.cfg.name.as_str()),
                    }
                },
                SuppressionTokenResult::Deliver(content) => {
                    assert(target_views(self.targets@)[0] == self.targets@[0]@);
                    let channel = self.targets[0].channel.clone();
                    self.phase = CronPhase::Reviewing { content: content.clone() };
                    CronAction::Review { channel: Some(channel), response: content }
                },
            },
        }
    }

    /// It was said whether the answer is worth sending; it is sent where
    /// nothing was said.
    pub fn reviewed(&mut self, verdict: Option<bool>) -> (r: CronAction)
        requires
            old(self)@.phase is Reviewing,
        ensures
            (final(self)@, r@) == old(self)@.reviewed(verdict),
            final(self)@.sound(),
    {
        if let Some(worth) = verdict {
            if !worth {
                self.phase = CronPhase::Finished;
                return CronAction::Finish {
                    result: CronTriggerResult::suppressed(self.cfg.name.as_str()),
                };
            }
        }
        let content = match &self.phase {
            CronPhase::Reviewing { content } => content.clone(),
            _ => String::new(),
        };
        self.announce(content, 0, 0)
    }

    /// The answer was sent to the target it was for, or was not.
    pub fn announced(&mut self, sent: bool) -> (r: CronAction)
        requires
            old(self)@.phase is Announcing,
            old(self)@.sound(),
        ensures
            (final(self)@, r@) == old(self)@.announced(sent),
            final(self)@.sound(),
    {
        let (content, done, delivered) = match &self.phase {
            CronPhase::Announcing { content, done, delivered } => (
                content.clone(),
                *done,
                *delivered,
            ),
            _ => (String::new(), 0usize, 0usize),
        };
        let n: usize = self.targets.len();
        assert(target_views(self.targets@).len() == n);
        let sent_to: usize = if sent {
            delivered + 1
        } else {
            delivered
        };
        self.announce(content, done + 1, sent_to)
    }
}

/// The note that stands before an answer in the conversation with whoever it
/// goes to.
pub open spec fn context_note(name: Seq<char>, message: Seq<char>) -> Seq<char> {
    "[Scheduled: "@ + name + "]\n"@ + message
}

/// What is written into that conversation.
pub open spec fn announcement(
    name: Seq<char>,
    message: Seq<char>,
    output: Seq<char>,
) -> Seq<MessageView> {
    seq![user_text(context_note(name, message)), assistant_text(output)]
}

/// Writes an answer into the conversation with whoever it goes to.
pub fn announce_to_session(
    g: &mut Gateway,
    key: &SessionKey,
    cron_name: &str,
    cron_message: &str,
    cron_output: &str,
)
    requires
        old(g).wf(),
    ensures
        final(g).wf(),
        final(g).same_buffers(old(g)),
        final(g)@ == old(g)@.with_message(
            key@,
            user_text(context_note(cron_name@, cron_message@)),
        ).with_message(key@, assistant_text(cron_output@)),
{
    let note = cat4("[Scheduled: ", cron_name, "]\n", cron_message);
    g.append_message(key, Message::user_saying(note.as_str()));
    g.append_message(key, Message::assistant_saying(cron_output));
}

/// The places of the tasks of a name.
pub open spec fn tasks_named(tasks: Seq<CronConfig>, name: Seq<char>, n: int) -> Seq<int>
    decreases n,
{
    if n <= 0 {
        Seq::empty()
    } else {
        let before = tasks_named(tasks, name, n - 1);
        if tasks[n - 1].name@ == name {
            before.push(n - 1)
        } else {
            before
        }
    }
}

/// The place of the only task of a name.
pub open spec fn only_task(tasks: Seq<CronConfig>, name: Seq<char>) -> Result<int, Seq<char>> {
    let found = tasks_named(tasks, name, tasks.len() as int);
    if found.len() == 0 {
        Err("unknown cron: "@ + name)
    } else if found.len() == 1 {
        Ok(found[0])
    } else {
        Err("cron name '"@ + name + "' is not unique"@)
    }
}

/// Finds the only task of a name.
pub fn find_only_task(tasks: &Vec<CronConfig>, name: &str) -> (r: Result<usize, String>)
    ensures
        match r {
            Ok(i) => i < tasks@.len() && tasks@[i as int].name@ == name@ && only_task(tasks@, name@)
                == Ok::<int, Seq<char>>(i as int),
            Err(e) => only_task(tasks@, name@) == Err::<int, Seq<char>>(e@),
        },
{
    let mut first: usize = 0;
    let mut count: usize = 0;
    for i in 0..tasks.len()
        invariant
            count <= i,
            count == tasks_named(tasks@, name@, i as int).len(),
            count > 0 ==> first < i && tasks@[first as int].name@ == name@ && tasks_named(
                tasks@,
                name@,
                i as int,
            )[0] == first,
    {
        if same_text(tasks[i].name.as_str(), name) {
            if count == 0 {
                first = i;
            }
            count += 1;
        }
    }
    if count == 0 {
        Err(cat2("unknown cron: ", name))
    } else if count == 1 {
        Ok(first)
    } else {
        Err(cat3("cron name '", name, "' is not unique"))
    }
}

/// Finds the task that is asked for by name, and its time zone.
pub fn pick_manual_cron(config: &Config, name: &str, default_zone: Option<&str>) -> (r: Result<
    (usize, String),
    String,
>)
    ensures
        match only_task(config.cron@, name@) {
            Err(e) => r matches Err(error) && error@ == e,
            Ok(i) => match cron_zone(config.cron@[i], config.users@, opt_str_view(default_zone)) {
                Ok(zone) => r matches Ok(found) && found.0 == i && found.1@ == zone,
                Err(e) => r matches Err(error) && error@ == e,
            },
        },
{
    let place = match find_only_task(&config.cron, name) {
        Ok(place) => place,
        Err(error) => return Err(error),
    };
    match resolve_cron_timezone_with_default(&config.cron[place], &config.users, default_zone) {
        Ok(zone) => Ok((place, zone)),
        Err(error) => Err(error),
    }
}

/// Unless a task says so itself, its answers never go to the terminal.
pub proof fn answers_avoid_the_terminal(users: Seq<UserConfig>, cfg: CronConfig, i: int)
    requires
        cfg.deliver is None,
        0 <= i < targets_of(users, cfg).len(),
    ensures
        targets_of(users, cfg)[i].channel != "terminal"@,
{
    let u = user_named(users, cfg.user->0@)->0;
    patterns_avoid_the_terminal(views(u.match_patterns@), u.match_patterns@.len() as int, i);
}

proof fn patterns_avoid_the_terminal(patterns: Seq<Seq<char>>, n: int, i: int)
    requires
        0 <= i < pattern_targets(patterns, n).len(),
    ensures
        pattern_targets(patterns, n)[i].channel != "terminal"@,
    decreases n,
{
    if n > 0 {
        let before = pattern_targets(patterns, n - 1);
        if i < before.len() {
            patterns_avoid_the_terminal(patterns, n - 1, i);
        }
    }
}

/// A run never writes into the conversation that asked for it.
pub proof fn origin_is_never_written_to(
    agent_id: Seq<char>,
    origin: Option<Seq<char>>,
    target: TargetView,
)
    ensures
        session_for(agent_id, origin, target) matches Some(k) ==> origin != Some(key_text(k)),
{
}

/// A run never waits for the conversation that asked for it: it would wait for
/// itself.
pub proof fn origin_is_never_awaited(run: RunView, n: int, i: int)
    requires
        0 <= i < awaited_sessions(run.agent_id, run.origin, run.targets, n).len(),
    ensures
        run.origin != Some(
            key_text(awaited_sessions(run.agent_id, run.origin, run.targets, n)[i]),
        ),
    decreases n,
{
    if n > 0 {
        let before = awaited_sessions(run.agent_id, run.origin, run.targets, n - 1);
        if i < before.len() {
            origin_is_never_awaited(run, n - 1, i);
        }
    }
}

/// A run that is asked for without delivery sends nothing: it ends with its
/// answer.
pub proof fn undelivered_runs_send_nothing(run: RunView, response: Seq<char>, active: bool)
    requires
        run.targets.len() == 0,
    ensures
        run.replied(response, active).1 is Finish,
        trimmed(response).len() > 0 ==> run.replied(response, active) == run.ended(
            answer(run.cfg.name@, response, 0, 0),
        ),
{
}

/// What is reviewed before it is sent is what is left of the answer without
/// suppression tokens at its edges, trimmed and not blank.
pub proof fn reviewed_answers_are_not_blank(run: RunView, response: Seq<char>, active: bool)
    ensures
        run.replied(response, active).0.phase matches CronPhaseView::Reviewing {
            content,
        } ==> deliverable(response) == Some(content) && content.len() > 0 && trimmed(content)
            == content,
{
    crate::heartbeat::delivered_text_is_trimmed(response);
}

/// A run never counts more targets as sent to than there are, from its first
/// target to its last.
pub proof fn deliveries_are_counted(run: RunView, sent: bool)
    requires
        run.sound(),
        run.phase is Announcing,
    ensures
        ({
            let next = run.announced(sent);
            &&& next.0.sound()
            &&& next.1 matches CronActionView::Finish { result } ==> result.delivered_to
                <= result.attempted_to && result.attempted_to == run.targets.len()
        }),
{
}

/// Writing an answer into a conversation whose tool calls are all answered
/// leaves them all answered.
pub proof fn announcing_keeps_pairing(
    history: Seq<MessageView>,
    name: Seq<char>,
    message: Seq<char>,
    output: Seq<char>,
)
    requires
        paired(history),
    ensures
        paired(history + announcement(name, message, output)),
{
    let note = user_text(context_note(name, message));
    let said = assistant_text(output);
    let a = history.push(note);
    paired_push_user(history, note);
    let t = a.push(said);
    assert(history + announcement(name, message, output) =~= t);
    assert forall|k: int| 0 <= k < t.len() implies #[trigger] answered(t, k) by {
        if k < a.len() {
            assert(answered(a, k));
            assert(t[k] == a[k]);
            if k + 1 < a.len() {
                assert(t[k + 1] == a[k + 1]);
            }
        } else {
            assert(said.content[0] is Text);
        }
    }
}

} // verus!
