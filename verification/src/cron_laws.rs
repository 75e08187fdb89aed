//! What a scheduled run does: when it runs, what the agent is asked, and that
//! an answer reaches every place that it is for.
use vstd::prelude::*;

use crate::config::{Config, CronConfig, CronDeliveryMode, UserConfig};
use crate::config_tool::OutputView;
use crate::cron_delivery::{review_prompt, says_yes};
use crate::cron_runner::{
    announcement, awaited_sessions, only_task, pattern_targets, session_for, targets_of,
    tasks_named, CronActionView, CronPhaseView, CronRunTrigger, CronTriggerStatus, ResultView,
    RunView, TargetView,
};
use crate::cron_timezone::{cron_zone, timezone_known, user_named};
use crate::cron_tool::{cron_trust, trigger_answer, trigger_refusal};
use crate::heartbeat::{deliverable, idle, idle_line};
use crate::message::{ContentView, MessageView, Role};
use crate::session::{KeyView, KindView, TrustLevel};
use crate::text::{
    before_colon_is_prefix, colon_splits, decimal, has_text, has_text_splits, opt_view, trimmed,
    upper_ascii, views,
};

verus! {

/// An answer that was reviewed is sent to the first target where the review
/// says yes and where it says nothing; where it says no, the run ends and
/// nothing is sent.
pub proof fn reviews_decide(run: RunView, content: Seq<char>)
    requires
        run.phase == (CronPhaseView::Reviewing { content }),
        run.targets.len() > 0,
    ensures
        ({
            let yes = run.reviewed(Some(true));
            let silent = run.reviewed(None);
            let no = run.reviewed(Some(false));
            &&& yes.1 matches CronActionView::Announce { place, content: c, .. } && place == 0 && c
                == content
            &&& silent.1 matches CronActionView::Announce { place, content: c, .. } && place == 0
                && c == content
            &&& yes.0.phase == (CronPhaseView::Announcing { content, done: 0, delivered: 0 })
            &&& silent.0.phase == (CronPhaseView::Announcing { content, done: 0, delivered: 0 })
            &&& yes.0.targets == run.targets
            &&& silent.0.targets == run.targets
            &&& no.0.phase is Finished
            &&& no.1 == (CronActionView::Finish {
                result: ResultView {
                    cron_name: run.cfg.name@,
                    status: CronTriggerStatus::Suppressed,
                    response: None,
                    delivered_to: 0,
                    attempted_to: 0,
                },
            })
        }),
{
}

/// An answer that is not blank goes to the first target at once where the task
/// always delivers; where it delivers as needed, what is left of the answer is
/// reviewed, and nothing is sent where nothing is left. An answer for nobody is
/// the result.
pub proof fn answers_are_sent_as_set(run: RunView, response: Seq<char>, active: bool)
    requires
        run.phase is Running,
        trimmed(response).len() > 0,
    ensures
        ({
            let next = run.replied(response, active);
            let always = run.cfg.delivery == Some(CronDeliveryMode::Always) || (run.cfg.delivery
                is None && !has_text(run.cfg.message@, "HEARTBEAT.md"@));
            if run.targets.len() == 0 {
                next.1 == (CronActionView::Finish {
                    result: ResultView {
                        cron_name: run.cfg.name@,
                        status: CronTriggerStatus::Completed,
                        response: Some(response),
                        delivered_to: 0,
                        attempted_to: 0,
                    },
                })
            } else if always {
                &&& next.1 matches CronActionView::Announce { place, content, .. } && place == 0
                    && content == response
                &&& next.0.phase == (CronPhaseView::Announcing {
                    content: response,
                    done: 0,
                    delivered: 0,
                })
            } else {
                match deliverable(response) {
                    Some(content) => {
                        &&& next.1 == (CronActionView::Review {
                            channel: Some(run.targets[0].channel),
                            response: content,
                        })
                        &&& next.0.phase == (CronPhaseView::Reviewing { content })
                    },
                    None => next.1 matches CronActionView::Finish { result } && result.status
                        == CronTriggerStatus::Suppressed && result.response is None,
                }
            }
        }),
{
}

/// A blank answer ends a run: it was kept from its work where its conversation
/// has a turn under way, else it had nothing to say.
pub proof fn blank_answers_end_a_run(run: RunView, response: Seq<char>)
    requires
        run.phase is Running,
        trimmed(response).len() == 0,
    ensures
        run.replied(response, true).1 matches CronActionView::Finish { result } && result.status
            == CronTriggerStatus::Busy && result.cron_name == run.cfg.name@ && result.delivered_to
            == 0,
        run.replied(response, false).1 matches CronActionView::Finish { result } && result.status
            == CronTriggerStatus::CompletedEmpty && result.cron_name == run.cfg.name@
            && result.delivered_to == 0,
        run.replied(response, true).0.phase is Finished,
        run.replied(response, false).0.phase is Finished,
{
}

/// An answer goes to one target after the other, the same to each; behind the
/// last the run ends with the answer, the number of targets, and how many it
/// was sent to.
pub proof fn every_target_gets_the_answer(
    run: RunView,
    content: Seq<char>,
    done: nat,
    delivered: nat,
    sent: bool,
)
    requires
        run.phase == (CronPhaseView::Announcing { content, done, delivered }),
        done < run.targets.len(),
    ensures
        ({
            let next = run.announced(sent);
            let count = if sent {
                delivered + 1
            } else {
                delivered
            };
            if done + 1 < run.targets.len() {
                &&& next.0.phase matches CronPhaseView::Announcing {
                    content: c,
                    done: d,
                    delivered: n,
                } && c == content && d == done + 1 && n == count
                &&& next.1 matches CronActionView::Announce { place, content: c, .. } && place
                    == done + 1 && c == content
                &&& next.0.targets == run.targets
            } else {
                &&& next.0.phase is Finished
                &&& next.1 matches CronActionView::Finish { result } && result.cron_name
                    == run.cfg.name@ && result.status == CronTriggerStatus::Completed
                    && result.response == Some(content) && result.delivered_to == count
                    && result.attempted_to == run.targets.len()
            }
        }),
{
}

/// An answer is written into the conversation with whoever it goes to; into
/// none where that is a group, or where the run was asked for there.
pub proof fn answers_are_written_where_they_go(
    agent_id: Seq<char>,
    origin: Option<Seq<char>>,
    channel: Seq<char>,
    target: Seq<char>,
    rest: Seq<char>,
)
    ensures
        session_for(agent_id, origin, TargetView { channel, target: "group:"@ + rest }) is None,
        origin == Some(agent_id + ":"@ + ("dm:"@ + (channel + ":"@ + target))) ==> session_for(
            agent_id,
            origin,
            TargetView { channel, target },
        ) is None,
        origin != Some(agent_id + ":"@ + ("dm:"@ + (channel + ":"@ + target)))
            && !(exists|x: Seq<char>| target == #[trigger] ("group:"@ + x)) ==> session_for(
            agent_id,
            origin,
            TargetView { channel, target },
        ) == Some(KeyView { agent_id, kind: KindView::Dm(channel + ":"@ + target) }),
{
    let g = "group:"@;
    assert((g + rest).subrange(0, g.len() as int) =~= g);
    assert(g.is_prefix_of(g + rest));
    if g.is_prefix_of(target) {
        let x = target.skip(g.len() as int);
        assert(g + x =~= target);
        assert(target == g + x);
    }
}

proof fn awaited_holds(run: RunView, n: int, i: int)
    requires
        0 <= i < n <= run.targets.len(),
        session_for(run.agent_id, run.origin, run.targets[i]) is Some,
    ensures
        awaited_sessions(run.agent_id, run.origin, run.targets, n).contains(
            session_for(run.agent_id, run.origin, run.targets[i])->0,
        ),
    decreases n,
{
    let before = awaited_sessions(run.agent_id, run.origin, run.targets, n - 1);
    let all = awaited_sessions(run.agent_id, run.origin, run.targets, n);
    let k = session_for(run.agent_id, run.origin, run.targets[i])->0;
    if i == n - 1 {
        assert(all.last() == k);
    } else {
        awaited_holds(run, n - 1, i);
        let q = choose|q: int| 0 <= q < before.len() && before[q] == k;
        assert(all[q] == k);
    }
}

proof fn awaited_comes_from(run: RunView, n: int, q: int) -> (i: int)
    requires
        n <= run.targets.len(),
        0 <= q < awaited_sessions(run.agent_id, run.origin, run.targets, n).len(),
    ensures
        0 <= i < n,
        session_for(run.agent_id, run.origin, run.targets[i]) == Some(
            awaited_sessions(run.agent_id, run.origin, run.targets, n)[q],
        ),
    decreases n,
{
    let before = awaited_sessions(run.agent_id, run.origin, run.targets, n - 1);
    if q < before.len() {
        awaited_comes_from(run, n - 1, q)
    } else {
        n - 1
    }
}

/// A run is turned down where its conversation has a turn under way; a task
/// that speaks of the heartbeat file reads it first; any other waits for every
/// conversation that its answer is written into, and for no other.
pub proof fn runs_begin_as_they_should(run: RunView, i: int)
    requires
        0 <= i < run.targets.len(),
    ensures
        run.begin(true).1 matches CronActionView::Finish { result } && result.status
            == CronTriggerStatus::Busy && result.cron_name == run.cfg.name@ && result.response
            is None,
        run.begin(true).0.phase is Finished,
        has_text(run.cfg.message@, "HEARTBEAT.md"@) ==> run.begin(false).1
            == CronActionView::ReadHeartbeat && run.begin(false).0.phase is Heartbeat,
        !has_text(run.cfg.message@, "HEARTBEAT.md"@) ==> {
            &&& run.begin(false).0.phase is Waiting
            &&& run.begin(false).1 matches CronActionView::Wait { sessions } && {
                &&& session_for(run.agent_id, run.origin, run.targets[i]) matches Some(k)
                    ==> sessions.contains(k)
                &&& forall|q: int|
                    0 <= q < sessions.len() ==> exists|j: int|
                        0 <= j < run.targets.len() && session_for(
                            run.agent_id,
                            run.origin,
                            #[trigger] run.targets[j],
                        ) == Some(#[trigger] sessions[q])
            }
        },
{
    if session_for(run.agent_id, run.origin, run.targets[i]) is Some {
        awaited_holds(run, run.targets.len() as int, i);
    }
    let s = awaited_sessions(run.agent_id, run.origin, run.targets, run.targets.len() as int);
    assert forall|q: int| 0 <= q < s.len() implies exists|j: int|
        0 <= j < run.targets.len() && session_for(
            run.agent_id,
            run.origin,
            #[trigger] run.targets[j],
        ) == Some(#[trigger] s[q]) by {
        let j = awaited_comes_from(run, run.targets.len() as int, q);
        assert(session_for(run.agent_id, run.origin, run.targets[j]) == Some(s[q]));
    }
}

/// A heartbeat file with nothing to do ends a run; one that asks for something,
/// and one that cannot be read, do not.
pub proof fn heartbeats_decide(run: RunView, content: Seq<char>)
    requires
        run.phase is Heartbeat,
    ensures
        idle(content) ==> (run.heartbeat(Some(content)).1 matches CronActionView::Finish { result }
            && result.status == CronTriggerStatus::SkippedHeartbeat && result.cron_name
            == run.cfg.name@),
        !idle(content) ==> run.heartbeat(Some(content)).1 is Wait && run.heartbeat(
            Some(content),
        ).0.phase is Waiting,
        run.heartbeat(None).1 is Wait,
        run.heartbeat(None).0.phase is Waiting,
{
}

/// Blank lines, headings and list items without text ask for nothing; every
/// other line does.
pub proof fn lines_that_ask_for_nothing(line: Seq<char>)
    ensures
        idle_line(line) <==> trimmed(line).len() == 0 || trimmed(line)[0] == '#' || trimmed(line)
            == seq!['-'] || (trimmed(line).len() == 5 && trimmed(line)[0] == '-' && trimmed(line)[1]
            == ' ' && trimmed(line)[2] == '[' && (trimmed(line)[3] == ' ' || trimmed(line)[3] == 'x'
            || trimmed(line)[3] == 'X') && trimmed(line)[4] == ']'),
{
    let t = trimmed(line);
    reveal_strlit("#");
    reveal_strlit("-");
    reveal_strlit("- [ ]");
    reveal_strlit("- [x]");
    reveal_strlit("- [X]");
    assert("-"@ =~= seq!['-']);
    if t.len() > 0 {
        assert(t.subrange(0, 1)[0] == t[0]);
        if t[0] == '#' {
            assert("#"@ =~= t.subrange(0, 1));
        }
    }
    if t.len() == 5 && t[0] == '-' && t[1] == ' ' && t[2] == '[' && t[4] == ']' {
        if t[3] == ' ' {
            assert(t =~= "- [ ]"@);
        }
        if t[3] == 'x' {
            assert(t =~= "- [x]"@);
        }
        if t[3] == 'X' {
            assert(t =~= "- [X]"@);
        }
    }
}

/// The agent is asked the task's message, from a sender that names the task and
/// its user; where the answer is sent out, it is told where to first.
pub proof fn agents_are_asked_the_message(run: RunView)
    requires
        run.phase is Waiting,
    ensures
        run.running().0.phase is Running,
        run.running().0.targets == run.targets,
        run.running().1 matches CronActionView::Dispatch { sender, content, channel, mode } && {
            &&& run.cfg.user is None ==> sender == "cron:"@ + run.cfg.name@
            &&& run.cfg.user is Some ==> sender == "cron:"@ + run.cfg.name@ + ":"@
                + run.cfg.user->0@
            &&& run.targets.len() == 0 ==> content == run.cfg.message@ && channel is None && mode
                is None
            &&& run.targets.len() > 0 ==> {
                &&& channel == Some(run.targets[0].channel)
                &&& run.cfg.delivery is Some ==> mode == run.cfg.delivery
                &&& run.cfg.delivery is None ==> mode == Some(
                    if has_text(run.cfg.message@, "HEARTBEAT.md"@) {
                        CronDeliveryMode::AsNeeded
                    } else {
                        CronDeliveryMode::Always
                    },
                )
                &&& content.len() > run.cfg.message@.len()
                &&& content.skip(content.len() - run.cfg.message@.len()) == run.cfg.message@
                &&& has_text(content, "via "@ + run.targets[0].channel + ". "@)
            }
        },
{
    if run.targets.len() > 0 {
        let a = "[Your response will be delivered to the user via "@;
        let b = ". Your response is delivered automatically.]\n\n"@;
        let m = run.cfg.message@;
        let ch = run.targets[0].channel;
        let content = a + ch + b + m;
        reveal_strlit("[Your response will be delivered to the user via ");
        reveal_strlit(". Your response is delivered automatically.]\n\n");
        reveal_strlit("via ");
        reveal_strlit(". ");
        assert(content.skip(content.len() - m.len()) =~= m);
        let p = "via "@ + ch + ". "@;
        let head = a.take(a.len() - 4);
        let tail = b.skip(2) + m;
        assert(head + p + tail =~= content);
        has_text_splits(content, p);
    }
}

/// Where a task says where its answers go, they go there and nowhere else.
pub proof fn set_targets_are_used(users: Seq<UserConfig>, cfg: CronConfig)
    ensures
        cfg.deliver matches Some(d) ==> targets_of(users, cfg) == seq![
            TargetView { channel: d.channel@, target: d.target@ },
        ],
        cfg.deliver is None && cfg.user is None ==> targets_of(users, cfg).len() == 0,
{
}

proof fn pattern_gives_target(
    patterns: Seq<Seq<char>>,
    n: int,
    i: int,
    a: Seq<char>,
    b: Seq<char>,
)
    requires
        0 <= i < n <= patterns.len(),
        patterns[i] == a + ":"@ + b,
        forall|k: int| 0 <= k < a.len() ==> a[k] != ':',
        a != "terminal"@,
    ensures
        pattern_targets(patterns, n).contains(TargetView { channel: a, target: b }),
    decreases n,
{
    let before = pattern_targets(patterns, n - 1);
    let all = pattern_targets(patterns, n);
    let x = TargetView { channel: a, target: b };
    if i == n - 1 {
        colon_splits(a, b);
        assert(all.last() == x);
    } else {
        pattern_gives_target(patterns, n - 1, i, a, b);
        let q = choose|q: int| 0 <= q < before.len() && before[q] == x;
        assert(all[q] == x);
    }
}

proof fn target_has_pattern(patterns: Seq<Seq<char>>, n: int, q: int) -> (i: int)
    requires
        n <= patterns.len(),
        0 <= q < pattern_targets(patterns, n).len(),
    ensures
        0 <= i < n,
        patterns[i] == pattern_targets(patterns, n)[q].channel + ":"@ + pattern_targets(
            patterns,
            n,
        )[q].target,
    decreases n,
{
    let before = pattern_targets(patterns, n - 1);
    if q < before.len() {
        target_has_pattern(patterns, n - 1, q)
    } else {
        before_colon_is_prefix(patterns[n - 1]);
        n - 1
    }
}

proof fn patterns_before(a: Seq<Seq<char>>, b: Seq<Seq<char>>, n: int)
    requires
        n <= a.len(),
        n <= b.len(),
        forall|i: int| 0 <= i < n ==> a[i] == b[i],
    ensures
        pattern_targets(a, n) == pattern_targets(b, n),
    decreases n,
{
    if n > 0 {
        patterns_before(a, b, n - 1);
    }
}

/// The places of a user are those of their patterns, in order.
pub proof fn targets_follow_the_patterns(
    patterns: Seq<Seq<char>>,
    channel: Seq<char>,
    target: Seq<char>,
)
    requires
        forall|k: int| 0 <= k < channel.len() ==> channel[k] != ':',
    ensures
        pattern_targets(
            patterns.push(channel + ":"@ + target),
            (patterns.len() + 1) as int,
        ) == (if channel == "terminal"@ {
            pattern_targets(patterns, patterns.len() as int)
        } else {
            pattern_targets(patterns, patterns.len() as int).push(TargetView { channel, target })
        }),
        pattern_targets(patterns.push(channel), (patterns.len() + 1) as int) == pattern_targets(
            patterns,
            patterns.len() as int,
        ),
        pattern_targets(patterns, 0).len() == 0,
{
    let n = patterns.len() as int;
    colon_splits(channel, target);
    patterns_before(patterns, patterns.push(channel + ":"@ + target), n);
    patterns_before(patterns, patterns.push(channel), n);
}

/// The answers of a task for a user go to every place but the terminal at which
/// the user is found, and to no other.
pub proof fn users_are_reached_everywhere(
    users: Seq<UserConfig>,
    cfg: CronConfig,
    u: UserConfig,
    i: int,
    channel: Seq<char>,
    target: Seq<char>,
)
    requires
        cfg.deliver is None,
        cfg.user is Some,
        user_named(users, cfg.user->0@) == Some(u),
    ensures
        0 <= i < u.match_patterns@.len() && u.match_patterns@[i]@ == channel + ":"@ + target && (
        forall|k: int| 0 <= k < channel.len() ==> channel[k] != ':') && channel != "terminal"@
            ==> targets_of(users, cfg).contains(TargetView { channel, target }),
        0 <= i < targets_of(users, cfg).len() ==> exists|j: int|
            0 <= j < u.match_patterns@.len() && (#[trigger] u.match_patterns@[j])@ == targets_of(
                users,
                cfg,
            )[i].channel + ":"@ + targets_of(users, cfg)[i].target,
{
    let p = views(u.match_patterns@);
    let n = u.match_patterns@.len() as int;
    if 0 <= i < n && u.match_patterns@[i]@ == channel + ":"@ + target && (forall|k: int|
        0 <= k < channel.len() ==> channel[k] != ':') && channel != "terminal"@ {
        assert(p[i] == u.match_patterns@[i]@);
        pattern_gives_target(p, n, i, channel, target);
    }
    if 0 <= i < targets_of(users, cfg).len() {
        let j = target_has_pattern(p, n, i);
        assert(p[j] == u.match_patterns@[j]@);
    }
}

/// A user is found by name: the first of that name, and none only where nobody
/// has it.
pub proof fn users_are_found_by_name(users: Seq<UserConfig>, name: Seq<char>, i: int)
    ensures
        0 <= i < users.len() && users[i].name@ == name && (forall|j: int|
            0 <= j < i ==> (#[trigger] users[j]).name@ != name) ==> user_named(users, name) == Some(
            users[i],
        ),
        (forall|j: int| 0 <= j < users.len() ==> (#[trigger] users[j]).name@ != name)
            ==> user_named(users, name) is None,
    decreases users.len(),
{
    if users.len() > 0 && users[0].name@ != name {
        users_are_found_by_name(users.skip(1), name, i - 1);
        assert forall|j: int| 0 <= j < users.len() - 1 implies #[trigger] users.skip(1)[j]
            == users[j + 1] by {}
    }
}

proof fn tasks_named_are(tasks: Seq<CronConfig>, name: Seq<char>, n: int)
    requires
        0 <= n <= tasks.len(),
    ensures
        forall|q: int|
            0 <= q < tasks_named(tasks, name, n).len() ==> 0 <= #[trigger] tasks_named(
                tasks,
                name,
                n,
            )[q] < n && tasks[tasks_named(tasks, name, n)[q]].name@ == name,
        forall|q: int, r: int|
            0 <= q < r < tasks_named(tasks, name, n).len() ==> #[trigger] tasks_named(
                tasks,
                name,
                n,
            )[q] < #[trigger] tasks_named(tasks, name, n)[r],
        forall|i: int|
            0 <= i < n && (#[trigger] tasks[i]).name@ == name ==> tasks_named(
                tasks,
                name,
                n,
            ).contains(i),
    decreases n,
{
    if n > 0 {
        tasks_named_are(tasks, name, n - 1);
        let before = tasks_named(tasks, name, n - 1);
        let all = tasks_named(tasks, name, n);
        assert forall|i: int| 0 <= i < n && (#[trigger] tasks[i]).name@ == name implies all.contains(
            i,
        ) by {
            if i == n - 1 {
                assert(all.last() == i);
            } else {
                let q = choose|q: int| 0 <= q < before.len() && before[q] == i;
                assert(all[q] == i);
            }
        }
    }
}

/// A task is found by name where exactly one has it.
pub proof fn tasks_are_found_by_name(tasks: Seq<CronConfig>, name: Seq<char>, i: int, j: int)
    requires
        0 <= i < tasks.len(),
        0 <= j < tasks.len(),
    ensures
        tasks[i].name@ == name && (forall|k: int|
            0 <= k < tasks.len() && k != i ==> (#[trigger] tasks[k]).name@ != name) ==> only_task(
            tasks,
            name,
        ) == Ok::<int, Seq<char>>(i),
        i != j && tasks[i].name@ == name && tasks[j].name@ == name ==> only_task(tasks, name)
            == Err::<int, Seq<char>>("cron name '"@ + name + "' is not unique"@),
        (forall|k: int| 0 <= k < tasks.len() ==> (#[trigger] tasks[k]).name@ != name) ==> only_task(
            tasks,
            name,
        ) == Err::<int, Seq<char>>("unknown cron: "@ + name),
{
    let n = tasks.len() as int;
    tasks_named_are(tasks, name, n);
    let found = tasks_named(tasks, name, n);
    if tasks[i].name@ == name {
        assert(found.contains(i));
        let q = choose|q: int| 0 <= q < found.len() && found[q] == i;
        if tasks[j].name@ == name && i != j {
            assert(found.contains(j));
            let r = choose|r: int| 0 <= r < found.len() && found[r] == j;
            assert(q != r);
        }
        if forall|k: int| 0 <= k < tasks.len() && k != i ==> (#[trigger] tasks[k]).name@ != name {
            assert(found[0] == i) by {
                assert(tasks[found[0]].name@ == name);
            }
            if found.len() > 1 {
                assert(tasks[found[1]].name@ == name);
                assert(found[0] < found[1]);
            }
        }
    }
    if found.len() > 0 {
        assert(tasks[found[0]].name@ == name);
    }
}

/// An answer is written into a conversation behind a note that names the task
/// and gives its message.
pub proof fn answers_follow_a_note(name: Seq<char>, message: Seq<char>, output: Seq<char>)
    ensures
        announcement(name, message, output) == seq![
            MessageView {
                role: Role::User,
                content: seq![
                    ContentView::Text { text: "[Scheduled: "@ + name + "]\n"@ + message },
                ],
            },
            MessageView {
                role: Role::Assistant,
                content: seq![ContentView::Text { text: output }],
            },
        ],
{
}

/// A review allows delivery exactly where its text, but for white space in
/// front, begins with a yes, in whatever letters.
pub proof fn reviews_say_yes(response: Seq<char>)
    ensures
        says_yes(response) <==> {
            let t = trimmed(response);
            t.len() >= 3 && (t[0] == 'Y' || t[0] == 'y') && (t[1] == 'E' || t[1] == 'e') && (t[2]
                == 'S' || t[2] == 's')
        },
{
    let t = trimmed(response);
    let u = upper_ascii(t);
    reveal_strlit("YES");
    if t.len() >= 3 {
        assert(u.subrange(0, 3)[0] == u[0]);
        assert(u.subrange(0, 3)[1] == u[1]);
        assert(u.subrange(0, 3)[2] == u[2]);
        if u[0] == 'Y' && u[1] == 'E' && u[2] == 'S' {
            assert("YES"@ =~= u.subrange(0, 3));
        }
    }
}

/// A review is asked with the task's own instructions where it has some, and is
/// shown the channel, the task and the message, each between its tags.
pub proof fn reviews_are_shown_everything(
    channel: Seq<char>,
    message: Seq<char>,
    proposed: Seq<char>,
    instructions: Seq<char>,
)
    ensures
        ({
            let p = review_prompt(Some(channel), message, proposed, Some(instructions));
            &&& instructions.is_prefix_of(p)
            &&& has_text(p, "<delivery_channel>\n"@ + channel + "\n</delivery_channel>"@)
            &&& has_text(p, "<scheduled_task>\n"@ + message + "\n</scheduled_task>"@)
            &&& has_text(p, "<proposed_message>\n"@ + proposed + "\n</proposed_message>"@)
        }),
        review_prompt(None, message, proposed, Some(instructions)) == review_prompt(
            Some("messaging"@),
            message,
            proposed,
            Some(instructions),
        ),
{
    let p = review_prompt(Some(channel), message, proposed, Some(instructions));
    let a = "\n\n<delivery_channel>\n"@;
    let b = "\n</delivery_channel>\n\n<scheduled_task>\n"@;
    let c = "\n</scheduled_task>\n\n<proposed_message>\n"@;
    let d = "\n</proposed_message>"@;
    reveal_strlit("\n\n<delivery_channel>\n");
    reveal_strlit("\n</delivery_channel>\n\n<scheduled_task>\n");
    reveal_strlit("\n</scheduled_task>\n\n<proposed_message>\n");
    reveal_strlit("\n</proposed_message>");
    reveal_strlit("<delivery_channel>\n");
    reveal_strlit("\n</delivery_channel>");
    reveal_strlit("<scheduled_task>\n");
    reveal_strlit("\n</scheduled_task>");
    reveal_strlit("<proposed_message>\n");
    let x = "<delivery_channel>\n"@ + channel + "\n</delivery_channel>"@;
    let y = "<scheduled_task>\n"@ + message + "\n</scheduled_task>"@;
    let z = "<proposed_message>\n"@ + proposed + "\n</proposed_message>"@;
    assert(instructions + a + channel + b + message + c + proposed + d =~= p);
    assert((instructions + "\n\n"@) + x + ("\n\n<scheduled_task>\n"@ + message + c + proposed + d)
        =~= p) by {
        reveal_strlit("\n\n");
        reveal_strlit("\n\n<scheduled_task>\n");
        assert(a =~= "\n\n"@ + "<delivery_channel>\n"@);
        assert(b =~= "\n</delivery_channel>"@ + "\n\n<scheduled_task>\n"@);
    }
    assert((instructions + a + channel + "\n</delivery_channel>\n\n"@) + y
        + ("\n\n<proposed_message>\n"@ + proposed + d) =~= p) by {
        reveal_strlit("\n</delivery_channel>\n\n");
        reveal_strlit("\n\n<proposed_message>\n");
        assert(b =~= "\n</delivery_channel>\n\n"@ + "<scheduled_task>\n"@);
        assert(c =~= "\n</scheduled_task>"@ + "\n\n<proposed_message>\n"@);
    }
    assert((instructions + a + channel + b + message + "\n</scheduled_task>\n\n"@) + z
        + Seq::<char>::empty() =~= p) by {
        reveal_strlit("\n</scheduled_task>\n\n");
        assert(c =~= "\n</scheduled_task>\n\n"@ + "<proposed_message>\n"@);
    }
    has_text_splits(p, x);
    has_text_splits(p, y);
    has_text_splits(p, z);
    assert(p.subrange(0, instructions.len() as int) =~= instructions);
}

/// A task runs with the trust of the user it is for, and with full trust where
/// it is for no one that is known.
pub proof fn tasks_run_with_their_users_trust(users: Seq<UserConfig>, name: Seq<char>, i: int)
    ensures
        cron_trust(users, None) == TrustLevel::Full,
        0 <= i < users.len() && users[i].name@ == name && (forall|j: int|
            0 <= j < i ==> (#[trigger] users[j]).name@ != name) ==> cron_trust(users, Some(name))
            == users[i].trust,
        (forall|j: int| 0 <= j < users.len() ==> (#[trigger] users[j]).name@ != name)
            ==> cron_trust(users, Some(name)) == TrustLevel::Full,
{
    users_are_found_by_name(users, name, i);
}

/// A task is run at once exactly for those who are trusted enough for tasks and
/// for this one, who do not ask from a task's own conversation, and who name a
/// task that there is once.
pub proof fn tasks_are_run_for_the_trusted(
    config: Config,
    name: Seq<char>,
    trust: TrustLevel,
    kind: KindView,
)
    ensures
        trust == TrustLevel::Familiar || trust == TrustLevel::Public ==> trigger_refusal(
            config,
            name,
            trust,
            kind,
        ) == Some(
            OutputView {
                content: "cron_trigger requires Full or Inner trust level"@,
                is_error: true,
            },
        ),
        kind is Cron && trust != TrustLevel::Familiar && trust != TrustLevel::Public
            ==> trigger_refusal(config, name, trust, kind) == Some(
            OutputView {
                content: "cron_trigger cannot be used from a cron session"@,
                is_error: true,
            },
        ),
        !(kind is Cron) && trust != TrustLevel::Familiar && trust != TrustLevel::Public
            ==> match only_task(config.cron@, name) {
            Err(e) => trigger_refusal(config, name, trust, kind) == Some(
                OutputView { content: e, is_error: true },
            ),
            Ok(i) => {
                let owed = cron_trust(config.users@, opt_view(config.cron@[i].user));
                let too_low = (owed == TrustLevel::Owner && trust != TrustLevel::Owner) || (owed
                    == TrustLevel::Full && trust == TrustLevel::Inner);
                &&& too_low ==> (trigger_refusal(config, name, trust, kind) matches Some(o)
                    && o.is_error)
                &&& !too_low ==> trigger_refusal(config, name, trust, kind) is None
            },
        },
{
}

/// The caller of a run is told its answer, whole, and where it went; an error
/// only where the task was already running.
pub proof fn callers_are_told_the_answer(r: ResultView, deliver: bool)
    ensures
        trigger_answer(r, deliver).is_error <==> r.status == CronTriggerStatus::Busy,
        r.status == CronTriggerStatus::Completed && r.response is Some ==> {
            let c = trigger_answer(r, deliver).content;
            let s = r.response->0;
            &&& c.len() >= s.len()
            &&& c.skip(c.len() - s.len()) == s
        },
        r.status == CronTriggerStatus::Completed && deliver && r.delivered_to > 0
            ==> "Cron '"@ + r.cron_name + "' completed and delivered to "@ + decimal(r.delivered_to)
            + " target(s).\n\n"@ == trigger_answer(
            ResultView { response: None, ..r },
            deliver,
        ).content,
        r.status == CronTriggerStatus::Completed && deliver && r.delivered_to == 0
            && r.attempted_to > 0 ==> "Cron '"@ + r.cron_name
            + "' completed, but delivery failed for all "@ + decimal(r.attempted_to)
            + " target(s).\n\n"@ == trigger_answer(
            ResultView { response: None, ..r },
            deliver,
        ).content,
        r.status == CronTriggerStatus::Completed && !deliver ==> "Cron '"@ + r.cron_name
            + "' completed.\n\n"@ == trigger_answer(
            ResultView { response: None, ..r },
            deliver,
        ).content,
        r.status == CronTriggerStatus::Suppressed ==> trigger_answer(r, deliver).content
            == "Cron '"@ + r.cron_name
            + "' ran, but delivery was suppressed because no action was needed."@,
        r.status == CronTriggerStatus::SkippedHeartbeat ==> trigger_answer(r, deliver).content
            == "Cron '"@ + r.cron_name + "' was skipped because HEARTBEAT.md is empty."@,
        r.status == CronTriggerStatus::CompletedEmpty ==> trigger_answer(r, deliver).content
            == "Cron '"@ + r.cron_name + "' completed, but it returned an empty response."@,
        r.status == CronTriggerStatus::Busy ==> trigger_answer(r, deliver).content == "Cron '"@
            + r.cron_name + "' is already running."@,
{
    let c = trigger_answer(r, deliver).content;
    if r.status == CronTriggerStatus::Completed && r.response is Some {
        let s = r.response->0;
        assert(c.skip(c.len() - s.len()) =~= s);
    }
    let none = trigger_answer(ResultView { response: None, ..r }, deliver).content;
    assert(none + Seq::<char>::empty() =~= none);
    if r.status == CronTriggerStatus::Completed && deliver && r.delivered_to > 0 {
        assert("Cron '"@ + r.cron_name + "' completed and delivered to "@ + decimal(r.delivered_to)
            + " target(s).\n\n"@ =~= none);
    } else if r.status == CronTriggerStatus::Completed && deliver && r.attempted_to > 0 {
        assert("Cron '"@ + r.cron_name + "' completed, but delivery failed for all "@ + decimal(
            r.attempted_to,
        ) + " target(s).\n\n"@ =~= none);
    } else if r.status == CronTriggerStatus::Completed && !deliver {
        assert("Cron '"@ + r.cron_name + "' completed.\n\n"@ =~= none);
    }
}

/// A task runs in its own time zone, else in that of its user, else in that of
/// the machine, else in universal time; a zone that is not known is an error
/// that says whose it is.
pub proof fn zones_are_inherited(
    entry: CronConfig,
    users: Seq<UserConfig>,
    default: Option<Seq<char>>,
    u: UserConfig,
)
    ensures
        entry.timezone matches Some(z) ==> cron_zone(entry, users, default) == (if timezone_known(
            z@,
        ) {
            Ok::<Seq<char>, Seq<char>>(z@)
        } else {
            Err("cron '"@ + entry.name@ + "' has invalid timezone"@)
        }),
        entry.timezone is None && entry.user is Some && user_named(users, entry.user->0@) == Some(u)
            && u.timezone is Some ==> cron_zone(entry, users, default) == (if timezone_known(
            u.timezone->0@,
        ) {
            Ok::<Seq<char>, Seq<char>>(u.timezone->0@)
        } else {
            Err(
                "cron '"@ + entry.name@ + "' inherits timezone from user '"@ + entry.user->0@
                    + "'"@,
            )
        }),
        entry.timezone is None && (entry.user is None || user_named(users, entry.user->0@) is None
            || (user_named(users, entry.user->0@) == Some(u) && u.timezone is None)) ==> {
            &&& default matches Some(z) ==> cron_zone(entry, users, default) == Ok::<
                Seq<char>,
                Seq<char>,
            >(z)
            &&& default is None ==> cron_zone(entry, users, default) == Ok::<Seq<char>, Seq<char>>(
                "UTC"@,
            )
        },
{
}

/// A scheduled run sends its answers out and has no origin; one that was asked
/// for sends them where it was told to, and remembers where.
pub proof fn triggers_say_whether_to_send(trigger: CronRunTrigger)
    ensures
        trigger is Scheduled ==> trigger.delivers() && trigger.origin() is None,
        trigger matches CronRunTrigger::Manual { deliver, origin_session_id } ==> trigger.delivers()
            == deliver && trigger.origin() == Some(origin_session_id@),
{
}

} // verus!
