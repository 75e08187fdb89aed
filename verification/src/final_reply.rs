//! What happens when a turn ends without a reply.
use vstd::prelude::*;

use crate::config::CronDeliveryMode;
use crate::group_trigger::SILENT_REPLY_TOKEN;
use crate::text::{
    before_colon, cat3, is_blank, opt_str_view, opt_view, same_text, split_at_colon, trimmed,
};

verus! {

/// Which turns must end with a reply.
#[derive(Clone, Copy, Debug, PartialEq, Eq, Structural)]
pub enum FinalReplyPolicy {
    /// A reply is not required.
    Optional,
    /// A Signal conversation.
    Signal,
    /// A scheduled message that is always delivered.
    CronAlways,
    /// A scheduled message that is delivered when needed.
    CronAsNeeded,
}

/// Stands before the silent reply token in the prompt for a Signal reply.
pub const SIGNAL_REPAIR_START: &'static str = "Your previous turn ended without the final Signal reply. Reply now with exactly one short, non-empty final message for the user. Do not use tools. Do not explain your reasoning. If higher-priority instructions in this conversation explicitly require a suppression token such as ";

/// Stands behind the silent reply token in the prompt for a Signal reply.
pub const SIGNAL_REPAIR_END: &'static str = ", reply with that token exactly. Otherwise, do not stay silent.";

/// Asks for the scheduled message.
pub const CRON_ALWAYS_REPAIR: &'static str = "Your previous turn ended without the scheduled message to deliver. Reply now with exactly one non-empty final message to deliver to the user. Do not use tools. Do not explain your reasoning. Do not reply with NO_ACTION_NEEDED.";

/// Asks for the scheduled output.
pub const CRON_AS_NEEDED_REPAIR: &'static str = "Your previous turn ended without the final scheduled output. Reply now with exactly one of the following: (1) NO_ACTION_NEEDED if nothing should be delivered, or (2) the non-empty message to deliver. Do not use tools. Do not explain your reasoning.";

/// The policy of a turn: a scheduled turn goes by its delivery mode, any other
/// by whether its channel belongs to Signal.
pub open spec fn turn_policy(
    channel: Option<Seq<char>>,
    mode: Option<CronDeliveryMode>,
) -> FinalReplyPolicy {
    match mode {
        Some(CronDeliveryMode::Always) => FinalReplyPolicy::CronAlways,
        Some(CronDeliveryMode::AsNeeded) => FinalReplyPolicy::CronAsNeeded,
        None => if channel is Some && before_colon(channel->0) == "signal"@ {
            FinalReplyPolicy::Signal
        } else {
            FinalReplyPolicy::Optional
        },
    }
}

impl FinalReplyPolicy {
    /// The policy of a turn: a scheduled turn goes by its delivery mode, any
    /// other by whether its channel belongs to Signal.
    pub fn for_turn(channel: Option<&str>, cron_delivery_mode: Option<CronDeliveryMode>) -> (r:
        Self)
        ensures
            r == turn_policy(opt_str_view(channel), cron_delivery_mode),
    {
        match cron_delivery_mode {
            Some(CronDeliveryMode::Always) => FinalReplyPolicy::CronAlways,
            Some(CronDeliveryMode::AsNeeded) => FinalReplyPolicy::CronAsNeeded,
            None => match channel {
                Some(c) => {
                    let family = split_at_colon(c).0;
                    if same_text(family.as_str(), "signal") {
                        FinalReplyPolicy::Signal
                    } else {
                        FinalReplyPolicy::Optional
                    }
                },
                None => FinalReplyPolicy::Optional,
            },
        }
    }

    /// Whether a blank text has to be repaired.
    pub open spec fn wants_repair(self, text: Seq<char>) -> bool {
        self != FinalReplyPolicy::Optional && trimmed(text).len() == 0
    }

    /// The prompt that asks for the missing reply.
    pub open spec fn repair_text(self) -> Option<Seq<char>> {
        match self {
            FinalReplyPolicy::Optional => None,
            FinalReplyPolicy::Signal => Some(
                SIGNAL_REPAIR_START@ + SILENT_REPLY_TOKEN@ + SIGNAL_REPAIR_END@,
            ),
            FinalReplyPolicy::CronAlways => Some(CRON_ALWAYS_REPAIR@),
            FinalReplyPolicy::CronAsNeeded => Some(CRON_AS_NEEDED_REPAIR@),
        }
    }

    /// The reply that stands in where asking did not help.
    pub open spec fn fallback(self) -> Option<Seq<char>> {
        match self {
            FinalReplyPolicy::Signal => Some("Done."@),
            FinalReplyPolicy::CronAlways => Some("Completed."@),
            _ => None,
        }
    }

    /// Whether a text has to be repaired.
    pub fn needs_repair(self, text: &str) -> (r: bool)
        ensures
            r == self.wants_repair(text@),
    {
        self != FinalReplyPolicy::Optional && is_blank(text)
    }

    /// The prompt that asks for the missing reply.
    pub fn repair_prompt(self) -> (r: Option<String>)
        ensures
            opt_view(r) == self.repair_text(),
    {
        match self {
            FinalReplyPolicy::Optional => None,
            FinalReplyPolicy::Signal => Some(
                cat3(SIGNAL_REPAIR_START, SILENT_REPLY_TOKEN, SIGNAL_REPAIR_END),
            ),
            FinalReplyPolicy::CronAlways => Some(CRON_ALWAYS_REPAIR.to_owned()),
            FinalReplyPolicy::CronAsNeeded => Some(CRON_AS_NEEDED_REPAIR.to_owned()),
        }
    }

    /// The reply that stands in where asking did not help.
    pub fn fallback_text(self) -> (r: Option<&'static str>)
        ensures
            opt_str_view(r) == self.fallback(),
    {
        match self {
            FinalReplyPolicy::Signal => Some("Done."),
            FinalReplyPolicy::CronAlways => Some("Completed."),
            FinalReplyPolicy::CronAsNeeded => None,
            FinalReplyPolicy::Optional => None,
        }
    }

    /// The policy's name.
    pub fn as_str(self) -> (r: &'static str)
        ensures
            r@ == (match self {
                FinalReplyPolicy::Optional => "none"@,
                FinalReplyPolicy::Signal => "signal"@,
                FinalReplyPolicy::CronAlways => "cron_always"@,
                FinalReplyPolicy::CronAsNeeded => "cron_as_needed"@,
            }),
    {
        match self {
            FinalReplyPolicy::Optional => "none",
            FinalReplyPolicy::Signal => "signal",
            FinalReplyPolicy::CronAlways => "cron_always",
            FinalReplyPolicy::CronAsNeeded => "cron_as_needed",
        }
    }
}

/// A policy that repairs a reply can ask for one, and one that cannot ask has
/// nothing that stands in.
pub proof fn repair_has_a_prompt(p: FinalReplyPolicy, text: Seq<char>)
    ensures
        p.wants_repair(text) ==> p.repair_text() is Some,
        p.repair_text() is None ==> p.fallback() is None,
{
}

/// Only a blank reply is asked for again, and only where a reply is owed: on
/// Signal and in scheduled turns.
pub proof fn only_blank_replies_are_repaired(p: FinalReplyPolicy, text: Seq<char>)
    ensures
        p.wants_repair(text) <==> trimmed(text).len() == 0 && (p == FinalReplyPolicy::Signal || p
            == FinalReplyPolicy::CronAlways || p == FinalReplyPolicy::CronAsNeeded),
{
}

/// A scheduled turn owes what its delivery mode says, whatever its channel; any
/// other turn owes a reply exactly on a channel of Signal, with an address
/// behind a colon or without.
pub proof fn turns_owe_by_mode_and_channel(
    channel: Option<Seq<char>>,
    mode: Option<CronDeliveryMode>,
    address: Seq<char>,
)
    ensures
        mode == Some(CronDeliveryMode::Always) ==> turn_policy(channel, mode)
            == FinalReplyPolicy::CronAlways,
        mode == Some(CronDeliveryMode::AsNeeded) ==> turn_policy(channel, mode)
            == FinalReplyPolicy::CronAsNeeded,
        turn_policy(None, None) == FinalReplyPolicy::Optional,
        turn_policy(Some("signal"@), None) == FinalReplyPolicy::Signal,
        turn_policy(Some("signal"@ + ":"@ + address), None) == FinalReplyPolicy::Signal,
        channel matches Some(c) ==> !"signal"@.is_prefix_of(c) ==> turn_policy(channel, None)
            == FinalReplyPolicy::Optional,
{
    reveal_strlit("signal");
    reveal_strlit(":");
    crate::text::colon_splits("signal"@, address);
    if let Some(c) = channel {
        crate::text::before_colon_is_prefix(c);
    }
}

} // verus!
