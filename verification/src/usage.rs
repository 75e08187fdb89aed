//! Token usage that providers report.
use vstd::prelude::*;

use crate::text::copy_opt;

verus! {

/// The tokens of one or more provider calls.
#[derive(Debug, PartialEq, Eq)]
pub struct Usage {
    pub input_tokens: Option<u32>,
    pub output_tokens: Option<u32>,
    pub cache_read_tokens: Option<u32>,
    pub cache_write_tokens: Option<u32>,
    pub stop_reason: Option<String>,
}

/// A sum that stays at the largest `u32` where it would not fit.
pub open spec fn capped(n: int) -> u32 {
    if n > u32::MAX {
        u32::MAX
    } else {
        n as u32
    }
}

/// A count, or zero where there is none.
pub open spec fn count(o: Option<u32>) -> int {
    match o {
        Some(n) => n as int,
        None => 0,
    }
}

/// The sum of two counts; none where both are missing.
pub open spec fn count_sum(a: Option<u32>, b: Option<u32>) -> Option<u32> {
    if a is None && b is None {
        None
    } else {
        Some(capped(count(a) + count(b)))
    }
}

/// A count, or zero where there is none.
pub fn count_of(o: Option<u32>) -> (r: u32)
    ensures
        r == count(o),
{
    match o {
        Some(n) => n,
        None => 0,
    }
}

/// The sum of two counts, none where there is neither.
fn add_counts(a: Option<u32>, b: Option<u32>) -> (r: Option<u32>)
    ensures
        r == count_sum(a, b),
{
    match (a, b) {
        (None, None) => None,
        _ => Some(count_of(a).saturating_add(count_of(b))),
    }
}

impl Clone for Usage {
    fn clone(&self) -> (r: Self)
        ensures
            r == *self,
    {
        Usage {
            input_tokens: self.input_tokens,
            output_tokens: self.output_tokens,
            cache_read_tokens: self.cache_read_tokens,
            cache_write_tokens: self.cache_write_tokens,
            stop_reason: copy_opt(&self.stop_reason),
        }
    }
}

impl Usage {
    /// No tokens at all.
    pub open spec fn zero() -> Usage {
        Usage {
            input_tokens: None,
            output_tokens: None,
            cache_read_tokens: None,
            cache_write_tokens: None,
            stop_reason: None,
        }
    }

    /// The usage of two calls together: counts add up, and the later stop
    /// reason stands.
    pub open spec fn plus(self, other: Usage) -> Usage {
        Usage {
            input_tokens: count_sum(self.input_tokens, other.input_tokens),
            output_tokens: count_sum(self.output_tokens, other.output_tokens),
            cache_read_tokens: count_sum(self.cache_read_tokens, other.cache_read_tokens),
            cache_write_tokens: count_sum(self.cache_write_tokens, other.cache_write_tokens),
            stop_reason: if other.stop_reason is Some {
                other.stop_reason
            } else {
                self.stop_reason
            },
        }
    }

    /// The input tokens that fill the context: fresh, read from the cache and
    /// written to it.
    pub open spec fn context_tokens(self) -> u32 {
        capped(
            capped(count(self.input_tokens) + count(self.cache_read_tokens)) + count(
                self.cache_write_tokens,
            ),
        )
    }

    /// No tokens at all.
    pub fn none() -> (r: Usage)
        ensures
            r == Usage::zero(),
    {
        Usage {
            input_tokens: None,
            output_tokens: None,
            cache_read_tokens: None,
            cache_write_tokens: None,
            stop_reason: None,
        }
    }

    /// Adds the usage of another call.
    pub fn add_usage(&mut self, other: &Usage)
        ensures
            *final(self) == old(self).plus(*other),
    {
        self.input_tokens = add_counts(self.input_tokens, other.input_tokens);
        self.output_tokens = add_counts(self.output_tokens, other.output_tokens);
        self.cache_read_tokens = add_counts(self.cache_read_tokens, other.cache_read_tokens);
        self.cache_write_tokens = add_counts(self.cache_write_tokens, other.cache_write_tokens);
        if other.stop_reason.is_some() {
            self.stop_reason = copy_opt(&other.stop_reason);
        }
    }

    /// The input tokens that fill the context.
    pub fn context_input_tokens(&self) -> (r: u32)
        ensures
            r == self.context_tokens(),
    {
        count_of(self.input_tokens).saturating_add(count_of(self.cache_read_tokens)).saturating_add(
            count_of(self.cache_write_tokens),
        )
    }
}

impl Default for Usage {
    fn default() -> (r: Usage)
        ensures
            r == Usage::zero(),
    {
        Usage::none()
    }
}

/// The usage of two calls together counts the tokens of both, kind by kind, as
/// far as the counters reach, and knows of a kind where either call does.
pub proof fn usages_add_up(a: Usage, b: Usage)
    requires
        count(a.input_tokens) + count(b.input_tokens) <= 0xffff_ffff,
        count(a.output_tokens) + count(b.output_tokens) <= 0xffff_ffff,
        count(a.cache_read_tokens) + count(b.cache_read_tokens) <= 0xffff_ffff,
        count(a.cache_write_tokens) + count(b.cache_write_tokens) <= 0xffff_ffff,
    ensures
        count(a.plus(b).input_tokens) == count(a.input_tokens) + count(b.input_tokens),
        count(a.plus(b).output_tokens) == count(a.output_tokens) + count(b.output_tokens),
        count(a.plus(b).cache_read_tokens) == count(a.cache_read_tokens) + count(
            b.cache_read_tokens,
        ),
        count(a.plus(b).cache_write_tokens) == count(a.cache_write_tokens) + count(
            b.cache_write_tokens,
        ),
        a.plus(b).input_tokens is None <==> a.input_tokens is None && b.input_tokens is None,
        a.plus(b).output_tokens is None <==> a.output_tokens is None && b.output_tokens is None,
        b.stop_reason is Some ==> a.plus(b).stop_reason == b.stop_reason,
        b.stop_reason is None ==> a.plus(b).stop_reason == a.stop_reason,
        forall|n: u32| #[trigger] count(Some(n)) == n,
        count(None) == 0,
{
}

/// What a call reads fills the context, wherever it comes from: fresh, out of
/// the cache or into it. What it writes does not.
pub proof fn everything_read_fills_the_context(u: Usage, more: Option<u32>)
    requires
        count(u.input_tokens) + count(u.cache_read_tokens) + count(u.cache_write_tokens)
            <= 0xffff_ffff,
    ensures
        u.context_tokens() == count(u.input_tokens) + count(u.cache_read_tokens) + count(
            u.cache_write_tokens,
        ),
        (Usage { output_tokens: more, ..u }).context_tokens() == u.context_tokens(),
{
}

} // verus!
