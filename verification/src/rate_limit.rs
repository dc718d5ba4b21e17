//! A rate-limiting layer: a fixed budget of requests per time window.
//! Time enters as an argument — the caller reads the clock — so the
//! decision itself is pure state logic.

use vstd::prelude::*;

use crate::headers::HeaderView;
use crate::num::{dec_digits, write_dec};
use crate::response::Response;
use crate::service::{Layer, Service};

verus! {

/// A budget: this many requests per window of `per_ms` milliseconds.
#[derive(Debug, Clone, Copy, PartialEq, Eq, Structural)]
pub struct Rate {
    pub requests: usize,
    pub per_ms: u64,
}

/// The layer that wraps a service in a `RateLimitService`.
pub struct RateLimitLayer {
    pub rate: Rate,
}

impl<S> Layer<S> for RateLimitLayer {
    type Service = RateLimitService<S>;

    fn wrap(&self, inner: S) -> Self::Service {
        RateLimitService { rate: self.rate, inner, remaining: self.rate.requests, until: None }
    }
}

/// What the limiter says about one request: let it through, or answer
/// `429 Too Many Requests` with the window's end as the reset time.
#[derive(Debug, Clone, Copy, PartialEq, Eq, Structural)]
pub enum RateDecision {
    Allow,
    Reject { limit: usize, reset_ms: u64 },
}

/// A service wrapped with a request budget.
pub struct RateLimitService<S> {
    pub inner: S,
    pub rate: Rate,
    pub remaining: usize,
    pub until: Option<u64>,
}

impl<S: Service> Service for RateLimitService<S> {
    type Context = S::Context;

    type Error = S::Error;
}

impl<S> RateLimitService<S> {
    /// Decides one request arriving at `now_ms`: inside a running window
    /// the budget must not be spent, else the request is rejected until
    /// the window ends; outside any window a new window starts.  Each
    /// allowed request spends one unit of budget.
    pub fn decide(&mut self, now_ms: u64) -> (r: RateDecision)
        requires
            now_ms + old(self).rate.per_ms <= u64::MAX,
            old(self).remaining >= 1 || (old(self).until matches Some(u) && now_ms < u),
        ensures
            final(self).rate == old(self).rate,
            match old(self).until {
                Some(u) => if now_ms < u {
                    if old(self).remaining < 1 {
                        r == (RateDecision::Reject {
                            limit: old(self).rate.requests,
                            reset_ms: u,
                        }) && *final(self) == *old(self)
                    } else {
                        r == RateDecision::Allow && final(self).remaining == old(self).remaining
                            - 1 && final(self).until == old(self).until
                    }
                } else {
                    r == RateDecision::Allow && final(self).remaining == old(self).remaining - 1
                        && final(self).until == Some((now_ms + old(self).rate.per_ms) as u64)
                },
                None => r == RateDecision::Allow && final(self).remaining == old(self).remaining
                    - 1 && final(self).until == Some((now_ms + old(self).rate.per_ms) as u64),
            },
    {
        let in_window = match self.until {
            Some(u) => now_ms < u,
            None => false,
        };
        if in_window {
            let u = match self.until {
                Some(u) => u,
                None => 0,  // unreachable: the window test above saw Some
            };
            if self.remaining < 1 {
                RateDecision::Reject { limit: self.rate.requests, reset_ms: u }
            } else {
                self.remaining = self.remaining - 1;
                RateDecision::Allow
            }
        } else {
            self.remaining = self.remaining - 1;
            self.until = Some(now_ms + self.rate.per_ms);
            RateDecision::Allow
        }
    }
}

/// The header name `x-ratelimit-limit`.
pub open spec fn name_limit() -> Seq<u8> {
    seq![120u8, 45, 114, 97, 116, 101, 108, 105, 109, 105, 116, 45, 108, 105, 109, 105, 116]
}

/// The header name `x-ratelimit-remaining`.
pub open spec fn name_remaining() -> Seq<u8> {
    seq![120u8, 45, 114, 97, 116, 101, 108, 105, 109, 105, 116, 45, 114, 101, 109, 97, 105, 110, 105, 110, 103]
}

/// The header name `x-ratelimit-reset`.
pub open spec fn name_reset() -> Seq<u8> {
    seq![120u8, 45, 114, 97, 116, 101, 108, 105, 109, 105, 116, 45, 114, 101, 115, 101, 116]
}

/// The `429 Too Many Requests` answer for a rejected request: an empty
/// body and the three `x-ratelimit-*` headers, with the reset time given
/// in whole seconds.
pub fn limit_response(limit: usize, reset_ms: u64) -> (r: Response)
    requires
        limit <= u64::MAX,
    ensures
        r@.status == 429,
        !r@.upgrade,
        r@.body.length_known,
        r@.body.bytes == Seq::<u8>::empty(),
        r@.headers == seq![
            HeaderView { name: name_limit(), value: dec_digits(limit as nat) },
            HeaderView { name: name_remaining(), value: seq![48u8] },
            HeaderView { name: name_reset(), value: dec_digits((reset_ms / 1000) as nat) },
        ],
{
    let mut res = Response::new(429);
    let limit_name = [120u8, 45, 114, 97, 116, 101, 108, 105, 109, 105, 116, 45, 108, 105, 109, 105, 116];
    proof {
        assert(limit_name@ =~= name_limit());
    }
    let mut limit_value: Vec<u8> = Vec::new();
    write_dec(limit as u64, &mut limit_value);
    let mut name: Vec<u8> = Vec::new();
    crate::push_bytes(&mut name, limit_name.as_slice());
    res.append_header(name, limit_value);
    let remaining_name = [120u8, 45, 114, 97, 116, 101, 108, 105, 109, 105, 116, 45, 114, 101, 109, 97, 105, 110, 105, 110, 103];
    proof {
        assert(remaining_name@ =~= name_remaining());
    }
    let mut name2: Vec<u8> = Vec::new();
    crate::push_bytes(&mut name2, remaining_name.as_slice());
    let mut zero: Vec<u8> = Vec::new();
    zero.push(48);
    res.append_header(name2, zero);
    let reset_name = [120u8, 45, 114, 97, 116, 101, 108, 105, 109, 105, 116, 45, 114, 101, 115, 101, 116];
    proof {
        assert(reset_name@ =~= name_reset());
    }
    let mut name3: Vec<u8> = Vec::new();
    crate::push_bytes(&mut name3, reset_name.as_slice());
    let mut reset_value: Vec<u8> = Vec::new();
    write_dec(reset_ms / 1000, &mut reset_value);
    res.append_header(name3, reset_value);
    proof {
        assert(zero@ =~= seq![48u8]);
        assert(res@.headers =~= seq![
            HeaderView { name: name_limit(), value: dec_digits(limit as nat) },
            HeaderView { name: name_remaining(), value: seq![48u8] },
            HeaderView { name: name_reset(), value: dec_digits((reset_ms / 1000) as nat) },
        ]);
    }
    res
}

} // verus!
