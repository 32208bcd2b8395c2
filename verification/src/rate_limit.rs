//! Pacing of outgoing messages with token buckets: one bucket per chat and one
//! for the whole bot.
//!
//! Time is a monotonic clock in nanoseconds. Balances are counted in grains, of
//! which a token has sixty billion, so that one nanosecond at a rate of one
//! token per minute is exactly one grain.
use crate::table::Table;
use vstd::prelude::*;

verus! {

/// Grains per token.
pub const TOKEN: i128 = 60000000000;

/// Messages that one chat may get at once, and per minute.
pub const CAPACITY: u32 = 20;

pub const REFILL_PER_MINUTE: u32 = 20;

/// Messages that the bot may send at once, and per minute.
pub const GLOBAL_CAPACITY: u32 = 30;

pub const GLOBAL_REFILL_PER_MINUTE: u32 = 1800;

/// The deepest debt, in grains, that a bucket may be in.
pub const MAX_DEBT: i128 = 0x7fff_ffff_ffff_ffff;

/// A token bucket.
#[derive(Clone, Copy, Debug, PartialEq, Eq, Structural)]
pub struct TokenBucket {
    /// The most that accumulates, in grains.
    pub capacity: i128,
    /// Tokens gained per minute, which is grains gained per nanosecond.
    pub rate: u32,
    /// The balance in grains; negative while a debt is being repaid.
    pub tokens: i128,
    /// When the balance was last brought up to date.
    pub last_refill: u64,
}

impl View for TokenBucket {
    type V = TokenBucket;

    open spec fn view(&self) -> TokenBucket {
        *self
    }
}

impl TokenBucket {
    pub open spec fn wf(self) -> bool {
        &&& self.rate > 0
        &&& 0 <= self.capacity <= u32::MAX * TOKEN
        &&& -MAX_DEBT <= self.tokens <= self.capacity
    }

    /// The balance at a time: what was gained since the last refill, up to the
    /// capacity.
    pub open spec fn balance_at(self, now: int) -> int {
        let elapsed = if now > self.last_refill {
            now - self.last_refill
        } else {
            0
        };
        let grown = self.tokens + elapsed * self.rate;
        if grown < self.capacity {
            grown
        } else {
            self.capacity as int
        }
    }

    /// The bucket brought up to date.
    pub open spec fn refilled(self, now: u64) -> TokenBucket {
        TokenBucket { tokens: self.balance_at(now as int) as i128, last_refill: now, ..self }
    }

    /// A full bucket of `capacity` tokens that gains `rate` tokens per minute.
    pub fn new(capacity: u32, rate: u32, now: u64) -> (r: TokenBucket)
        requires
            rate > 0,
        ensures
            r.wf(),
            r.capacity == capacity * TOKEN,
            r.rate == rate,
            r.tokens == r.capacity,
            r.last_refill == now,
    {
        let full: i128 = capacity as i128 * TOKEN;
        TokenBucket { capacity: full, rate, tokens: full, last_refill: now }
    }

    /// Applies the gain since the last refill.
    pub fn refill(&mut self, now: u64)
        requires
            old(self).wf(),
        ensures
            final(self).wf(),
            *final(self) == old(self).refilled(now),
    {
        let elapsed: u64 = if now > self.last_refill {
            now - self.last_refill
        } else {
            0
        };
        let rate = self.rate;
        assert(0 <= elapsed * rate <= 0xffff_ffff_ffff_ffff * 0xffff_ffff) by (nonlinear_arith)
            requires
                elapsed <= 0xffff_ffff_ffff_ffff,
                rate <= 0xffff_ffff,
        ;
        let grown: i128 = self.tokens + elapsed as i128 * rate as i128;
        self.tokens = if grown < self.capacity {
            grown
        } else {
            self.capacity
        };
        self.last_refill = now;
    }

    /// The nanoseconds after which a debt is repaid, rounded up.
    pub open spec fn wait_for(self, debt: int) -> int {
        (debt + self.rate - 1) / (self.rate as int)
    }

    /// Takes `n` tokens and says how many nanoseconds the caller has to wait
    /// before it proceeds. What is missing is taken as debt.
    pub fn acquire(&mut self, n: u32, now: u64) -> (r: u64)
        requires
            old(self).wf(),
            old(self).balance_at(now as int) - n * TOKEN >= -MAX_DEBT,
        ensures
            final(self).wf(),
            *final(self) == (TokenBucket {
                tokens: (old(self).balance_at(now as int) - n * TOKEN) as i128,
                last_refill: now,
                ..*old(self)
            }),
            r == if old(self).balance_at(now as int) >= n * TOKEN {
                0
            } else {
                old(self).wait_for(n * TOKEN - old(self).balance_at(now as int))
            },
    {
        self.refill(now);
        let want: i128 = n as i128 * TOKEN;
        if self.tokens >= want {
            self.tokens = self.tokens - want;
            return 0;
        }
        let debt: i128 = want - self.tokens;
        self.tokens = -debt;
        let rate: i128 = self.rate as i128;
        assert(0 <= (debt + rate - 1) / (rate as int) <= debt) by (nonlinear_arith)
            requires
                debt >= 1,
                rate >= 1,
        ;
        ((debt + rate - 1) / rate) as u64
    }

    /// The balance now.
    pub fn tokens(&self, now: u64) -> (r: i128)
        requires
            self.wf(),
        ensures
            r == self.balance_at(now as int),
    {
        let mut copy = *self;
        copy.refill(now);
        copy.tokens
    }

    /// Whether the bucket is full: nothing was taken recently.
    pub fn is_idle(&self, now: u64) -> (r: bool)
        requires
            self.wf(),
        ensures
            r == (self.balance_at(now as int) >= self.capacity),
    {
        self.tokens(now) >= self.capacity
    }
}

/// Bringing a bucket up to date twice is the same as doing so once.
pub proof fn law_refill_composes(b: TokenBucket, t1: u64, t2: u64)
    requires
        b.wf(),
        b.last_refill <= t1 <= t2,
    ensures
        b.refilled(t1).refilled(t2) == b.refilled(t2),
{
    let r = b.rate as int;
    let e1 = t1 - b.last_refill;
    let e2 = t2 - t1;
    assert((e1 + e2) * r == e1 * r + e2 * r) by (nonlinear_arith);
    assert(0 <= e1 * r <= 0xffff_ffff_ffff_ffff * 0xffff_ffff) by (nonlinear_arith)
        requires
            0 <= e1 <= 0xffff_ffff_ffff_ffff,
            0 <= r <= 0xffff_ffff,
    ;
    assert(0 <= e2 * r <= 0xffff_ffff_ffff_ffff * 0xffff_ffff) by (nonlinear_arith)
        requires
            0 <= e2 <= 0xffff_ffff_ffff_ffff,
            0 <= r <= 0xffff_ffff,
    ;
}

/// By the time the caller of `acquire` proceeds, the refill has repaid its debt.
pub proof fn law_wait_repays_the_debt(b: TokenBucket, debt: int)
    requires
        b.wf(),
        debt >= 0,
    ensures
        b.wait_for(debt) * b.rate >= debt,
        b.wait_for(debt) * b.rate < debt + b.rate,
{
    let r = b.rate as int;
    let w = (debt + r - 1) / r;
    assert(debt <= w * r < debt + r) by (nonlinear_arith)
        requires
            r >= 1,
            w == (debt + r - 1) / r,
    ;
}

/// Pacing. Let `spent` be what was taken since a time `start` at which the bucket
/// held at most its capacity, so that balance and spending together never exceed
/// capacity and gain. After taking `n` more tokens at `now` that still holds, and
/// when the caller proceeds, `wait` later, everything that went out since `start`
/// is within the capacity and the gain up to that moment.
pub proof fn law_sends_are_paced(b: TokenBucket, start: int, spent: int, n: nat, now: int)
    requires
        b.wf(),
        start <= b.last_refill <= now,
        spent + b.tokens <= b.capacity + (b.last_refill - start) * b.rate,
    ensures
        ({
            let after = b.balance_at(now) - n * TOKEN;
            let wait = if after >= 0 {
                0
            } else {
                b.wait_for(-after)
            };
            &&& spent + n * TOKEN + after <= b.capacity + (now - start) * b.rate
            &&& spent + n * TOKEN <= b.capacity + (now + wait - start) * b.rate
        }),
{
    let r = b.rate as int;
    let after = b.balance_at(now) - n * TOKEN;
    let x = b.last_refill - start;
    let y = now - b.last_refill;
    assert((x + y) * r == x * r + y * r) by (nonlinear_arith);
    assert(y * r >= 0) by (nonlinear_arith)
        requires
            y >= 0,
            r >= 0,
    ;
    if after < 0 {
        law_wait_repays_the_debt(b, -after);
        let w = b.wait_for(-after);
        let z = now - start;
        assert((z + w) * r == z * r + w * r) by (nonlinear_arith);
    }
}

// ---- one bucket per chat ----

/// The bucket of a chat, with the number of senders that are using it.
#[derive(Clone, Copy, Debug, PartialEq, Eq, Structural)]
pub struct Limiter {
    pub bucket: TokenBucket,
    pub holders: u32,
}

impl View for Limiter {
    type V = Limiter;

    open spec fn view(&self) -> Limiter {
        *self
    }
}

/// The buckets of all chats that sent something recently.
#[derive(Debug)]
pub struct Limiters {
    pub chats: Table<i64, Limiter>,
}

/// A chat's bucket when the chat is first seen.
pub open spec fn fresh_bucket(now: u64) -> TokenBucket {
    TokenBucket {
        capacity: (CAPACITY * TOKEN) as i128,
        rate: REFILL_PER_MINUTE,
        tokens: (CAPACITY * TOKEN) as i128,
        last_refill: now,
    }
}

impl View for Limiters {
    type V = Map<i64, Limiter>;

    open spec fn view(&self) -> Map<i64, Limiter> {
        self.chats@
    }
}

impl Limiters {
    pub open spec fn wf(&self) -> bool {
        &&& self.chats.wf()
        &&& forall|c: i64| #[trigger] self@.contains_key(c) ==> self@[c].bucket.wf()
    }

    /// The limiter of a chat, or the one it would get.
    pub open spec fn limiter(&self, chat_id: i64, now: u64) -> Limiter {
        if self@.contains_key(chat_id) {
            self@[chat_id]
        } else {
            Limiter { bucket: fresh_bucket(now), holders: 0 }
        }
    }

    pub fn new() -> (r: Limiters)
        ensures
            r.wf(),
            r@ == Map::<i64, Limiter>::empty(),
    {
        Limiters { chats: Table::new() }
    }

    fn current(&self, chat_id: i64, now: u64) -> (r: Limiter)
        requires
            self.wf(),
        ensures
            r == self.limiter(chat_id, now),
            r.bucket.wf(),
    {
        match self.chats.get(&chat_id) {
            Some(limiter) => {
                assert(self@.contains_key(chat_id));
                *limiter
            },
            None => Limiter {
                bucket: TokenBucket::new(CAPACITY, REFILL_PER_MINUTE, now),
                holders: 0,
            },
        }
    }

    /// Lets go of the limiter of a chat.
    pub fn release(&mut self, chat_id: i64)
        requires
            old(self).wf(),
        ensures
            final(self).wf(),
            final(self)@ == if old(self)@.contains_key(chat_id) && old(self)@[chat_id].holders
                > 0 {
                old(self)@.insert(
                    chat_id,
                    Limiter {
                        holders: (old(self)@[chat_id].holders - 1) as u32,
                        ..old(self)@[chat_id]
                    },
                )
            } else {
                old(self)@
            },
    {
        let found: Option<Limiter> = match self.chats.get(&chat_id) {
            Some(limiter) => Some(*limiter),
            None => None,
        };
        if let Some(mut limiter) = found {
            assert(self@.contains_key(chat_id));
            if limiter.holders > 0 {
                limiter.holders = limiter.holders - 1;
                self.chats.insert(chat_id, limiter);
            }
        }
    }

    /// Charges `n` messages to a chat and says how many nanoseconds the sender
    /// has to wait.
    pub fn acquire(&mut self, chat_id: i64, n: u32, now: u64) -> (r: u64)
        requires
            old(self).wf(),
            old(self).limiter(chat_id, now).bucket.balance_at(now as int) - n * TOKEN
                >= -MAX_DEBT,
        ensures
            final(self).wf(),
            ({
                let before = old(self).limiter(chat_id, now);
                let balance = before.bucket.balance_at(now as int);
                &&& final(self)@ == old(self)@.insert(
                    chat_id,
                    Limiter {
                        bucket: TokenBucket {
                            tokens: (balance - n * TOKEN) as i128,
                            last_refill: now,
                            ..before.bucket
                        },
                        ..before
                    },
                )
                &&& r == if balance >= n * TOKEN {
                    0
                } else {
                    before.bucket.wait_for(n * TOKEN - balance)
                }
            }),
    {
        let mut limiter = self.current(chat_id, now);
        let mut bucket = limiter.bucket;
        let wait: u64 = bucket.acquire(n, now);
        limiter.bucket = bucket;
        self.chats.insert(chat_id, limiter);
        wait
    }

    /// A limiter that has to stay: somebody holds it, or it is not full.
    pub open spec fn in_use(l: Limiter, now: u64) -> bool {
        l.holders > 0 || l.bucket.balance_at(now as int) < l.bucket.capacity
    }
}

/// Holds the limiter of a chat, making one on first use, and returns it.
pub fn limiter_for(limiters: &mut Limiters, chat_id: i64, now: u64) -> (r: Limiter)
    requires
        old(limiters).wf(),
        old(limiters).limiter(chat_id, now).holders < u32::MAX,
    ensures
        final(limiters).wf(),
        r == (Limiter {
            holders: (old(limiters).limiter(chat_id, now).holders + 1) as u32,
            ..old(limiters).limiter(chat_id, now)
        }),
        final(limiters)@ == old(limiters)@.insert(chat_id, r),
{
    let mut limiter = limiters.current(chat_id, now);
    limiter.holders = limiter.holders + 1;
    limiters.chats.insert(chat_id, limiter);
    limiter
}

/// Drops the limiters that are full and that nobody holds; returns how many.
pub fn prune_idle(limiters: &mut Limiters, now: u64) -> (r: usize)
    requires
        old(limiters).wf(),
    ensures
        final(limiters).wf(),
        final(limiters)@ == crate::table::kept(old(limiters)@, |l: Limiter| Limiters::in_use(l, now)),
        old(limiters)@.dom().finite(),
        final(limiters)@.dom().finite(),
        r == old(limiters)@.len() - final(limiters)@.len(),
{
    let ghost p = |l: Limiter| Limiters::in_use(l, now);
    let mut keep: Vec<bool> = Vec::new();
    let mut i: usize = 0;
    while i < limiters.chats.entries.len()
        invariant
            limiters.wf(),
            i == keep@.len(),
            i <= limiters.chats.entries@.len(),
            forall|j: int|
                0 <= j < i ==> #[trigger] keep@[j] == Limiters::in_use(
                    limiters.chats.list()[j].1,
                    now,
                ),
        decreases limiters.chats.entries@.len() - i,
    {
        proof {
            crate::table::lemma_entry(limiters.chats.list(), i as int);
            assert(limiters.chats.list()[i as int] == crate::table::seen(
                limiters.chats.entries@[i as int],
            ));
            assert(limiters@.contains_key(limiters.chats.list()[i as int].0));
        }
        let limiter: Limiter = limiters.chats.entries[i].1;
        keep.push(limiter.holders > 0 || !limiter.bucket.is_idle(now));
        i = i + 1;
    }
    let ghost before = limiters@;
    let gone: usize = limiters.chats.retain(&keep, Ghost(p));
    proof {
        assert(forall|c: i64| #[trigger]
            limiters@.contains_key(c) ==> before.contains_key(c) && limiters@[c] == before[c]);
    }
    gone
}

/// The bucket that all chats share.
pub fn global_bucket(now: u64) -> (r: TokenBucket)
    ensures
        r.wf(),
        r.capacity == GLOBAL_CAPACITY * TOKEN,
        r.rate == GLOBAL_REFILL_PER_MINUTE,
        r.tokens == r.capacity,
        r.last_refill == now,
{
    TokenBucket::new(GLOBAL_CAPACITY, GLOBAL_REFILL_PER_MINUTE, now)
}

/// Charges `n` messages to the bucket that all chats share and says how many
/// nanoseconds the sender has to wait.
pub fn acquire_global(bucket: &mut TokenBucket, n: u32, now: u64) -> (r: u64)
    requires
        old(bucket).wf(),
        old(bucket).balance_at(now as int) - n * TOKEN >= -MAX_DEBT,
    ensures
        final(bucket).wf(),
        *final(bucket) == (TokenBucket {
            tokens: (old(bucket).balance_at(now as int) - n * TOKEN) as i128,
            last_refill: now,
            ..*old(bucket)
        }),
        r == if old(bucket).balance_at(now as int) >= n * TOKEN {
            0
        } else {
            old(bucket).wait_for(n * TOKEN - old(bucket).balance_at(now as int))
        },
{
    bucket.acquire(n, now)
}

// ---- laws of the limits ----

/// A chat may get twenty messages at once and one every three seconds from then on; the
/// bot may send thirty at once, and thirty a second.
pub proof fn law_the_limits_are_those_of_the_service(now: u64, b: TokenBucket, n: nat)
    requires
        b.capacity == GLOBAL_CAPACITY * TOKEN,
        b.rate == GLOBAL_REFILL_PER_MINUTE,
    ensures
        fresh_bucket(now).wf(),
        fresh_bucket(now).last_refill == now,
        fresh_bucket(now).balance_at(now as int) == 20 * TOKEN,
        fresh_bucket(now).wait_for(n * TOKEN) == n * 3_000_000_000,
        b.capacity == 30 * TOKEN,
        b.wait_for(30 * n * TOKEN) == n * 1_000_000_000,
{
    let d = n * TOKEN;
    assert(d == n * 60_000_000_000) by (nonlinear_arith)
        requires
            d == n * 60_000_000_000,
    ;
    assert((d + 19) / 20 == n * 3_000_000_000);
    let g = 30 * n * TOKEN;
    assert(g == n * 1_800_000_000_000) by (nonlinear_arith)
        requires
            g == 30 * n * 60_000_000_000,
    ;
    assert((g + 1799) / 1800 == n * 1_000_000_000);
}

/// A bucket gains its rate for each nanosecond that passed and never more than it
/// holds; a clock that was set back gains nothing.
pub proof fn law_buckets_fill_steadily(b: TokenBucket, now: int)
    ensures
        b.balance_at(now) <= b.capacity,
        now <= b.last_refill && b.tokens <= b.capacity ==> b.balance_at(now) == b.tokens,
        now > b.last_refill && b.tokens + (now - b.last_refill) * b.rate <= b.capacity
            ==> b.balance_at(now) == b.tokens + (now - b.last_refill) * b.rate,
        now > b.last_refill && b.tokens + (now - b.last_refill) * b.rate >= b.capacity
            ==> b.balance_at(now) == b.capacity,
{
    assert(0 * b.rate == 0);
}

/// Forgetting a limiter that is not in use changes nothing: a chat that comes back gets
/// what it would have had. One that is held, or that still owes, is not forgotten.
pub proof fn law_only_idle_limiters_are_forgotten(l: Limiter, now: u64)
    requires
        l.bucket.wf(),
        l.bucket.capacity == CAPACITY * TOKEN,
        l.bucket.rate == REFILL_PER_MINUTE,
    ensures
        !Limiters::in_use(l, now) ==> l.bucket.refilled(now) == fresh_bucket(now) && l.holders == 0,
        l.holders > 0 ==> Limiters::in_use(l, now),
        l.bucket.balance_at(now as int) < l.bucket.capacity ==> Limiters::in_use(l, now),
{
}

/// A chat that is known keeps its limiter, and any other starts with a full bucket that
/// nobody holds.
pub proof fn law_chats_keep_their_limiters(l: Limiters, chat: i64, now: u64)
    ensures
        l@.contains_key(chat) ==> l.limiter(chat, now) == l@[chat],
        !l@.contains_key(chat) ==> l.limiter(chat, now).holders == 0 && l.limiter(
            chat,
            now,
        ).bucket.tokens == 20 * TOKEN && l.limiter(chat, now).bucket.capacity == 20 * TOKEN
            && l.limiter(chat, now).bucket.rate == 20 && l.limiter(chat, now).bucket.last_refill
            == now,
{
}

} // verus!
