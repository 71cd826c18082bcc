//! The subscribers of one output stream, and the fan-out of each line to them.
use vstd::prelude::*;
use std::sync::mpsc::{Receiver, Sender};
use crate::channel::{deliver, open_channel};

verus! {

/// The entries of `s` whose position is not listed in `gone`, in their order.
pub open spec fn survivors<A>(s: Seq<A>, gone: Seq<usize>) -> Seq<A>
    decreases s.len(),
{
    if s.len() == 0 {
        Seq::empty()
    } else {
        let rest = survivors(s.drop_last(), gone);
        if gone.contains((s.len() - 1) as usize) {
            rest
        } else {
            rest.push(s.last())
        }
    }
}

/// `v` lists positions below `n`, each once, in increasing order.
pub open spec fn increasing_below(v: Seq<usize>, n: int) -> bool {
    &&& forall|i: int, j: int| 0 <= i < j < v.len() ==> v[i] < v[j]
    &&& forall|i: int| 0 <= i < v.len() ==> v[i] < n
}

/// `survivors` looks only at the positions that `s` has.
proof fn lemma_survivors_agree<A>(s: Seq<A>, g1: Seq<usize>, g2: Seq<usize>)
    requires
        forall|i: usize|
            #![trigger g1.contains(i)]
            #![trigger g2.contains(i)]
            (i as int) < s.len() ==> (g1.contains(i) <==> g2.contains(i)),
    ensures
        survivors(s, g1) == survivors(s, g2),
    decreases s.len(),
{
    if s.len() > 0 {
        lemma_survivors_agree(s.drop_last(), g1, g2);
    }
}

/// The step of `survivors` at the end of a prefix.
proof fn lemma_survivors_take<A>(s: Seq<A>, gone: Seq<usize>, i: int)
    requires
        0 <= i < s.len(),
    ensures
        survivors(s.take(i + 1), gone) == if gone.contains(i as usize) {
            survivors(s.take(i), gone)
        } else {
            survivors(s.take(i), gone).push(s[i])
        },
{
    assert(s.take(i + 1).drop_last() =~= s.take(i));
}

/// The destinations of one output stream. Each subscriber is known by a
/// ticket, handed out in order of registration; the registry keeps, as ghost
/// state, every line it has broadcast, the point at which each subscriber
/// joined, and the lines recorded as accepted by each subscriber's channel.
pub struct SubscriberRegistry {
    senders: Vec<Sender<String>>,
    tickets: Ghost<Seq<nat>>,
    next: Ghost<nat>,
    channels: Ghost<spec_fn(nat) -> Sender<String>>,
    history: Ghost<Seq<Seq<char>>>,
    joined: Ghost<spec_fn(nat) -> nat>,
    received: Ghost<spec_fn(nat) -> Seq<Seq<char>>>,
}

impl SubscriberRegistry {
    /// The tickets of the current subscribers, in order of registration.
    pub closed spec fn tickets(&self) -> Seq<nat> {
        self.tickets@
    }

    /// The ticket that the next subscriber will get.
    pub closed spec fn next_ticket(&self) -> nat {
        self.next@
    }

    /// The channel that subscriber `t` registered.
    pub closed spec fn channel(&self, t: nat) -> Sender<String> {
        (self.channels@)(t)
    }

    /// Every line broadcast so far, in order.
    pub closed spec fn history(&self) -> Seq<Seq<char>> {
        self.history@
    }

    /// How many lines had been broadcast when subscriber `t` registered.
    pub closed spec fn joined(&self, t: nat) -> nat {
        (self.joined@)(t)
    }

    /// The lines recorded as accepted by subscriber `t`'s channel, in order:
    /// a broadcast adds its line for each subscriber whose delivery was
    /// reported accepted.
    pub closed spec fn received(&self, t: nat) -> Seq<Seq<char>> {
        (self.received@)(t)
    }

    /// Subscriber `t` is still registered.
    pub open spec fn is_live(&self, t: nat) -> bool {
        self.tickets().contains(t)
    }

    /// The registry's invariant: one channel per current subscriber, each the
    /// one it registered; tickets distinct and already handed out; and every
    /// current subscriber has received exactly the lines broadcast since it
    /// joined.
    pub closed spec fn wf(&self) -> bool {
        &&& self.senders@.len() == self.tickets@.len()
        &&& forall|i: int, j: int|
            0 <= i < j < self.tickets@.len() ==> self.tickets@[i] != self.tickets@[j]
        &&& forall|i: int| 0 <= i < self.tickets@.len() ==> self.tickets@[i] < self.next@
        &&& forall|i: int|
            0 <= i < self.tickets@.len() ==> self.senders@[i] == (self.channels@)(
                self.tickets@[i],
            )
        &&& forall|t: nat| #[trigger]
            self.tickets@.contains(t) ==> (self.joined@)(t) <= self.history@.len()
                && (self.received@)(t) == self.history@.subrange(
                (self.joined@)(t) as int,
                self.history@.len() as int,
            )
    }

    /// An empty registry, before any line.
    pub fn new() -> (r: SubscriberRegistry)
        ensures
            r.wf(),
            r.tickets() == Seq::<nat>::empty(),
            r.next_ticket() == 0,
            r.history() == Seq::<Seq<char>>::empty(),
    {
        SubscriberRegistry {
            senders: Vec::new(),
            tickets: Ghost(Seq::empty()),
            next: Ghost(0),
            channels: Ghost(|t: nat| arbitrary()),
            history: Ghost(Seq::empty()),
            joined: Ghost(|t: nat| 0),
            received: Ghost(|t: nat| Seq::empty()),
        }
    }

    /// The number of current subscribers.
    pub fn len(&self) -> (r: usize)
        requires
            self.wf(),
        ensures
            r == self.tickets().len(),
    {
        self.senders.len()
    }

    /// `after` is `before` with one more subscriber, whose channel is `tx`.
    pub open spec fn registration(
        before: SubscriberRegistry,
        after: SubscriberRegistry,
        tx: Sender<String>,
    ) -> bool {
        let t = before.next_ticket();
        &&& after.tickets() == before.tickets().push(t)
        &&& after.next_ticket() == t + 1
        &&& after.history() == before.history()
        &&& after.channel(t) == tx
        &&& after.joined(t) == before.history().len()
        &&& after.received(t) == Seq::<Seq<char>>::empty()
        &&& forall|u: nat|
            u != t ==> #[trigger] after.joined(u) == before.joined(u) && after.received(u)
                == before.received(u) && after.channel(u) == before.channel(u)
    }

    /// Registers `tx` as a destination for every line broadcast from now on.
    pub fn register(&mut self, tx: Sender<String>)
        requires
            old(self).wf(),
        ensures
            final(self).wf(),
            Self::registration(*old(self), *final(self), tx),
    {
        let ghost t = self.next@;
        let ghost h = self.history@;
        let ghost channels = self.channels@;
        let ghost joined = self.joined@;
        let ghost received = self.received@;
        self.senders.push(tx);
        self.tickets = Ghost(self.tickets@.push(t));
        self.next = Ghost(t + 1);
        self.channels = Ghost(|u: nat| if u == t { tx } else { channels(u) });
        self.joined = Ghost(|u: nat| if u == t { h.len() } else { joined(u) });
        self.received = Ghost(|u: nat| if u == t { Seq::empty() } else { received(u) });
        assert forall|t2: nat| #[trigger] self.tickets@.contains(t2) implies (self.joined@)(t2)
            <= self.history@.len() && (self.received@)(t2) == self.history@.subrange(
            (self.joined@)(t2) as int,
            self.history@.len() as int,
        ) by {
            if t2 != t {
                let k = choose|k: int| 0 <= k < self.tickets@.len() && self.tickets@[k] == t2;
                assert(old(self).tickets@[k] == t2);
                assert(old(self).tickets@.contains(t2));
            }
        }
    }

    /// Opens a new channel, registers its sending end and returns its
    /// receiving end, which gets every line broadcast from now on.
    pub fn subscribe(&mut self) -> (rx: Receiver<String>)
        requires
            old(self).wf(),
        ensures
            final(self).wf(),
            exists|tx: Sender<String>| Self::registration(*old(self), *final(self), tx),
    {
        let (tx, rx) = open_channel();
        self.register(tx);
        rx
    }

    /// `after` is `before` once `line` has been offered to every subscriber:
    /// those reported to have refused it, at the positions `failed`, are
    /// gone, and every other one is recorded as having received it.
    pub open spec fn broadcast_step(
        before: SubscriberRegistry,
        after: SubscriberRegistry,
        line: Seq<char>,
        failed: Seq<usize>,
    ) -> bool {
        &&& after.history() == before.history().push(line)
        &&& after.next_ticket() == before.next_ticket()
        &&& increasing_below(failed, before.tickets().len() as int)
        &&& after.tickets() == survivors(before.tickets(), failed)
        &&& after.tickets().len() + failed.len() == before.tickets().len()
        &&& forall|i: int|
            0 <= i < before.tickets().len() ==> (after.is_live(#[trigger] before.tickets()[i])
                <==> !failed.contains(i as usize))
        &&& forall|t: nat|
            #[trigger] after.joined(t) == before.joined(t) && after.channel(t) == before.channel(t)
        &&& forall|t: nat|
            #[trigger] after.received(t) == if after.is_live(t) {
                before.received(t).push(line)
            } else {
                before.received(t)
            }
    }

    /// Offers `line` to every subscriber, in order of registration, and once
    /// the whole pass is over removes those whose channel refused it (their
    /// receiver is gone). Returns their positions.
    pub fn broadcast(&mut self, line: &String) -> (failed: Vec<usize>)
        requires
            old(self).wf(),
        ensures
            final(self).wf(),
            Self::broadcast_step(*old(self), *final(self), line@, failed@),
    {
        let n = self.senders.len();
        let mut delivered: Vec<bool> = Vec::new();
        let mut i: usize = 0;
        while i < n
            invariant
                self.wf(),
                n == self.tickets().len(),
                i <= n,
                delivered@.len() == i,
            decreases n - i,
        {
            delivered.push(deliver(&self.senders[i], line.clone()));
            i = i + 1;
        }
        self.retain_delivered(line, &delivered)
    }

    /// Completes the broadcast of `line`, given for each subscriber, in order
    /// of registration, whether its channel accepted it. Those whose channel
    /// accepted it stay and have received it; the others are removed, and
    /// their positions are returned.
    pub fn retain_delivered(&mut self, line: &String, delivered: &Vec<bool>) -> (failed: Vec<usize>)
        requires
            old(self).wf(),
            delivered@.len() == old(self).tickets().len(),
        ensures
            final(self).wf(),
            Self::broadcast_step(*old(self), *final(self), line@, failed@),
            forall|i: int|
                0 <= i < delivered@.len() ==> (#[trigger] failed@.contains(i as usize)
                    <==> !delivered@[i]),
    {
        let ghost orig = self.tickets@;
        let ghost orig_senders = self.senders@;
        let ghost channels = self.channels@;
        let ghost received0 = self.received@;
        let ghost h0 = self.history@;
        let ghost joined = self.joined@;
        let mut rest: Vec<Sender<String>> = Vec::new();
        std::mem::swap(&mut self.senders, &mut rest);
        let n = rest.len();
        let mut stack: Vec<Sender<String>> = Vec::new();
        while rest.len() > 0
            invariant
                n == orig_senders.len(),
                rest@.len() + stack@.len() == n,
                rest@ == orig_senders.take(rest@.len() as int),
                forall|j: int| 0 <= j < stack@.len() ==> stack@[j] == orig_senders[n - 1 - j],
            decreases rest@.len(),
        {
            let s = rest.pop().unwrap();
            stack.push(s);
            assert(rest@ =~= orig_senders.take(rest@.len() as int));
        }
        let mut kept: Vec<Sender<String>> = Vec::new();
        let mut failed: Vec<usize> = Vec::new();
        let ghost mut kt: Seq<nat> = Seq::empty();
        let ghost mut kpos: Seq<int> = Seq::empty();
        let ghost mut received = received0;
        let mut i: usize = 0;
        while i < n
            invariant
                old(self).wf(),
                orig == old(self).tickets@,
                orig_senders == old(self).senders@,
                channels == old(self).channels@,
                received0 == old(self).received@,
                n == orig_senders.len(),
                i <= n,
                stack@.len() == n - i,
                forall|j: int| 0 <= j < stack@.len() ==> stack@[j] == orig_senders[n - 1 - j],
                kept@.len() == kt.len(),
                kt.len() == kpos.len(),
                forall|k: int| 0 <= k < kt.len() ==> 0 <= #[trigger] kpos[k] < i,
                forall|k: int, l: int| 0 <= k < l < kpos.len() ==> kpos[k] < kpos[l],
                forall|k: int| 0 <= k < kt.len() ==> kt[k] == orig[#[trigger] kpos[k]],
                forall|k: int| 0 <= k < kt.len() ==> kept@[k] == channels(#[trigger] kt[k]),
                kt == survivors(orig.take(i as int), failed@),
                increasing_below(failed@, i as int),
                delivered@.len() == n,
                forall|j: int|
                    0 <= j < i ==> (#[trigger] failed@.contains(j as usize) <==> !delivered@[j]),
                kt.len() + failed@.len() == i,
                forall|j: int|
                    0 <= j < i ==> (kt.contains(#[trigger] orig[j]) <==> !failed@.contains(
                        j as usize,
                    )),
                forall|t: nat|
                    #[trigger] received(t) == if kt.contains(t) {
                        received0(t).push(line@)
                    } else {
                        received0(t)
                    },
            decreases n - i,
        {
            let s = stack.pop().unwrap();
            proof {
                lemma_survivors_take(orig, failed@, i as int);
            }
            if delivered[i] {
                proof {
                    assert(!failed@.contains(i));
                    assert(!kt.contains(orig[i as int])) by {
                        if kt.contains(orig[i as int]) {
                            let k = choose|k: int| 0 <= k < kt.len() && kt[k] == orig[i as int];
                            assert(kt[k] == orig[kpos[k]]);
                        }
                    }
                    let t0 = orig[i as int];
                    let r = received;
                    received = |t: nat| if t == t0 { received0(t).push(line@) } else { r(t) };
                    kt = kt.push(t0);
                    kpos = kpos.push(i as int);
                    assert forall|j: int| 0 <= j < i + 1 implies (kt.contains(#[trigger] orig[j])
                        <==> !failed@.contains(j as usize)) by {
                        if j < i {
                            assert(orig[j] != orig[i as int]);
                            assert(kt.contains(orig[j]) == kt.drop_last().contains(orig[j])) by {
                                if kt.contains(orig[j]) {
                                    let k = choose|k: int| 0 <= k < kt.len() && kt[k] == orig[j];
                                    assert(kt.drop_last()[k] == orig[j]);
                                }
                            }
                        } else {
                            assert(kt[kt.len() - 1] == orig[j]);
                        }
                    }
                    assert forall|t: nat|
                        #[trigger] received(t) == if kt.contains(t) {
                            received0(t).push(line@)
                        } else {
                            received0(t)
                        } by {
                        if t != t0 {
                            assert(kt.contains(t) == kt.drop_last().contains(t)) by {
                                if kt.contains(t) {
                                    let k = choose|k: int| 0 <= k < kt.len() && kt[k] == t;
                                    assert(kt.drop_last()[k] == t);
                                }
                            }
                        } else {
                            assert(kt[kt.len() - 1] == t);
                        }
                    }
                }
                kept.push(s);
            } else {
                proof {
                    let fp = failed@.push(i);
                    assert(fp[fp.len() - 1] == i);
                    lemma_survivors_take(orig, fp, i as int);
                    assert forall|j: usize| (j as int) < orig.take(i as int).len() implies (
                    failed@.contains(j) <==> fp.contains(j)) by {
                        if fp.contains(j) {
                            let k = choose|k: int| 0 <= k < fp.len() && fp[k] == j;
                            assert(k < failed@.len());
                            assert(failed@[k] == j);
                        }
                        if failed@.contains(j) {
                            let k = choose|k: int| 0 <= k < failed@.len() && failed@[k] == j;
                            assert(fp[k] == j);
                        }
                    }
                    lemma_survivors_agree(orig.take(i as int), failed@, fp);
                    assert(!kt.contains(orig[i as int])) by {
                        if kt.contains(orig[i as int]) {
                            let k = choose|k: int| 0 <= k < kt.len() && kt[k] == orig[i as int];
                            assert(kt[k] == orig[kpos[k]]);
                        }
                    }
                    assert(fp.contains(i));
                }
                failed.push(i);
            }
            i = i + 1;
        }
        proof {
            assert(orig.take(n as int) =~= orig);
            assert forall|k: int, l: int| 0 <= k < l < kt.len() implies kt[k] != kt[l] by {
                assert(kt[k] == orig[kpos[k]]);
                assert(kt[l] == orig[kpos[l]]);
            }
            assert forall|k: int| 0 <= k < kt.len() implies kt[k] < old(self).next@ by {
                assert(kt[k] == orig[kpos[k]]);
            }
            assert forall|t: nat| #[trigger] kt.contains(t) implies joined(t) <= h0.len() + 1
                && received(t) == h0.push(line@).subrange(joined(t) as int, h0.len() + 1 as int) by {
                let k = choose|k: int| 0 <= k < kt.len() && kt[k] == t;
                assert(kt[k] == orig[kpos[k]]);
                assert(orig.contains(t));
                assert(h0.push(line@).subrange(joined(t) as int, h0.len() + 1 as int) =~= h0.subrange(
                    joined(t) as int,
                    h0.len() as int,
                ).push(line@));
            }
        }
        self.senders = kept;
        self.tickets = Ghost(kt);
        self.history = Ghost(h0.push(line@));
        self.received = Ghost(received);
        failed
    }
}

/// Lines arrive in order and all of them: a subscriber that registered when
/// the lines `before` had been broadcast, and is still registered once `lines`
/// have followed, has received exactly `lines`, in their order.
pub proof fn lemma_in_order_delivery(
    reg: SubscriberRegistry,
    t: nat,
    before: Seq<Seq<char>>,
    lines: Seq<Seq<char>>,
)
    requires
        reg.wf(),
        reg.is_live(t),
        reg.joined(t) == before.len(),
        reg.history() == before + lines,
    ensures
        reg.received(t) == lines,
{
    assert(reg.history().subrange(before.len() as int, reg.history().len() as int) =~= lines);
}

/// No replay: of the lines broadcast before a subscriber registered, none
/// reaches it; the `i`-th line it receives is the `i`-th broadcast after it
/// joined.
pub proof fn lemma_no_replay(reg: SubscriberRegistry, t: nat)
    requires
        reg.wf(),
        reg.is_live(t),
    ensures
        reg.received(t).len() == reg.history().len() - reg.joined(t),
        forall|i: int|
            0 <= i < reg.received(t).len() ==> #[trigger] reg.received(t)[i] == reg.history()[reg.joined(t)
                + i],
{
}

/// Two subscribers of one stream both receive every line broadcast once both
/// had registered.
pub proof fn lemma_shared_lines(reg: SubscriberRegistry, a: nat, b: nat)
    requires
        reg.wf(),
        reg.is_live(a),
        reg.is_live(b),
    ensures
        ({
            let m = if reg.joined(a) < reg.joined(b) {
                reg.joined(b)
            } else {
                reg.joined(a)
            };
            &&& reg.received(a).skip(m - reg.joined(a)) == reg.history().skip(m as int)
            &&& reg.received(b).skip(m - reg.joined(b)) == reg.history().skip(m as int)
        }),
{
    let m = if reg.joined(a) < reg.joined(b) {
        reg.joined(b)
    } else {
        reg.joined(a)
    };
    assert(reg.received(a).skip(m - reg.joined(a)) =~= reg.history().skip(m as int));
    assert(reg.received(b).skip(m - reg.joined(b)) =~= reg.history().skip(m as int));
}

/// Subscribers do not depend on each other: when a broadcast is completed
/// with the outcomes `delivered`, a subscriber whose channel accepted the line
/// stays registered and has received it, whatever the other subscribers'
/// channels did; a dropped receiver costs only its own subscription.
pub proof fn lemma_delivery_independent(
    before: SubscriberRegistry,
    after: SubscriberRegistry,
    line: Seq<char>,
    delivered: Seq<bool>,
    failed: Seq<usize>,
    a: int,
)
    requires
        before.wf(),
        delivered.len() == before.tickets().len(),
        SubscriberRegistry::broadcast_step(before, after, line, failed),
        forall|i: int|
            0 <= i < delivered.len() ==> (#[trigger] failed.contains(i as usize) <==> !delivered[i]),
        0 <= a < before.tickets().len(),
        delivered[a],
    ensures
        after.is_live(before.tickets()[a]),
        after.received(before.tickets()[a]) == before.received(before.tickets()[a]).push(line),
{
    let t = before.tickets()[a];
    assert(after.received(t) == if after.is_live(t) {
        before.received(t).push(line)
    } else {
        before.received(t)
    });
}

} // verus!
