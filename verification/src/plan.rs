//! What an operation will ask for and answer, for every reply it may get.

use vstd::prelude::*;

verus! {

/// The rest of an operation: it is over, it waits for the reply to a request, or a number
/// that it has to give does not fit in its type.
#[verifier::reject_recursive_types(R)]
pub enum Plan<Q, R, T> {
    Done(T),
    Ask(Q, spec_fn(R) -> Plan<Q, R, T>),
    Overflow,
}

impl<Q, R, T> Plan<Q, R, T> {
    /// This plan, and then the one that its result calls for.
    pub open spec fn bind<U>(self, rest: spec_fn(T) -> Plan<Q, R, U>) -> Plan<Q, R, U>
        decreases self,
    {
        match self {
            Plan::Done(value) => rest(value),
            Plan::Ask(request, next) => Plan::Ask(request, |reply: R| next(reply).bind(rest)),
            Plan::Overflow => Plan::Overflow,
        }
    }

    /// The plan of an operation that waits in its first part: this plan, which waits for a
    /// reply, and then the one that its result calls for.
    pub open spec fn part_of<U>(self, rest: spec_fn(T) -> Plan<Q, R, U>) -> Plan<Q, R, U> {
        if self is Ask {
            self.bind(rest)
        } else {
            Plan::Overflow
        }
    }

    /// Whether every request that the plan may come to make is one of those allowed.
    pub open spec fn asks_only(self, allowed: spec_fn(Q) -> bool) -> bool
        decreases self,
    {
        match self {
            Plan::Ask(request, next) => allowed(request) && forall|reply: R|
                (#[trigger] next(reply)).asks_only(allowed),
            _ => true,
        }
    }

    /// Whether every result that the plan may come to is one of those allowed.
    pub open spec fn yields_only(self, allowed: spec_fn(T) -> bool) -> bool
        decreases self,
    {
        match self {
            Plan::Done(value) => allowed(value),
            Plan::Ask(_, next) => forall|reply: R| (#[trigger] next(reply)).yields_only(allowed),
            Plan::Overflow => true,
        }
    }

    /// An operation that waits in its first part goes on as that part does, and with the
    /// second part once the first is over.
    pub proof fn lemma_part_of<U>(self, rest: spec_fn(T) -> Plan<Q, R, U>, reply: R)
        ensures
            self.part_of(rest) matches Plan::Ask(request, next) ==> {
                &&& self matches Plan::Ask(first, _) && first == request
                &&& next(reply) == (self->Ask_1)(reply).bind(rest)
            },
            (self->Ask_1)(reply).joins(rest),
    {
        reveal_with_fuel(Plan::bind, 2);
    }

    /// What a plan made of two comes to, by what the first comes to.
    pub open spec fn joins<U>(self, rest: spec_fn(T) -> Plan<Q, R, U>) -> bool {
        match self {
            Plan::Done(value) => self.bind(rest) == rest(value),
            Plan::Ask(request, _) => {
                &&& self.part_of(rest) == self.bind(rest)
                &&& self.bind(rest) matches Plan::Ask(asked, _) && asked == request
            },
            Plan::Overflow => self.bind(rest) == Plan::<Q, R, U>::Overflow,
        }
    }

    /// A plan made of two asks only what both ask.
    pub proof fn lemma_bind_asks_only<U>(
        self,
        rest: spec_fn(T) -> Plan<Q, R, U>,
        allowed: spec_fn(Q) -> bool,
    )
        requires
            self.asks_only(allowed),
            forall|value: T| (#[trigger] rest(value)).asks_only(allowed),
        ensures
            self.bind(rest).asks_only(allowed),
    {
        let anything = |value: T| true;
        self.lemma_yields_anything();
        self.lemma_bind_asks_only_from(rest, anything, allowed);
    }

    /// A plan made of two asks only what both ask, the second from what the first may yield.
    pub proof fn lemma_bind_asks_only_from<U>(
        self,
        rest: spec_fn(T) -> Plan<Q, R, U>,
        between: spec_fn(T) -> bool,
        allowed: spec_fn(Q) -> bool,
    )
        requires
            self.asks_only(allowed),
            self.yields_only(between),
            forall|value: T| between(value) ==> (#[trigger] rest(value)).asks_only(allowed),
        ensures
            self.bind(rest).asks_only(allowed),
        decreases self,
    {
        match self {
            Plan::Ask(_, next) => {
                let whole = self.bind(rest)->Ask_1;
                assert forall|reply: R| (#[trigger] whole(reply)).asks_only(allowed) by {
                    next(reply).lemma_bind_asks_only_from(rest, between, allowed);
                }
            },
            _ => {},
        }
    }

    /// Every plan yields something.
    pub proof fn lemma_yields_anything(self)
        ensures
            self.yields_only(|value: T| true),
        decreases self,
    {
        match self {
            Plan::Ask(_, next) => {
                assert forall|reply: R| (#[trigger] next(reply)).yields_only(|value: T| true) by {
                    next(reply).lemma_yields_anything();
                }
            },
            _ => {},
        }
    }

    /// A plan made of two yields only what the second does, if the first yields only what the
    /// second can go on from.
    pub proof fn lemma_bind_yields_only<U>(
        self,
        rest: spec_fn(T) -> Plan<Q, R, U>,
        between: spec_fn(T) -> bool,
        allowed: spec_fn(U) -> bool,
    )
        requires
            self.yields_only(between),
            forall|value: T| between(value) ==> (#[trigger] rest(value)).yields_only(allowed),
        ensures
            self.bind(rest).yields_only(allowed),
        decreases self,
    {
        match self {
            Plan::Ask(_, next) => {
                let whole = self.bind(rest)->Ask_1;
                assert forall|reply: R| (#[trigger] whole(reply)).yields_only(allowed) by {
                    next(reply).lemma_bind_yields_only(rest, between, allowed);
                }
            },
            _ => {},
        }
    }

    /// What the plan comes to where every request is answered in a given way; nothing if a
    /// number does not fit.
    pub open spec fn run(self, world: spec_fn(Q) -> R) -> Option<T>
        decreases self,
    {
        match self {
            Plan::Done(value) => Some(value),
            Plan::Ask(request, next) => next(world(request)).run(world),
            Plan::Overflow => None,
        }
    }

    /// The requests that the plan makes where every request is answered in a given way.
    pub open spec fn trace(self, world: spec_fn(Q) -> R) -> Seq<Q>
        decreases self,
    {
        match self {
            Plan::Ask(request, next) => seq![request] + next(world(request)).trace(world),
            _ => Seq::empty(),
        }
    }

    /// A plan made of two makes the requests of the first and then those of the second, and
    /// comes to what the second does.
    pub proof fn lemma_bind_run<U>(self, rest: spec_fn(T) -> Plan<Q, R, U>, world: spec_fn(Q) -> R)
        ensures
            self.bind(rest).run(world) == match self.run(world) {
                Some(value) => rest(value).run(world),
                None => None,
            },
            self.bind(rest).trace(world) == self.trace(world) + match self.run(world) {
                Some(value) => rest(value).trace(world),
                None => Seq::empty(),
            },
        decreases self,
    {
        match self {
            Plan::Done(value) => {
                assert(self.bind(rest).trace(world) =~= self.trace(world) + rest(value).trace(
                    world,
                ));
            },
            Plan::Ask(request, next) => {
                next(world(request)).lemma_bind_run(rest, world);
                assert(self.bind(rest).trace(world) =~= seq![request] + next(world(request)).bind(
                    rest,
                ).trace(world));
                assert(self.bind(rest).trace(world) =~= self.trace(world) + match self.run(world) {
                    Some(value) => rest(value).trace(world),
                    None => Seq::empty(),
                });
            },
            Plan::Overflow => {},
        }
    }

    /// Whether the plan makes the requests of a conversation one after another, given its
    /// replies, and has then come to a given end.
    pub open spec fn converses(self, talk: Seq<(Q, R)>, end: Plan<Q, R, T>) -> bool {
        self.converses_from(talk, 0, end)
    }

    /// The same, of what is left of a conversation.
    pub open spec fn converses_from(self, talk: Seq<(Q, R)>, at: int, end: Plan<Q, R, T>) -> bool
        decreases talk.len() - at,
    {
        if at >= talk.len() {
            self == end
        } else {
            match self {
                Plan::Ask(request, next) => {
                    &&& request == talk[at].0
                    &&& next(talk[at].1).converses_from(talk, at + 1, end)
                },
                _ => false,
            }
        }
    }

    proof fn lemma_converses_behind(
        self,
        before: Seq<(Q, R)>,
        talk: Seq<(Q, R)>,
        at: int,
        end: Plan<Q, R, T>,
    )
        requires
            0 <= at <= talk.len(),
            self.converses_from(talk, at, end),
        ensures
            self.converses_from(before + talk, before.len() + at, end),
        decreases talk.len() - at,
    {
        if at < talk.len() {
            assert((before + talk)[before.len() + at] == talk[at]);
            match self {
                Plan::Ask(_, next) => next(talk[at].1).lemma_converses_behind(
                    before,
                    talk,
                    at + 1,
                    end,
                ),
                _ => {},
            }
        }
    }

    /// Two conversations in a row are one.
    pub proof fn lemma_converses_on(
        self,
        talk: Seq<(Q, R)>,
        middle: Plan<Q, R, T>,
        more: Seq<(Q, R)>,
        end: Plan<Q, R, T>,
    )
        requires
            self.converses(talk, middle),
            middle.converses(more, end),
        ensures
            self.converses(talk + more, end),
    {
        middle.lemma_converses_behind(talk, more, 0, end);
        self.lemma_converses_on_from(talk, 0, middle, more, end);
    }

    proof fn lemma_converses_on_from(
        self,
        talk: Seq<(Q, R)>,
        at: int,
        middle: Plan<Q, R, T>,
        more: Seq<(Q, R)>,
        end: Plan<Q, R, T>,
    )
        requires
            0 <= at <= talk.len(),
            self.converses_from(talk, at, middle),
            middle.converses_from(talk + more, talk.len() as int, end),
        ensures
            self.converses_from(talk + more, at, end),
        decreases talk.len() - at,
    {
        if at < talk.len() {
            assert((talk + more)[at] == talk[at]);
            match self {
                Plan::Ask(_, next) => next(talk[at].1).lemma_converses_on_from(
                    talk,
                    at + 1,
                    middle,
                    more,
                    end,
                ),
                _ => {},
            }
        }
    }

    /// A plan made of two has the conversation of the first and then that of the second.
    pub proof fn lemma_bind_converses<U>(
        self,
        rest: spec_fn(T) -> Plan<Q, R, U>,
        talk: Seq<(Q, R)>,
        value: T,
        more: Seq<(Q, R)>,
        end: Plan<Q, R, U>,
    )
        requires
            self.converses(talk, Plan::Done(value)),
            rest(value).converses(more, end),
        ensures
            self.bind(rest).converses(talk + more, end),
    {
        rest(value).lemma_converses_behind(talk, more, 0, end);
        self.lemma_bind_converses_from(rest, talk, 0, value, more, end);
    }

    proof fn lemma_bind_converses_from<U>(
        self,
        rest: spec_fn(T) -> Plan<Q, R, U>,
        talk: Seq<(Q, R)>,
        at: int,
        value: T,
        more: Seq<(Q, R)>,
        end: Plan<Q, R, U>,
    )
        requires
            0 <= at <= talk.len(),
            self.converses_from(talk, at, Plan::Done(value)),
            rest(value).converses_from(talk + more, talk.len() as int, end),
        ensures
            self.bind(rest).converses_from(talk + more, at, end),
        decreases talk.len() - at,
    {
        if at < talk.len() {
            assert((talk + more)[at] == talk[at]);
            match self {
                Plan::Ask(_, next) => next(talk[at].1).lemma_bind_converses_from(
                    rest,
                    talk,
                    at + 1,
                    value,
                    more,
                    end,
                ),
                _ => {},
            }
        }
    }

    /// A plan that has come to its result has nothing more to ask.
    pub proof fn lemma_bind_ends<U>(
        self,
        rest: spec_fn(T) -> Plan<Q, R, U>,
        talk: Seq<(Q, R)>,
        value: T,
        result: U,
    )
        requires
            self.converses(talk, Plan::Done(value)),
            rest(value) == Plan::<Q, R, U>::Done(result),
        ensures
            self.bind(rest).converses(talk, Plan::Done(result)),
    {
        self.lemma_bind_converses(rest, talk, value, Seq::empty(), Plan::Done(result));
        assert(talk + Seq::<(Q, R)>::empty() == talk);
    }
}

} // verus!
