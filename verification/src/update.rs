//! The message bus: a registry from message kind to handler. Publishing a
//! message invokes the handler subscribed to its kind, if any, and collects
//! the command it returns.

use vstd::prelude::*;
use crate::command::Command;
use crate::message::Message;
use crate::message::MessageType;
use crate::message::MessageView;
use crate::model::Model;
use crate::program::ProgramContext;

verus! {

/// A message handler. Its effect is specified over the model's byte view:
/// `spec_update` gives, for a view, context, and message, the view the model
/// is left with and the command returned.
pub trait UpdateHandler<M: Model>: Sized {
    /// The handler's effect: new model view and returned command.
    spec fn spec_update(&self, view: Seq<u8>, context: ProgramContext, msg: MessageView) -> (
        Seq<u8>,
        Option<Command>,
    );

    /// Handles one message with mutable access to the model and shared read
    /// access to the context, returning at most one command.
    fn handle(&self, model: &mut M, context: &ProgramContext, msg: &Message) -> (r: Option<
        Command,
    >)
        ensures
            (final(model).spec_view(), r) == self.spec_update(
                old(model).spec_view(),
                *context,
                msg@,
            ),
    ;
}

/// First handler registered for `kind` in `s`, scanning front to back.
pub open spec fn assoc_lookup<H>(s: Seq<(MessageType, H)>, kind: MessageType) -> Option<H>
    decreases s.len(),
{
    if s.len() == 0 {
        None
    } else if s[0].0 == kind {
        Some(s[0].1)
    } else {
        assoc_lookup(s.skip(1), kind)
    }
}

/// The registry from message kind to handler. Re-subscribing to a kind
/// replaces the handler observed for that kind.
pub struct UpdateBroker<M: Model, H: UpdateHandler<M>> {
    handlers: Vec<(MessageType, H)>,
    marker: core::marker::PhantomData<M>,
}

impl<M: Model, H: UpdateHandler<M>> UpdateBroker<M, H> {
    /// The handler a message of the given kind is routed to.
    pub closed spec fn spec_lookup(&self, kind: MessageType) -> Option<H> {
        assoc_lookup(self.handlers@, kind)
    }

    /// A broker with no subscriptions.
    pub fn new() -> (r: Self)
        ensures
            forall|k: MessageType| r.spec_lookup(k) is None,
    {
        UpdateBroker { handlers: Vec::new(), marker: core::marker::PhantomData }
    }

    /// Registers (or replaces) the handler for a kind.
    pub fn subscribe(&mut self, on: MessageType, handler: H)
        ensures
            final(self).spec_lookup(on) == Some(handler),
            forall|k: MessageType|
                k != on ==> final(self).spec_lookup(k) == old(self).spec_lookup(k),
    {
        self.handlers.insert(0, (on, handler));
        proof {
            assert(self.handlers@.skip(1) =~= old(self).handlers@);
        }
    }

    /// Looks up the handler for a kind.
    fn find(&self, kind: MessageType) -> (r: Option<&H>)
        ensures
            match r {
                Some(h) => self.spec_lookup(kind) == Some(*h),
                None => self.spec_lookup(kind) is None,
            },
    {
        let mut i: usize = 0;
        proof {
            assert(self.handlers@.skip(0) =~= self.handlers@);
        }
        loop
            invariant
                i <= self.handlers@.len(),
                assoc_lookup(self.handlers@, kind) == assoc_lookup(
                    self.handlers@.skip(i as int),
                    kind,
                ),
            ensures
                match assoc_lookup(self.handlers@, kind) {
                    Some(h) => i < self.handlers@.len() && self.handlers@[i as int].1 == h
                        && self.handlers@[i as int].0 == kind,
                    None => i == self.handlers@.len(),
                },
            decreases self.handlers@.len() - i,
        {
            if i >= self.handlers.len() {
                break;
            }
            if self.handlers[i].0 == kind {
                break;
            }
            proof {
                assert(self.handlers@.skip(i as int).skip(1) =~= self.handlers@.skip(i as int + 1));
            }
            i = i + 1;
        }
        if i < self.handlers.len() {
            Some(&self.handlers[i].1)
        } else {
            None
        }
    }

    /// The effect publishing a message has on the model's view, and the
    /// commands collected: the handler for the message's kind is applied
    /// exactly once; without one, publishing is a no-op.
    pub open spec fn spec_publish(&self, view: Seq<u8>, context: ProgramContext, msg: MessageView)
        -> (Seq<u8>, Seq<Command>) {
        match self.spec_lookup(msg.spec_kind()) {
            Some(h) => {
                let (v2, c) = h.spec_update(view, context, msg);
                match c {
                    Some(cmd) => (v2, seq![cmd]),
                    None => (v2, Seq::<Command>::empty()),
                }
            },
            None => (view, Seq::<Command>::empty()),
        }
    }

    /// Publishes a message: the handler subscribed to its kind, if any, is
    /// invoked exactly once, and the command it returns is collected.
    pub fn publish(&self, model: &mut M, context: &ProgramContext, msg: &Message) -> (cmds: Vec<
        Command,
    >)
        ensures
            (final(model).spec_view(), cmds@) == self.spec_publish(
                old(model).spec_view(),
                *context,
                msg@,
            ),
    {
        let mut cmds: Vec<Command> = Vec::new();
        match self.find(msg.kind()) {
            Some(handler) => {
                match handler.handle(model, context, msg) {
                    Some(cmd) => {
                        cmds.push(cmd);
                        proof {
                            assert(cmds@ =~= seq![cmd]);
                        }
                    },
                    None => {
                        proof {
                            assert(cmds@ =~= Seq::<Command>::empty());
                        }
                    },
                }
            },
            None => {
                proof {
                    assert(cmds@ =~= Seq::<Command>::empty());
                }
            },
        }
        cmds
    }
}

impl<M: Model, H: UpdateHandler<M>> Default for UpdateBroker<M, H> {
    /// A broker with no subscriptions, as `new` yields it.
    fn default() -> (r: Self)
        ensures
            forall|k: MessageType| r.spec_lookup(k) is None,
    {
        UpdateBroker { handlers: Vec::new(), marker: core::marker::PhantomData }
    }
}

/// Dispatch is complete and exclusive: after subscribing `handler` to kind
/// `on`, a message of kind `on` is routed to exactly that handler and
/// applied exactly once, and a message of any other kind is routed exactly
/// as before the subscription — the new handler never sees it.
pub proof fn lemma_dispatch_completeness<M: Model, H: UpdateHandler<M>>(
    before: UpdateBroker<M, H>,
    after: UpdateBroker<M, H>,
    handler: H,
    on: MessageType,
    view: Seq<u8>,
    context: ProgramContext,
    msg: MessageView,
)
    requires
        after.spec_lookup(on) == Some(handler),
        forall|k: MessageType| k != on ==> after.spec_lookup(k) == before.spec_lookup(k),
    ensures
        msg.spec_kind() == on ==> after.spec_publish(view, context, msg) == {
            let (v2, c) = handler.spec_update(view, context, msg);
            match c {
                Some(cmd) => (v2, seq![cmd]),
                None => (v2, Seq::<Command>::empty()),
            }
        },
        msg.spec_kind() != on ==> after.spec_publish(view, context, msg) == before.spec_publish(
            view,
            context,
            msg,
        ),
{
}

} // verus!
