//! The program runtime: the shared render context, the runtime control
//! surface, and the program itself — bootstrap, message draining, command
//! execution, and rendering, one tick at a time.

use vstd::prelude::*;
use crate::ansi::cursor_home_escape;
use crate::ansi::parse_cursor_report;
use crate::ansi::spec_cpr;
use crate::ansi::spec_home_escape;
use crate::command::execute;
use crate::error::Errno;
use crate::error::ProgramError;
use crate::error::TUIError;
use crate::event_loop::Loop;
use crate::handle::CheckHandle;
use crate::handle::spec_check_stop;
use crate::keycode::KeyCodeParser;
use crate::keycode::KeyCodeView;
use crate::keycode::lemma_parse_consumes;
use crate::keycode::spec_decode_all;
use crate::keycode::spec_csi_len;
use crate::message::Message;
use crate::message::MessageType;
use crate::message::MessageView;
use crate::model::Model;
use crate::stream::Mode;
use crate::stream::TTYStream;
use crate::stream::WriteRequest;
use crate::stream::spec_read_stop;
use crate::update::UpdateBroker;
use crate::update::UpdateHandler;

verus! {

/// The shared render context: terminal geometry, the cursor home position
/// the bootstrap measured, the cursor position, and the monotonic
/// terminating flag.
#[derive(Debug, Clone, Copy)]
pub struct ProgramContext {
    pub width: i32,
    pub height: i32,
    pub home: (isize, isize),
    pub cursor: (isize, isize),
    pub terminating: bool,
}

/// The runtime control surface: the input and output streams and the check
/// handle that drives the render tick.
pub struct ProgramInner {
    pub input: TTYStream,
    pub output: TTYStream,
    pub messages: CheckHandle,
}

/// The state the control surface is left in by `terminate`: reader and tick
/// driver stopped, output untouched.
pub open spec fn spec_terminate(i: ProgramInner) -> ProgramInner {
    ProgramInner {
        input: spec_read_stop(i.input),
        output: i.output,
        messages: spec_check_stop(i.messages),
    }
}

/// Termination is idempotent: stopping an already-stopped reader and tick
/// driver is a no-op, never an error — terminating twice leaves the state
/// exactly where terminating once left it.
pub proof fn lemma_terminate_idempotent(i: ProgramInner)
    ensures
        spec_terminate(spec_terminate(i)) == spec_terminate(i),
{
    crate::stream::lemma_read_stop_idempotent(i.input);
    crate::handle::lemma_check_stop_idempotent(i.messages);
}

impl ProgramInner {
    /// Stops the input reader and the tick driver. Idempotent.
    pub fn terminate(&mut self)
        ensures
            *final(self) == spec_terminate(*old(self)),
            !final(self).input.spec_reading(),
            !final(self).messages.spec_started(),
            final(self).input.spec_mode() == old(self).input.spec_mode(),
            final(self).input.spec_fd() == old(self).input.spec_fd(),
            final(self).input.spec_written() == old(self).input.spec_written(),
            final(self).output == old(self).output,
    {
        self.input.read_stop();
        self.messages.stop();
    }
}

/// What processing one message does to the model view, the context, and the
/// input reader: the message is published; a terminate command returned by
/// the handler stops the reader, sets the terminating flag, and has its
/// follow-up terminate message published immediately — in the same pass,
/// before the render step. A command returned by that recursive publish is
/// executed too, but its own follow-up goes no further: terminate cannot
/// ripple.
pub open spec fn spec_step<M: Model, H: UpdateHandler<M>>(
    b: UpdateBroker<M, H>,
    view: Seq<u8>,
    ctx: ProgramContext,
    reading: bool,
    msg: MessageView,
) -> (Seq<u8>, ProgramContext, bool) {
    let (v1, cmds) = b.spec_publish(view, ctx, msg);
    if cmds.len() == 0 {
        (v1, ctx, reading)
    } else {
        let ctx2 = ProgramContext { terminating: true, ..ctx };
        let (v2, _cmds2) = b.spec_publish(v1, ctx2, MessageView::Terminate);
        (v2, ctx2, false)
    }
}

/// Draining a queue: each message is processed in order by `spec_step`.
pub open spec fn spec_drain<M: Model, H: UpdateHandler<M>>(
    b: UpdateBroker<M, H>,
    view: Seq<u8>,
    ctx: ProgramContext,
    reading: bool,
    msgs: Seq<MessageView>,
) -> (Seq<u8>, ProgramContext, bool)
    decreases msgs.len(),
{
    if msgs.len() == 0 {
        (view, ctx, reading)
    } else {
        let (v1, c1, r1) = spec_step(b, view, ctx, reading, msgs[0]);
        spec_drain(b, v1, c1, r1, msgs.skip(1))
    }
}

/// Messages queued before a tick are observed strictly in order: draining
/// `[a, b]` is processing `a` and then processing `b` from the state `a`
/// left behind — and a tick performs exactly one render after both.
pub proof fn lemma_render_ordering<M: Model, H: UpdateHandler<M>>(
    b: UpdateBroker<M, H>,
    view: Seq<u8>,
    ctx: ProgramContext,
    reading: bool,
    a: KeyCodeView,
    bb: KeyCodeView,
)
    ensures
        ({
            let first = spec_step(b, view, ctx, reading, MessageView::Keypress(a));
            let second = spec_step(b, first.0, first.1, first.2, MessageView::Keypress(bb));
            spec_drain(
                b,
                view,
                ctx,
                reading,
                seq![MessageView::Keypress(a), MessageView::Keypress(bb)],
            ) == second
        }),
{
    reveal_with_fuel(spec_drain, 4);
    let msgs = seq![MessageView::Keypress(a), MessageView::Keypress(bb)];
    assert(msgs.skip(1) =~= seq![MessageView::Keypress(bb)]);
    assert(msgs.skip(1)[0] == MessageView::Keypress(bb));
    assert(msgs.skip(1).skip(1) =~= Seq::<MessageView>::empty());
}

/// The terminating flag is monotonic: once the context says terminating, no
/// amount of further message processing clears it.
pub proof fn lemma_terminating_monotonic<M: Model, H: UpdateHandler<M>>(
    b: UpdateBroker<M, H>,
    view: Seq<u8>,
    ctx: ProgramContext,
    reading: bool,
    msgs: Seq<MessageView>,
)
    requires
        ctx.terminating,
    ensures
        spec_drain(b, view, ctx, reading, msgs).1.terminating,
    decreases msgs.len(),
{
    if msgs.len() > 0 {
        let (v1, c1, r1) = spec_step(b, view, ctx, reading, msgs[0]);
        lemma_terminating_monotonic(b, v1, c1, r1, msgs.skip(1));
    }
}

/// The byte sequence one render writes: the cursor-home escape followed by
/// the model's view, byte for byte.
pub open spec fn spec_frame(home: (isize, isize), view: Seq<u8>) -> Seq<u8> {
    spec_home_escape(home) + view
}

/// A reactive terminal program: the model, the shared context, the reactor
/// and its handles, the handler registry, the input decoder, and the
/// inbound message queue.
pub struct Program<M: Model, H: UpdateHandler<M>> {
    model: M,
    context: ProgramContext,
    event_loop: Loop,
    inner: ProgramInner,
    updates: UpdateBroker<M, H>,
    keycode_parser: KeyCodeParser,
    queue: Vec<Message>,
}

impl<M: Model, H: UpdateHandler<M>> Program<M, H> {
    /// Validity of a program: the measured home position is a coordinate
    /// pair, never negative. Bootstrap establishes it and nothing unsets it.
    pub open spec fn spec_wf(&self) -> bool {
        0 <= self.spec_context().home.0 && 0 <= self.spec_context().home.1
    }

    /// The application model.
    pub closed spec fn spec_model(&self) -> M {
        self.model
    }

    /// The shared render context.
    pub closed spec fn spec_context(&self) -> ProgramContext {
        self.context
    }

    /// The runtime control surface.
    pub closed spec fn spec_inner(&self) -> ProgramInner {
        self.inner
    }

    /// The handler registry.
    pub closed spec fn spec_broker(&self) -> UpdateBroker<M, H> {
        self.updates
    }

    /// The decoder's pending bytes.
    pub closed spec fn spec_pending(&self) -> Seq<u8> {
        self.keycode_parser@
    }

    /// The queued inbound messages, as views, oldest first.
    pub closed spec fn spec_queue(&self) -> Seq<MessageView> {
        self.queue@.map_values(|m: Message| m@)
    }

    /// Bootstraps a program: the terminal geometry is clamped to at least
    /// 80 by 45, the input stream is put into raw mode, and the cursor home
    /// position is read from the terminal's cursor-position report. Fails
    /// exactly when the report does not begin with a complete report whose
    /// row and column fit the platform; on failure the input stream's
    /// normal mode is restored before the error propagates.
    pub fn init(model: M, width: i32, height: i32, report: &Vec<u8>) -> (r: Result<
        Program<M, H>,
        ProgramError,
    >)
        ensures
            match r {
                Ok(p) => {
                    &&& spec_cpr(report@) matches Some(rc) && 0 <= rc.0 <= isize::MAX && 0 <= rc.1
                        <= isize::MAX && p.spec_context() == (ProgramContext {
                        width: if width >= 80 { width } else { 80 },
                        height: if height >= 45 { height } else { 45 },
                        home: (rc.0 as isize, rc.1 as isize),
                        cursor: (rc.0 as isize, rc.1 as isize),
                        terminating: false,
                    })
                    &&& spec_csi_len(report@) matches Some(n) && p.spec_pending() == report@.skip(n)
                    &&& p.spec_model() == model
                    &&& p.spec_queue() == Seq::<MessageView>::empty()
                    &&& forall|k: MessageType| p.spec_broker().spec_lookup(k) is None
                    &&& !p.spec_inner().input.spec_reading()
                    &&& p.spec_inner().input.spec_mode() == Mode::RAW
                    &&& !p.spec_inner().messages.spec_started()
                    &&& p.spec_inner().output.spec_written() == Seq::<Seq<u8>>::empty()
                },
                Err(e) => {
                    &&& e is InitError
                    &&& match spec_cpr(report@) {
                        Some(rc) => rc.0 > isize::MAX || rc.1 > isize::MAX,
                        None => true,
                    }
                },
            },
    {
        let event_loop = Loop::default();
        let mut input = event_loop.new_tty(0).unwrap();
        let output = event_loop.new_tty(1).unwrap();
        let messages = event_loop.new_check().unwrap();
        let _ = input.set_mode(Mode::RAW);
        let parsed = parse_cursor_report(report);
        match parsed {
            Some((row, col)) => {
                if row <= (isize::MAX as u64) && col <= (isize::MAX as u64) {
                    let mut keycode_parser = KeyCodeParser::default();
                    keycode_parser.feed(report);
                    proof {
                        assert(Seq::<u8>::empty() + report@ =~= report@);
                    }
                    let ev = keycode_parser.parse_keycode();
                    proof {
                        assert(ev is Some);
                        crate::keycode::lemma_csi_len_bounds(report@);
                        let n = spec_csi_len(report@).unwrap();
                        assert(ev.unwrap()@.code == report@.take(n));
                        assert(ev.unwrap()@.code.len() == n);
                        assert(keycode_parser@ == report@.skip(n));
                    }
                    let home = (row as isize, col as isize);
                    Ok(
                        Program {
                            model,
                            context: ProgramContext {
                                width: if width >= 80 {
                                    width
                                } else {
                                    80
                                },
                                height: if height >= 45 {
                                    height
                                } else {
                                    45
                                },
                                home,
                                cursor: home,
                                terminating: false,
                            },
                            event_loop,
                            inner: ProgramInner { input, output, messages },
                            updates: UpdateBroker::new(),
                            keycode_parser,
                            queue: Vec::new(),
                        },
                    )
                } else {
                    let _ = input.set_mode(Mode::NORMAL);
                    Err(ProgramError::InitError(cpr_error_text()))
                }
            },
            None => {
                let _ = input.set_mode(Mode::NORMAL);
                Err(ProgramError::InitError(cpr_error_text()))
            },
        }
    }

    /// Subscribes (or re-subscribes) the handler for a message kind.
    pub fn update(&mut self, kind: MessageType, handler: H)
        ensures
            final(self).spec_broker().spec_lookup(kind) == Some(handler),
            forall|k: MessageType|
                k != kind ==> final(self).spec_broker().spec_lookup(k) == old(
                    self,
                ).spec_broker().spec_lookup(k),
            final(self).spec_model() == old(self).spec_model(),
            final(self).spec_context() == old(self).spec_context(),
            final(self).spec_inner() == old(self).spec_inner(),
            final(self).spec_pending() == old(self).spec_pending(),
            final(self).spec_queue() == old(self).spec_queue(),
    {
        self.updates.subscribe(kind, handler);
    }

    /// Enqueues one inbound message.
    pub fn send(&mut self, msg: Message)
        ensures
            final(self).spec_queue() == old(self).spec_queue().push(msg@),
            final(self).spec_model() == old(self).spec_model(),
            final(self).spec_context() == old(self).spec_context(),
            final(self).spec_inner() == old(self).spec_inner(),
            final(self).spec_broker() == old(self).spec_broker(),
            final(self).spec_pending() == old(self).spec_pending(),
    {
        self.queue.push(msg);
        proof {
            assert(self.spec_queue() =~= old(self).spec_queue().push(
                self.queue@[self.queue@.len() - 1]@,
            ));
        }
    }

    /// Feeds raw input bytes through the decoder: every complete event
    /// becomes a keypress message on the inbound queue, and incomplete
    /// trailing bytes stay pending.
    pub fn feed_input(&mut self, bytes: &Vec<u8>)
        ensures
            ({
                let (events, rest) = spec_decode_all(old(self).spec_pending() + bytes@);
                &&& final(self).spec_pending() == rest
                &&& final(self).spec_queue() == old(self).spec_queue() + events.map_values(
                    |e: KeyCodeView| MessageView::Keypress(e),
                )
            }),
            final(self).spec_model() == old(self).spec_model(),
            final(self).spec_context() == old(self).spec_context(),
            final(self).spec_inner() == old(self).spec_inner(),
            final(self).spec_broker() == old(self).spec_broker(),
    {
        self.keycode_parser.feed(bytes);
        let ghost s0 = old(self).spec_pending() + bytes@;
        let ghost all = spec_decode_all(s0);
        let ghost q0 = old(self).spec_queue();
        let ghost mut produced: int = 0;
        proof {
            assert(all.0.take(0).map_values(|e: KeyCodeView| MessageView::Keypress(e))
                =~= Seq::<MessageView>::empty());
            assert(q0 + all.0.take(0).map_values(|e: KeyCodeView| MessageView::Keypress(e))
                =~= q0);
        }
        loop
            invariant
                0 <= produced <= all.0.len(),
                spec_decode_all(self.keycode_parser@) == (all.0.skip(produced), all.1),
                self.spec_queue() == q0 + all.0.take(produced).map_values(
                    |e: KeyCodeView| MessageView::Keypress(e),
                ),
                self.spec_model() == old(self).spec_model(),
                self.spec_context() == old(self).spec_context(),
                self.spec_inner() == old(self).spec_inner(),
                self.spec_broker() == old(self).spec_broker(),
            ensures
                self.keycode_parser@ == all.1,
                self.spec_queue() == q0 + all.0.map_values(|e: KeyCodeView| MessageView::Keypress(e)),
                self.spec_model() == old(self).spec_model(),
                self.spec_context() == old(self).spec_context(),
                self.spec_inner() == old(self).spec_inner(),
                self.spec_broker() == old(self).spec_broker(),
            decreases self.keycode_parser@.len(),
        {
            let ghost pending = self.keycode_parser@;
            match self.keycode_parser.parse_keycode() {
                Some(kc) => {
                    let ghost gkc = kc;
                    let ghost oldq = self.queue@;
                    proof {
                        reveal_with_fuel(spec_decode_all, 2);
                        lemma_parse_consumes(pending);
                        assert(all.0.skip(produced)[0] == kc@);
                        assert(all.0[produced] == kc@);
                    }
                    self.queue.push(Message::Keypress(kc));
                    proof {
                        produced = produced + 1;
                        assert(all.0.skip(produced - 1).skip(1) =~= all.0.skip(produced));
                        assert(self.queue@ == oldq.push(Message::Keypress(gkc)));
                        assert(self.queue@.map_values(|m: Message| m@) =~= oldq.map_values(
                            |m: Message| m@,
                        ).push(MessageView::Keypress(gkc@)));
                        assert(q0 + all.0.take(produced).map_values(
                            |e: KeyCodeView| MessageView::Keypress(e),
                        ) =~= (q0 + all.0.take(produced - 1).map_values(
                            |e: KeyCodeView| MessageView::Keypress(e),
                        )).push(MessageView::Keypress(gkc@)));
                        assert(self.spec_queue() == q0 + all.0.take(produced).map_values(
                            |e: KeyCodeView| MessageView::Keypress(e),
                        ));
                    }
                },
                None => {
                    proof {
                        reveal_with_fuel(spec_decode_all, 2);
                        assert(all.0.skip(produced) =~= Seq::<KeyCodeView>::empty());
                        assert(all.0.take(produced) =~= all.0);
                    }
                    break;
                },
            }
        }
    }

    /// One render tick: drains the inbound queue in order, publishing each
    /// message and executing the commands handlers return; if the context
    /// is terminating afterwards, stops the reader and the tick driver; and
    /// then renders exactly once — the cursor-home escape followed by the
    /// model's view, written to the output stream.
    pub fn tick(&mut self)
        requires
            old(self).spec_wf(),
        ensures
            final(self).spec_wf(),
            ({
                let (v2, ctx2, r2) = spec_drain(
                    old(self).spec_broker(),
                    old(self).spec_model().spec_view(),
                    old(self).spec_context(),
                    old(self).spec_inner().input.spec_reading(),
                    old(self).spec_queue(),
                );
                let reading3 = if ctx2.terminating {
                    false
                } else {
                    r2
                };
                let ticking3 = if ctx2.terminating {
                    false
                } else {
                    old(self).spec_inner().messages.spec_started()
                };
                &&& final(self).spec_model().spec_view() == v2
                &&& final(self).spec_context() == ctx2
                &&& final(self).spec_inner().input.spec_reading() == reading3
                &&& final(self).spec_inner().messages.spec_started() == ticking3
                &&& final(self).spec_inner().output.spec_written() == old(
                    self,
                ).spec_inner().output.spec_written().push(spec_frame(ctx2.home, v2))
            }),
            final(self).spec_inner().input.spec_mode() == old(self).spec_inner().input.spec_mode(),
            final(self).spec_inner().input.spec_fd() == old(self).spec_inner().input.spec_fd(),
            final(self).spec_inner().input.spec_written() == old(
                self,
            ).spec_inner().input.spec_written(),
            final(self).spec_inner().output.spec_mode() == old(
                self,
            ).spec_inner().output.spec_mode(),
            final(self).spec_inner().output.spec_fd() == old(self).spec_inner().output.spec_fd(),
            final(self).spec_inner().output.spec_reading() == old(
                self,
            ).spec_inner().output.spec_reading(),
            final(self).spec_queue() == Seq::<MessageView>::empty(),
            final(self).spec_pending() == old(self).spec_pending(),
            final(self).spec_broker() == old(self).spec_broker(),
            final(self).spec_context().home == old(self).spec_context().home,
    {
        let ghost b0 = old(self).spec_broker();
        let ghost v0 = old(self).spec_model().spec_view();
        let ghost c0 = old(self).spec_context();
        let ghost r0 = old(self).spec_inner().input.spec_reading();
        let ghost q0 = old(self).spec_queue();
        let mut msgs: Vec<Message> = Vec::new();
        std::mem::swap(&mut msgs, &mut self.queue);
        proof {
            assert(msgs@.map_values(|m: Message| m@) =~= q0);
            assert(self.spec_queue() =~= Seq::<MessageView>::empty());
        }
        let mut k: usize = 0;
        while k < msgs.len()
            invariant
                k <= msgs@.len(),
                msgs@.map_values(|m: Message| m@) == q0,
                (self.spec_model().spec_view(), self.spec_context(), self.spec_inner().input.spec_reading())
                    == spec_drain(b0, v0, c0, r0, q0.take(k as int)),
                self.spec_broker() == b0,
                self.spec_pending() == old(self).spec_pending(),
                self.spec_queue() == Seq::<MessageView>::empty(),
                self.spec_inner().input.spec_mode() == old(self).spec_inner().input.spec_mode(),
                self.spec_inner().input.spec_fd() == old(self).spec_inner().input.spec_fd(),
                self.spec_inner().input.spec_written() == old(
                    self,
                ).spec_inner().input.spec_written(),
                self.spec_inner().output == old(self).spec_inner().output,
                self.spec_inner().messages == old(self).spec_inner().messages,
                self.spec_context().home == c0.home,
            decreases msgs@.len() - k,
        {
            let ghost vk = self.spec_model().spec_view();
            let ghost ck = self.spec_context();
            let ghost rk = self.spec_inner().input.spec_reading();
            let msg = &msgs[k];
            let cmds = self.updates.publish(&mut self.model, &self.context, msg);
            if cmds.len() > 0 {
                let msg2 = execute(&cmds[0], &mut self.context, &mut self.inner);
                let cmds2 = self.updates.publish(&mut self.model, &self.context, &msg2);
                if cmds2.len() > 0 {
                    let _ = execute(&cmds2[0], &mut self.context, &mut self.inner);
                }
            }
            proof {
                assert(q0.take(k as int + 1).drop_last() =~= q0.take(k as int));
                assert(q0.take(k as int + 1).last() == q0[k as int]);
                lemma_drain_snoc(b0, v0, c0, r0, q0.take(k as int + 1));
            }
            k = k + 1;
        }
        proof {
            assert(q0.take(q0.len() as int) =~= q0);
        }
        if self.context.terminating {
            self.inner.terminate();
        }
        let mut frame = cursor_home_escape(self.context.home);
        let mut view_bytes = self.model.view();
        let ghost vfinal = self.spec_model().spec_view();
        frame.append(&mut view_bytes);
        proof {
            assert(frame@ == spec_frame(self.context.home, vfinal));
        }
        let _ = self.inner.output.write_bytes(WriteRequest::new(), frame);
    }

    /// Runs the program over a finite input: on an already-terminated
    /// program this is a no-op; otherwise the terminal is put into raw
    /// mode, reading and the tick driver are started, each chunk of input
    /// is read, decoded, published, and rendered, one tick per chunk —
    /// until the input ends or a terminate command stops reader and driver
    /// — and the terminal's normal mode is restored on the way out. The
    /// host feeds this loop from its readiness primitive.
    pub fn run(&mut self, input: Vec<Vec<u8>>) -> (r: Result<(), ProgramError>)
        requires
            old(self).spec_wf(),
        ensures
            final(self).spec_wf(),
            r is Ok,
            old(self).spec_context().terminating ==> {
                &&& final(self).spec_pending() == old(self).spec_pending()
                &&& final(self).spec_queue() == old(self).spec_queue()
                &&& final(self).spec_model() == old(self).spec_model()
                &&& final(self).spec_context() == old(self).spec_context()
                &&& final(self).spec_inner() == old(self).spec_inner()
            },
            !old(self).spec_context().terminating ==> ({
                let s0 = RunState {
                    pending: old(self).spec_pending(),
                    queue: old(self).spec_queue(),
                    view: old(self).spec_model().spec_view(),
                    context: old(self).spec_context(),
                    reading: true,
                    ticking: true,
                    written: old(self).spec_inner().output.spec_written(),
                };
                let sf = spec_run(
                    old(self).spec_broker(),
                    s0,
                    input@.map_values(|c: Vec<u8>| c@),
                );
                &&& final(self).spec_pending() == sf.pending
                &&& final(self).spec_queue() == sf.queue
                &&& final(self).spec_model().spec_view() == sf.view
                &&& final(self).spec_context() == sf.context
                &&& final(self).spec_inner().input.spec_reading() == sf.reading
                &&& final(self).spec_inner().messages.spec_started() == sf.ticking
                &&& final(self).spec_inner().output.spec_written() == sf.written
                &&& final(self).spec_inner().input.spec_mode() == Mode::NORMAL
            }),
            final(self).spec_broker() == old(self).spec_broker(),
    {
        if self.context.terminating {
            return Ok(());
        }
        let _ = self.inner.input.set_mode(Mode::RAW);
        let _ = self.inner.input.read_start();
        let _ = self.inner.messages.start();
        let ghost b0 = self.spec_broker();
        let ghost chunks = input@.map_values(|c: Vec<u8>| c@);
        let ghost s0 = RunState {
            pending: self.spec_pending(),
            queue: self.spec_queue(),
            view: self.spec_model().spec_view(),
            context: self.spec_context(),
            reading: true,
            ticking: true,
            written: self.spec_inner().output.spec_written(),
        };
        proof {
            assert(chunks.take(0) =~= Seq::<Seq<u8>>::empty());
        }
        let mut k: usize = 0;
        while k < input.len()
            invariant
                k <= input@.len(),
                chunks == input@.map_values(|c: Vec<u8>| c@),
                self.spec_wf(),
                self.spec_broker() == b0,
                self.spec_pending() == spec_run(b0, s0, chunks.take(k as int)).pending,
                self.spec_queue() == spec_run(b0, s0, chunks.take(k as int)).queue,
                self.spec_model().spec_view() == spec_run(b0, s0, chunks.take(k as int)).view,
                self.spec_context() == spec_run(b0, s0, chunks.take(k as int)).context,
                self.spec_inner().input.spec_reading() == spec_run(
                    b0,
                    s0,
                    chunks.take(k as int),
                ).reading,
                self.spec_inner().messages.spec_started() == spec_run(
                    b0,
                    s0,
                    chunks.take(k as int),
                ).ticking,
                self.spec_inner().output.spec_written() == spec_run(
                    b0,
                    s0,
                    chunks.take(k as int),
                ).written,
                self.spec_inner().input.spec_mode() == Mode::RAW,
            decreases input@.len() - k,
        {
            let ghost mid = spec_run(b0, s0, chunks.take(k as int));
            if self.inner.input.is_reading() {
                self.feed_input(&input[k]);
            }
            if self.inner.messages.is_started() {
                self.tick();
            }
            proof {
                assert(chunks[k as int] == input@[k as int]@);
                assert(chunks.take(k as int + 1).drop_last() =~= chunks.take(k as int));
                assert(chunks.take(k as int + 1).last() == chunks[k as int]);
                lemma_run_snoc(b0, s0, chunks.take(k as int + 1));
            }
            k = k + 1;
        }
        proof {
            assert(chunks.take(input@.len() as int) =~= chunks);
        }
        let _ = self.inner.input.reset_mode();
        Ok(())
    }

    /// Hands out everything the program has written so far, oldest frame
    /// first, and clears the record.
    pub fn take_output(&mut self) -> (r: Vec<Vec<u8>>)
        ensures
            r@.map_values(|w: Vec<u8>| w@) == old(self).spec_inner().output.spec_written(),
            final(self).spec_inner().output.spec_written() == Seq::<Seq<u8>>::empty(),
            final(self).spec_inner().output.spec_mode() == old(self).spec_inner().output.spec_mode(),
            final(self).spec_inner().output.spec_fd() == old(self).spec_inner().output.spec_fd(),
            final(self).spec_inner().output.spec_reading() == old(
                self,
            ).spec_inner().output.spec_reading(),
            final(self).spec_inner().input == old(self).spec_inner().input,
            final(self).spec_inner().messages == old(self).spec_inner().messages,
            final(self).spec_model() == old(self).spec_model(),
            final(self).spec_context() == old(self).spec_context(),
            final(self).spec_broker() == old(self).spec_broker(),
            final(self).spec_pending() == old(self).spec_pending(),
            final(self).spec_queue() == old(self).spec_queue(),
    {
        self.inner.output.take_output()
    }

    /// Hands an I/O failure into the runtime: it becomes an error message
    /// on the inbound queue and is dispatched through the same path as any
    /// other message on the next tick; with no handler subscribed to
    /// errors, dispatching it is a no-op.
    pub fn send_error(&mut self, errno: Errno)
        ensures
            final(self).spec_queue() == old(self).spec_queue().push(
                MessageView::Error(TUIError::InternalUVError(errno)),
            ),
            final(self).spec_model() == old(self).spec_model(),
            final(self).spec_context() == old(self).spec_context(),
            final(self).spec_inner() == old(self).spec_inner(),
            final(self).spec_broker() == old(self).spec_broker(),
            final(self).spec_pending() == old(self).spec_pending(),
    {
        self.send(Message::Error(TUIError::InternalUVError(errno)));
    }

    /// The shared render context, as it stands.
    pub fn context(&self) -> (r: ProgramContext)
        ensures
            r == self.spec_context(),
    {
        self.context
    }

    /// The application model, read-only.
    pub fn model(&self) -> (r: &M)
        ensures
            *r == self.spec_model(),
    {
        &self.model
    }
}

/// The whole observable state of a running program, as one snapshot: the
/// decoder's pending bytes, the queued message views, the model's view, the
/// shared context, whether the reader and the tick driver are active, and
/// everything written so far.
pub struct RunState {
    pub pending: Seq<u8>,
    pub queue: Seq<MessageView>,
    pub view: Seq<u8>,
    pub context: ProgramContext,
    pub reading: bool,
    pub ticking: bool,
    pub written: Seq<Seq<u8>>,
}

/// One pass of the run loop over an input chunk: while the reader is
/// active, the chunk is decoded and its events are queued; while the tick
/// driver is active, one tick drains the queue and renders.
pub open spec fn spec_chunk_step<M: Model, H: UpdateHandler<M>>(
    b: UpdateBroker<M, H>,
    s: RunState,
    chunk: Seq<u8>,
) -> RunState {
    let s1 = if s.reading {
        let (events, rest) = spec_decode_all(s.pending + chunk);
        RunState {
            pending: rest,
            queue: s.queue + events.map_values(|e: KeyCodeView| MessageView::Keypress(e)),
            ..s
        }
    } else {
        s
    };
    if s1.ticking {
        let (v2, ctx2, r2) = spec_drain(b, s1.view, s1.context, s1.reading, s1.queue);
        RunState {
            pending: s1.pending,
            queue: Seq::<MessageView>::empty(),
            view: v2,
            context: ctx2,
            reading: if ctx2.terminating {
                false
            } else {
                r2
            },
            ticking: if ctx2.terminating {
                false
            } else {
                s1.ticking
            },
            written: s1.written.push(spec_frame(ctx2.home, v2)),
        }
    } else {
        s1
    }
}

/// The run loop over a whole input: one pass per chunk, in order.
pub open spec fn spec_run<M: Model, H: UpdateHandler<M>>(
    b: UpdateBroker<M, H>,
    s: RunState,
    chunks: Seq<Seq<u8>>,
) -> RunState
    decreases chunks.len(),
{
    if chunks.len() == 0 {
        s
    } else {
        spec_run(b, spec_chunk_step(b, s, chunks[0]), chunks.skip(1))
    }
}

/// Running one more chunk is running the rest and then one pass on it.
proof fn lemma_run_snoc<M: Model, H: UpdateHandler<M>>(
    b: UpdateBroker<M, H>,
    s: RunState,
    chunks: Seq<Seq<u8>>,
)
    requires
        chunks.len() > 0,
    ensures
        spec_run(b, s, chunks) == spec_chunk_step(b, spec_run(b, s, chunks.drop_last()), chunks.last()),
    decreases chunks.len(),
{
    reveal_with_fuel(spec_run, 3);
    if chunks.len() == 1 {
        assert(chunks.drop_last() =~= Seq::<Seq<u8>>::empty());
        assert(chunks.skip(1) =~= Seq::<Seq<u8>>::empty());
        assert(chunks.last() == chunks[0]);
    } else {
        let s1 = spec_chunk_step(b, s, chunks[0]);
        lemma_run_snoc(b, s1, chunks.skip(1));
        assert(chunks.skip(1).drop_last() =~= chunks.drop_last().skip(1));
        assert(chunks.skip(1).last() == chunks.last());
        assert(chunks.drop_last().len() > 0);
        assert(chunks.drop_last()[0] == chunks[0]);
        assert(spec_run(b, s, chunks.drop_last()) == spec_run(b, s1, chunks.drop_last().skip(1)));
        assert(spec_run(b, s, chunks) == spec_run(b, s1, chunks.skip(1)));
    }
}

/// The wording bootstrap failures report.
fn cpr_error_text() -> (r: String) {
    String::from_str("failed to parse cursor position report")
}

/// Draining one more message is draining the rest and then stepping on it.
proof fn lemma_drain_snoc<M: Model, H: UpdateHandler<M>>(
    b: UpdateBroker<M, H>,
    view: Seq<u8>,
    ctx: ProgramContext,
    reading: bool,
    msgs: Seq<MessageView>,
)
    requires
        msgs.len() > 0,
    ensures
        ({
            let prefix = spec_drain(b, view, ctx, reading, msgs.drop_last());
            spec_drain(b, view, ctx, reading, msgs) == spec_step(
                b,
                prefix.0,
                prefix.1,
                prefix.2,
                msgs.last(),
            )
        }),
    decreases msgs.len(),
{
    reveal_with_fuel(spec_drain, 3);
    if msgs.len() == 1 {
        assert(msgs.drop_last() =~= Seq::<MessageView>::empty());
        assert(msgs.skip(1) =~= Seq::<MessageView>::empty());
        assert(msgs.last() == msgs[0]);
    } else {
        let (v1, c1, r1) = spec_step(b, view, ctx, reading, msgs[0]);
        lemma_drain_snoc(b, v1, c1, r1, msgs.skip(1));
        assert(msgs.skip(1).drop_last() =~= msgs.drop_last().skip(1));
        assert(msgs.skip(1).last() == msgs.last());
        assert(msgs.drop_last().len() > 0);
        assert(msgs.drop_last()[0] == msgs[0]);
        assert(spec_drain(b, view, ctx, reading, msgs.drop_last()) == spec_drain(
            b,
            v1,
            c1,
            r1,
            msgs.drop_last().skip(1),
        ));
        assert(spec_drain(b, view, ctx, reading, msgs) == spec_drain(b, v1, c1, r1, msgs.skip(1)));
    }
}

} // verus!
