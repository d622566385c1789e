use teatui::execute;
use teatui::Errno;
use teatui::Command;
use teatui::Frame;
use teatui::FrameHandler;
use teatui::KeyCode;
use teatui::KeyName;
use teatui::Loop;
use teatui::Message;
use teatui::MessageType;
use teatui::Model;
use teatui::Program;
use teatui::ProgramContext;
use teatui::ProgramInner;
use teatui::Terminate;
use teatui::UpdateBroker;

fn keypress(bytes: &[u8]) -> Message {
    Message::Keypress(KeyCode {
        key: KeyName::NONE,
        code: bytes.to_vec(),
        shift: false,
        ctrl: false,
        alt: false,
    })
}

fn context() -> ProgramContext {
    ProgramContext { width: 80, height: 45, home: (1, 1), cursor: (1, 1), terminating: false }
}

fn boot(width: i32, height: i32, report: &[u8]) -> Program<Frame, FrameHandler> {
    let mut program =
        Program::init(Frame(Vec::new()), width, height, &report.to_vec()).expect("bootstrap");
    program.update(MessageType::Keypress, FrameHandler);
    program
}

#[test]
fn frame_view_is_its_bytes() {
    let frame = Frame(b"xyz".to_vec());
    assert_eq!(frame.view(), b"xyz".to_vec());
}

#[test]
fn terminate_converts_into_command() {
    assert_eq!(Command::from(Terminate), Command::Terminate);
}

#[test]
fn publish_routes_to_subscribed_kind_exactly_once() {
    let mut broker: UpdateBroker<Frame, FrameHandler> = UpdateBroker::new();
    broker.subscribe(MessageType::Keypress, FrameHandler);
    let mut model = Frame(Vec::new());
    let ctx = context();
    let cmds = broker.publish(&mut model, &ctx, &keypress(b"a"));
    assert!(cmds.is_empty());
    assert_eq!(model.0, b"a".to_vec(), "the handler ran exactly once");
}

#[test]
fn publish_of_other_kinds_invokes_no_handler() {
    let mut broker: UpdateBroker<Frame, FrameHandler> = UpdateBroker::new();
    broker.subscribe(MessageType::Keypress, FrameHandler);
    let mut model = Frame(b"kept".to_vec());
    let ctx = context();
    let cmds = broker.publish(&mut model, &ctx, &Message::Interrupt);
    assert!(cmds.is_empty());
    assert_eq!(model.0, b"kept".to_vec());
    let cmds2 = broker.publish(&mut model, &ctx, &Message::Terminate);
    assert!(cmds2.is_empty());
    assert_eq!(model.0, b"kept".to_vec());
}

#[test]
fn publish_collects_terminate_command() {
    let mut broker: UpdateBroker<Frame, FrameHandler> = UpdateBroker::new();
    broker.subscribe(MessageType::Keypress, FrameHandler);
    let mut model = Frame(Vec::new());
    let ctx = context();
    let cmds = broker.publish(&mut model, &ctx, &keypress(b"\x03"));
    assert_eq!(cmds.len(), 1);
    assert_eq!(cmds[0], Command::Terminate);
    assert!(model.0.is_empty());
}

#[test]
fn execute_terminate_stops_reader_and_marks_context() {
    let event_loop = Loop::default();
    let mut input = event_loop.new_tty(0).expect("tty");
    input.read_start().expect("read start");
    let mut inner = ProgramInner {
        input,
        output: event_loop.new_tty(1).expect("tty"),
        messages: event_loop.new_check().expect("check"),
    };
    let mut ctx = context();
    let msg = execute(&Command::Terminate, &mut ctx, &mut inner);
    assert!(matches!(msg, Message::Terminate));
    assert!(ctx.terminating);
    assert!(!inner.input.is_reading());
    let msg2 = execute(&Command::Terminate, &mut ctx, &mut inner);
    assert!(matches!(msg2, Message::Terminate));
    assert!(ctx.terminating);
}

#[test]
fn inner_terminate_is_idempotent() {
    let event_loop = Loop::default();
    let mut inner = ProgramInner {
        input: event_loop.new_tty(0).expect("tty"),
        output: event_loop.new_tty(1).expect("tty"),
        messages: event_loop.new_check().expect("check"),
    };
    inner.input.read_start().expect("read start");
    inner.messages.start().expect("start");
    inner.terminate();
    assert!(!inner.input.is_reading());
    assert!(!inner.messages.is_started());
    inner.terminate();
    assert!(!inner.input.is_reading());
    assert!(!inner.messages.is_started());
}

#[test]
fn init_clamps_geometry_and_reads_home() {
    let mut program = boot(80, 24, b"\x1b[1;1R");
    let ctx = program.context();
    assert_eq!(ctx.width, 80);
    assert_eq!(ctx.height, 45);
    assert_eq!(ctx.home, (1, 1));
    assert_eq!(ctx.cursor, (1, 1));
    assert!(!ctx.terminating);
    assert!(program.take_output().is_empty());
}

#[test]
fn init_keeps_large_geometry() {
    let program = boot(132, 50, b"\x1b[12;34R");
    let ctx = program.context();
    assert_eq!(ctx.width, 132);
    assert_eq!(ctx.height, 50);
    assert_eq!(ctx.home, (12, 34));
}

#[test]
fn init_rejects_bad_report() {
    let r = Program::<Frame, FrameHandler>::init(Frame(Vec::new()), 80, 45, &b"nope".to_vec());
    assert!(r.is_err());
    let r2 = Program::<Frame, FrameHandler>::init(Frame(Vec::new()), 80, 45, &b"\x1b[12".to_vec());
    assert!(r2.is_err());
}

#[test]
fn tick_processes_queue_in_order_with_one_render() {
    let mut program = boot(80, 45, b"\x1b[1;1R");
    program.send(keypress(b"a"));
    program.send(keypress(b"b"));
    program.tick();
    assert_eq!(program.model().0, b"ab".to_vec(), "a strictly before b");
    let frames = program.take_output();
    assert_eq!(frames.len(), 1, "exactly one render per tick");
    assert_eq!(frames[0], b"\x1b[1;1Hab".to_vec());
}

#[test]
fn unhandled_messages_are_dropped() {
    let mut program = boot(80, 45, b"\x1b[1;1R");
    program.send(Message::Interrupt);
    program.tick();
    assert!(program.model().0.is_empty());
    assert_eq!(program.take_output().len(), 1);
}

#[test]
fn run_feeds_decodes_and_renders_per_chunk() {
    let mut program = boot(80, 45, b"\x1b[2;3R");
    let r = program.run(vec![b"a".to_vec(), b"b".to_vec()]);
    assert!(r.is_ok());
    assert_eq!(program.model().0, b"ab".to_vec());
    let frames = program.take_output();
    assert_eq!(frames, vec![b"\x1b[2;3Ha".to_vec(), b"\x1b[2;3Hab".to_vec()]);
}

#[test]
fn run_carries_bootstrap_leftover_into_decoding() {
    let mut program = boot(80, 45, b"\x1b[1;1Rxy");
    let r = program.run(vec![b"z".to_vec()]);
    assert!(r.is_ok());
    assert_eq!(program.model().0, b"xyz".to_vec());
}

#[test]
fn terminate_scenario_stops_and_renders_once_more() {
    let mut program = boot(80, 24, b"\x1b[1;1R");
    let r = program.run(vec![b"hi".to_vec(), b"\x03".to_vec(), b"zz".to_vec()]);
    assert!(r.is_ok());
    let ctx = program.context();
    assert!(ctx.terminating);
    assert_eq!(program.model().0, b"hi".to_vec(), "bytes after terminate are not read");
    let frames = program.take_output();
    assert_eq!(
        frames,
        vec![b"\x1b[1;1Hhi".to_vec(), b"\x1b[1;1Hhi".to_vec()],
        "a final render with the last model state, then the reactor stops"
    );
}

#[test]
fn terminate_twice_is_safe() {
    let mut program = boot(80, 45, b"\x1b[1;1R");
    program.send(keypress(b"\x03"));
    program.send(keypress(b"\x03"));
    program.tick();
    assert!(program.context().terminating);
    program.send(keypress(b"\x03"));
    program.tick();
    assert!(program.context().terminating);
}

#[test]
fn keypress_message_kind() {
    assert_eq!(keypress(b"a").kind(), MessageType::Keypress);
}

#[test]
fn feed_input_queues_events_and_keeps_partials_pending() {
    let mut program = boot(80, 45, b"\x1b[1;1R");
    program.feed_input(&b"ok\x1b[9".to_vec());
    program.tick();
    assert_eq!(program.model().0, b"ok".to_vec());
    program.feed_input(&b";9R".to_vec());
    program.tick();
    assert_eq!(program.model().0, b"ok\x1b[9;9R".to_vec());
}

#[test]
fn run_on_terminated_program_is_a_no_op() {
    let mut program = boot(80, 45, b"\x1b[1;1R");
    let _ = program.run(vec![b"a\x03".to_vec()]);
    assert!(program.context().terminating);
    let before = program.model().0.clone();
    program.take_output();
    let r = program.run(vec![b"zz".to_vec()]);
    assert!(r.is_ok());
    assert_eq!(program.model().0, before, "no further reads on a terminated program");
    assert!(program.take_output().is_empty(), "no further ticks on a terminated program");
}

#[test]
fn frames_carry_view_bytes_verbatim() {
    let mut program = boot(80, 45, b"\x1b[1;1R");
    program.send(keypress(b"\x00"));
    program.send(keypress(b"a"));
    program.tick();
    let frames = program.take_output();
    assert_eq!(
        frames,
        vec![b"\x1b[1;1H\x00a".to_vec()],
        "a zero byte in the view is written through, not truncated"
    );
}

#[test]
fn unhandled_error_messages_are_dropped() {
    let mut program = boot(80, 45, b"\x1b[1;1R");
    program.send_error(Errno::EIO);
    program.tick();
    assert!(program.model().0.is_empty());
    assert_eq!(program.take_output().len(), 1, "the runtime keeps rendering");
}
