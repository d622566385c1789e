//! A byte-buffer model and its handler: keypresses append their raw bytes
//! to the frame, and the end-of-text byte terminates the program.

use vstd::prelude::*;
use crate::command::Command;
use crate::message::Message;
use crate::message::MessageView;
use crate::model::Model;
use crate::program::ProgramContext;
use crate::update::UpdateHandler;

verus! {

/// A model that is nothing but the bytes it renders.
pub struct Frame(pub Vec<u8>);

impl Model for Frame {
    open spec fn spec_view(&self) -> Seq<u8> {
        self.0@
    }

    fn view(&self) -> (r: Vec<u8>) {
        let mut out: Vec<u8> = Vec::new();
        let mut k: usize = 0;
        while k < self.0.len()
            invariant
                k <= self.0@.len(),
                out@ == self.0@.take(k as int),
            decreases self.0@.len() - k,
        {
            out.push(self.0[k]);
            k = k + 1;
            proof {
                assert(out@ =~= self.0@.take(k as int));
            }
        }
        proof {
            assert(out@ =~= self.0@);
        }
        out
    }
}

/// The frame's keypress handler: an end-of-text byte asks for termination,
/// any other event appends its raw bytes to the frame.
pub struct FrameHandler;

impl UpdateHandler<Frame> for FrameHandler {
    open spec fn spec_update(&self, view: Seq<u8>, context: ProgramContext, msg: MessageView) -> (
        Seq<u8>,
        Option<Command>,
    ) {
        match msg {
            MessageView::Keypress(kc) => {
                if kc.code.len() > 0 && kc.code[0] == 0x03 {
                    (view, Some(Command::Terminate))
                } else {
                    (view + kc.code, None)
                }
            },
            _ => (view, None),
        }
    }

    fn handle(&self, model: &mut Frame, context: &ProgramContext, msg: &Message) -> (r: Option<
        Command,
    >) {
        let _ = context;
        match msg {
            Message::Keypress(kc) => {
                if kc.code.len() > 0 && kc.code[0] == 0x03 {
                    Some(Command::Terminate)
                } else {
                    let mut k: usize = 0;
                    while k < kc.code.len()
                        invariant
                            k <= kc.code@.len(),
                            model.0@ == old(model).0@ + kc.code@.take(k as int),
                        decreases kc.code@.len() - k,
                    {
                        model.0.push(kc.code[k]);
                        k = k + 1;
                        proof {
                            assert(model.0@ =~= old(model).0@ + kc.code@.take(k as int));
                        }
                    }
                    proof {
                        assert(model.0@ =~= old(model).0@ + kc.code@);
                    }
                    None
                }
            },
            _ => None,
        }
    }
}

} // verus!
