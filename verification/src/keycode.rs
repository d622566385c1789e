//! Streaming decoder that turns raw terminal bytes into discrete key events:
//! single-byte control characters, printable characters with shift detection,
//! and multi-byte CSI cursor-position reports.

use vstd::prelude::*;

verus! {

/// The named control events a single byte can decode to. `NONE` stands for
/// printable characters, unnamed control bytes, and CSI reports.
#[derive(Debug, Clone, Copy, PartialEq, Eq, Structural)]
pub enum KeyName {
    BEL,
    BS,
    HT,
    LF,
    VT,
    FF,
    CR,
    ESC,
    DEL,
    NONE,
}

/// One decoded key event: its name, the raw bytes consumed for it, and the
/// modifier classification.
#[derive(Debug, Clone)]
pub struct KeyCode {
    pub key: KeyName,
    pub code: Vec<u8>,
    pub shift: bool,
    pub ctrl: bool,
    pub alt: bool,
}

/// Mathematical image of a `KeyCode`: the raw bytes as a sequence.
pub struct KeyCodeView {
    pub key: KeyName,
    pub code: Seq<u8>,
    pub shift: bool,
    pub ctrl: bool,
    pub alt: bool,
}

impl View for KeyCode {
    type V = KeyCodeView;

    open spec fn view(&self) -> KeyCodeView {
        KeyCodeView {
            key: self.key,
            code: self.code@,
            shift: self.shift,
            ctrl: self.ctrl,
            alt: self.alt,
        }
    }
}

/// A byte is decoded with `shift = true` exactly when it is an uppercase
/// letter or one of the shifted symbols of a US keyboard layout.
pub open spec fn spec_is_shift(ch: u8) -> bool {
    ||| 0x41 <= ch <= 0x5a
    ||| 0x21 <= ch <= 0x29
    ||| ch == 0x3a
    ||| ch == 0x3c
    ||| 0x3e <= ch <= 0x40
    ||| 0x5e <= ch <= 0x5f
    ||| 0x7b <= ch <= 0x7e
}

/// Shift classification of a printable byte.
pub fn is_shift(ch: u8) -> (r: bool)
    ensures
        r == spec_is_shift(ch),
{
    (ch >= 0x41 && ch <= 0x5a)
        || (ch >= 0x21 && ch <= 0x29)
        || (ch == 0x3a)
        || (ch == 0x3c)
        || (ch >= 0x3e && ch <= 0x40)
        || (ch >= 0x5e && ch <= 0x5f)
        || (ch >= 0x7b && ch <= 0x7e)
}

/// Every byte in `A`-`Z` is classified shifted; every byte in `a`-`z` and
/// every decimal digit is not.
pub proof fn lemma_shift_classification()
    ensures
        forall|ch: u8| 0x41 <= ch <= 0x5a ==> spec_is_shift(ch),
        forall|ch: u8| 0x61 <= ch <= 0x7a ==> !spec_is_shift(ch),
        forall|ch: u8| 0x30 <= ch <= 0x39 ==> !spec_is_shift(ch),
{
}

/// The `KeyName` a directly named control byte decodes to.
pub open spec fn spec_control_name(ch: u8) -> KeyName {
    if ch == 0x07 {
        KeyName::BEL
    } else if ch == 0x08 {
        KeyName::BS
    } else if ch == 0x09 {
        KeyName::HT
    } else if ch == 0x0a {
        KeyName::LF
    } else if ch == 0x0b {
        KeyName::VT
    } else if ch == 0x0c {
        KeyName::FF
    } else if ch == 0x0d {
        KeyName::CR
    } else if ch == 0x7f {
        KeyName::DEL
    } else {
        KeyName::NONE
    }
}

pub open spec fn spec_is_digit(ch: u8) -> bool {
    0x30 <= ch <= 0x39
}

/// First index at or after `i` holding a non-digit byte (or the length of
/// `s` when digits run to the end).
pub open spec fn digit_run_end(s: Seq<u8>, i: int) -> int
    decreases s.len() - i,
{
    if i < 0 || i >= s.len() {
        i
    } else if spec_is_digit(s[i]) {
        digit_run_end(s, i + 1)
    } else {
        i
    }
}

/// Length of the complete CSI form `ESC [ <digits> ; <digits> R` at the
/// front of `s`, if the whole pattern is present.
pub open spec fn spec_csi_len(s: Seq<u8>) -> Option<int> {
    if s.len() < 2 || s[1] != 0x5b {
        None
    } else {
        let i = digit_run_end(s, 2);
        if i >= s.len() || s[i] != 0x3b {
            None
        } else {
            let j = digit_run_end(s, i + 1);
            if j >= s.len() || s[j] != 0x52 {
                None
            } else {
                Some(j + 1)
            }
        }
    }
}

/// A single-byte control event: `ctrl` set, no other modifier.
pub open spec fn spec_ctrl_event(key: KeyName, ch: u8) -> KeyCodeView {
    KeyCodeView { key, code: seq![ch], shift: false, ctrl: true, alt: false }
}

/// What one decoding step yields on the pending byte sequence `s`: the event
/// at the front, or `None` when `s` is empty or holds only an incomplete or
/// malformed escape sequence. The bytes consumed are exactly the event's
/// `code`, always a prefix of `s`.
pub open spec fn spec_parse(s: Seq<u8>) -> Option<KeyCodeView> {
    if s.len() == 0 {
        None
    } else {
        let ch = s[0];
        if ch == 0x1b {
            match spec_csi_len(s) {
                Some(n) => Some(
                    KeyCodeView {
                        key: KeyName::NONE,
                        code: s.take(n),
                        shift: false,
                        ctrl: false,
                        alt: false,
                    },
                ),
                None => None,
            }
        } else if 0x07 <= ch <= 0x0d || ch == 0x7f {
            Some(spec_ctrl_event(spec_control_name(ch), ch))
        } else if 0x20 <= ch <= 0x7e {
            Some(
                KeyCodeView {
                    key: KeyName::NONE,
                    code: seq![ch],
                    shift: spec_is_shift(ch),
                    ctrl: false,
                    alt: false,
                },
            )
        } else {
            Some(spec_ctrl_event(KeyName::NONE, ch))
        }
    }
}

/// A digit run ends between where it starts and the end of the sequence.
pub proof fn lemma_digit_run_end_bounds(s: Seq<u8>, i: int)
    requires
        0 <= i <= s.len(),
    ensures
        i <= digit_run_end(s, i) <= s.len(),
    decreases s.len() - i,
{
    if i < s.len() && spec_is_digit(s[i]) {
        lemma_digit_run_end_bounds(s, i + 1);
    }
}

/// A complete CSI match is between one byte and the whole sequence long.
pub proof fn lemma_csi_len_bounds(s: Seq<u8>)
    requires
        spec_csi_len(s) is Some,
    ensures
        1 <= spec_csi_len(s).unwrap() <= s.len(),
{
    lemma_digit_run_end_bounds(s, 2);
    lemma_digit_run_end_bounds(s, digit_run_end(s, 2) + 1);
}

/// A successful decoding step consumes at least one byte and no more than
/// the whole pending sequence.
pub proof fn lemma_parse_consumes(s: Seq<u8>)
    requires
        spec_parse(s) is Some,
    ensures
        1 <= spec_parse(s).unwrap().code.len() <= s.len(),
{
    if s[0] == 0x1b {
        let n = spec_csi_len(s).unwrap();
        lemma_digit_run_end_bounds(s, 2);
        let i = digit_run_end(s, 2);
        lemma_digit_run_end_bounds(s, i + 1);
    }
}

/// Decoding a byte sequence to exhaustion: the events produced in order,
/// and the bytes left pending (empty, or an incomplete or malformed escape
/// sequence).
pub open spec fn spec_decode_all(s: Seq<u8>) -> (Seq<KeyCodeView>, Seq<u8>)
    decreases s.len(),
{
    match spec_parse(s) {
        None => (Seq::<KeyCodeView>::empty(), s),
        Some(kc) => if 1 <= kc.code.len() <= s.len() {
            let (tail_events, rest) = spec_decode_all(s.skip(kc.code.len() as int));
            (seq![kc] + tail_events, rest)
        } else {
            (Seq::<KeyCodeView>::empty(), s)
        },
    }
}

/// Stateful streaming parser: bytes accumulate in a pending queue and
/// complete events are consumed from its front.
pub struct KeyCodeParser {
    buf: std::collections::VecDeque<u8>,
}

impl View for KeyCodeParser {
    type V = Seq<u8>;

    closed spec fn view(&self) -> Seq<u8> {
        self.buf@
    }
}

impl Default for KeyCodeParser {
    /// A parser with an empty pending queue.
    fn default() -> (r: Self)
        ensures
            r@ == Seq::<u8>::empty(),
    {
        KeyCodeParser { buf: std::collections::VecDeque::new() }
    }
}

impl KeyCodeParser {
    /// Appends the content of a reactor buffer to the pending queue.
    pub fn buffer(&mut self, buf: &crate::buf::Buf)
        ensures
            final(self)@ == old(self)@ + crate::buf::buf_content(buf@),
    {
        let bytes = buf.content();
        self.feed(&bytes);
    }

    /// Appends raw bytes to the pending queue.
    pub fn feed(&mut self, bytes: &Vec<u8>)
        ensures
            final(self)@ == old(self)@ + bytes@,
    {
        let mut k: usize = 0;
        while k < bytes.len()
            invariant
                k <= bytes.len(),
                self@ == old(self)@ + bytes@.take(k as int),
            decreases bytes.len() - k,
        {
            self.buf.push_back(bytes[k]);
            k = k + 1;
            proof {
                assert(self@ =~= old(self)@ + bytes@.take(k as int));
            }
        }
        proof {
            assert(self@ =~= old(self)@ + bytes@);
        }
    }

    /// Attempts to consume one complete event from the front of the pending
    /// queue. Either an event is returned and exactly its bytes are removed,
    /// or `None` is returned and the queue is unchanged.
    pub fn parse_keycode(&mut self) -> (r: Option<KeyCode>)
        ensures
            match r {
                Some(kc) => {
                    &&& spec_parse(old(self)@) == Some(kc@)
                    &&& kc@.code == old(self)@.take(kc@.code.len() as int)
                    &&& final(self)@ == old(self)@.skip(kc@.code.len() as int)
                },
                None => {
                    &&& spec_parse(old(self)@) is None
                    &&& final(self)@ == old(self)@
                },
            },
    {
        if self.buf.len() == 0 {
            return None;
        }
        let ch = self.buf[0];
        proof {
            assert(old(self)@.take(1int) =~= seq![ch]);
        }
        if ch == 0x1b {
            match self.csi_scan() {
                Some(n) => {
                    let code = self.take_front(n);
                    Some(KeyCode { key: KeyName::NONE, code, shift: false, ctrl: false, alt: false })
                },
                None => None,
            }
        } else if (0x07 <= ch && ch <= 0x0d) || ch == 0x7f {
            let code = self.take_front(1);
            Some(KeyCode { key: control_name(ch), code, shift: false, ctrl: true, alt: false })
        } else if 0x20 <= ch && ch <= 0x7e {
            let shift = is_shift(ch);
            let code = self.take_front(1);
            Some(KeyCode { key: KeyName::NONE, code, shift, ctrl: false, alt: false })
        } else {
            let code = self.take_front(1);
            Some(KeyCode { key: KeyName::NONE, code, shift: false, ctrl: true, alt: false })
        }
    }

    /// Scans for a complete `ESC [ <digits> ; <digits> R` pattern at the
    /// front of the queue without consuming anything.
    fn csi_scan(&self) -> (r: Option<usize>)
        ensures
            match r {
                Some(n) => spec_csi_len(self@) == Some(n as int) && 0 < n <= self@.len(),
                None => spec_csi_len(self@) is None,
            },
    {
        if self.buf.len() < 2 || self.buf[1] != 0x5b {
            return None;
        }
        let i = self.digit_scan(2);
        if i >= self.buf.len() || self.buf[i] != 0x3b {
            return None;
        }
        let j = self.digit_scan(i + 1);
        if j >= self.buf.len() || self.buf[j] != 0x52 {
            return None;
        }
        Some(j + 1)
    }

    /// Index of the first non-digit byte at or after `from`.
    fn digit_scan(&self, from: usize) -> (r: usize)
        requires
            from <= self@.len(),
        ensures
            r as int == digit_run_end(self@, from as int),
            from <= r <= self@.len(),
    {
        let mut i = from;
        loop
            invariant
                from <= i <= self@.len(),
                digit_run_end(self@, from as int) == digit_run_end(self@, i as int),
            ensures
                from <= i <= self@.len(),
                i as int == digit_run_end(self@, from as int),
            decreases self@.len() - i,
        {
            if i >= self.buf.len() {
                break;
            }
            let ch = self.buf[i];
            if !(0x30 <= ch && ch <= 0x39) {
                break;
            }
            i = i + 1;
        }
        i
    }

    /// Removes the first `n` bytes of the queue and returns them in order.
    fn take_front(&mut self, n: usize) -> (r: Vec<u8>)
        requires
            n <= old(self)@.len(),
        ensures
            r@ == old(self)@.take(n as int),
            final(self)@ == old(self)@.skip(n as int),
    {
        let mut taken: Vec<u8> = Vec::new();
        let mut k: usize = 0;
        while k < n
            invariant
                k <= n,
                n <= old(self)@.len(),
                taken@ == old(self)@.take(k as int),
                self@ == old(self)@.skip(k as int),
            decreases n - k,
        {
            match self.buf.pop_front() {
                Some(ch) => {
                    taken.push(ch);
                },
                None => {
                    proof {
                        assert(false);
                    }
                },
            }
            k = k + 1;
            proof {
                assert(taken@ =~= old(self)@.take(k as int));
                assert(self@ =~= old(self)@.skip(k as int));
            }
        }
        taken
    }
}

/// `KeyName` for a directly named control byte.
fn control_name(ch: u8) -> (r: KeyName)
    ensures
        r == spec_control_name(ch),
{
    if ch == 0x07 {
        KeyName::BEL
    } else if ch == 0x08 {
        KeyName::BS
    } else if ch == 0x09 {
        KeyName::HT
    } else if ch == 0x0a {
        KeyName::LF
    } else if ch == 0x0b {
        KeyName::VT
    } else if ch == 0x0c {
        KeyName::FF
    } else if ch == 0x0d {
        KeyName::CR
    } else if ch == 0x7f {
        KeyName::DEL
    } else {
        KeyName::NONE
    }
}

} // verus!
