//! Assembly of the lines typed on the UART console: bytes are collected until a
//! carriage return, and the collected line is then handed to the display.
use vstd::prelude::*;
use vstd::string::StringSliceAdditionalSpecFns;
use crate::bounded::{line_bytes, message_bytes, LINE_CAP, MESSAGE_CAP, line_new, line_as_str, line_clear, line_push_str, message_new, message_extend_from_slice};
use crate::text::{is_ascii_byte, lemma_single_byte_utf8, str_from_utf8};

verus! {

/// The byte that ends a line.
pub const CARRIAGE_RETURN: u8 = 13;

/// One received byte applied to the collected line: the line that remains
/// collected, and the message handed to the display, if any.
///
/// A byte that is not a whole UTF-8 character on its own (0x80 and above) is
/// ignored. A carriage return hands over the line and starts a new one; a line
/// longer than a message can hold is handed over empty. Any other byte is
/// appended while the line has room for it, and dropped otherwise.
pub open spec fn line_step(line: Seq<u8>, byte: u8) -> (Seq<u8>, Option<Seq<u8>>) {
    if !is_ascii_byte(byte) {
        (line, None)
    } else if byte == CARRIAGE_RETURN {
        (Seq::empty(), Some(if line.len() <= MESSAGE_CAP { line } else { Seq::empty() }))
    } else if line.len() < LINE_CAP {
        (line.push(byte), None)
    } else {
        (line, None)
    }
}

/// A run of received bytes applied to the collected line: the line that remains
/// collected and the messages handed over, in order.
pub open spec fn line_feed(line: Seq<u8>, bytes: Seq<u8>) -> (Seq<u8>, Seq<Seq<u8>>)
    decreases bytes.len(),
{
    if bytes.len() == 0 {
        (line, Seq::empty())
    } else {
        let prev = line_feed(line, bytes.drop_last());
        let step = line_step(prev.0, bytes.last());
        (step.0, match step.1 {
            Some(m) => prev.1.push(m),
            None => prev.1,
        })
    }
}

/// Bytes that can stand in a line: ASCII and no carriage return.
pub open spec fn line_content(bytes: Seq<u8>) -> bool {
    forall|i: int| 0 <= i < bytes.len() ==> is_ascii_byte(#[trigger] bytes[i]) && bytes[i] != CARRIAGE_RETURN
}

/// Collects the bytes read from the UART into lines.
pub struct LineReader {
    line: heapless::String<32>,
}

impl View for LineReader {
    type V = Seq<u8>;

    closed spec fn view(&self) -> Seq<u8> {
        line_bytes(self.line)
    }
}

impl LineReader {
    /// What every reader keeps: at most a line's capacity of line bytes.
    pub closed spec fn wf(&self) -> bool {
        self@.len() <= LINE_CAP && line_content(self@)
    }

    /// A reader that has collected nothing.
    pub fn new() -> (r: Self)
        ensures
            r.wf(),
            r@ == Seq::<u8>::empty(),
    {
        LineReader { line: line_new() }
    }

    /// Handles one byte read from the UART. Returns the message to hand to the
    /// display when the byte ends a line.
    pub fn receive(&mut self, byte: u8) -> (sent: Option<heapless::Vec<u8, 16>>)
        requires
            old(self).wf(),
        ensures
            final(self).wf(),
            final(self)@ == line_step(old(self)@, byte).0,
            match sent {
                Some(m) => line_step(old(self)@, byte).1 == Some(message_bytes(m)),
                None => line_step(old(self)@, byte).1 is None,
            },
            sent matches Some(m) ==> message_bytes(m).len() <= MESSAGE_CAP && line_content(message_bytes(m)),
    {
        let buf: [u8; 1] = [byte];
        proof {
            lemma_single_byte_utf8(byte);
            assert(buf@ =~= seq![byte]);
        }
        match str_from_utf8(vstd::array::array_as_slice(&buf)) {
            Ok(c) => {
                assert(c.spec_bytes() =~= seq![byte]);
                if byte == CARRIAGE_RETURN {
                    let mut msg = message_new();
                    let text = line_as_str(&self.line);
                    let _ = message_extend_from_slice(&mut msg, text.as_bytes());
                    line_clear(&mut self.line);
                    Some(msg)
                } else {
                    let _ = line_push_str(&mut self.line, c);
                    proof {
                        assert forall|i: int| 0 <= i < self@.len() implies is_ascii_byte(#[trigger] self@[i]) && self@[i] != CARRIAGE_RETURN by {
                            if i < old(self)@.len() {
                                assert(old(self)@[i] == self@[i]);
                            }
                        }
                    }
                    None
                }
            },
            Err(_) => None,
        }
    }
}

/// Typing line bytes keeps the first `LINE_CAP` of them collected and hands
/// nothing over.
pub proof fn lemma_feed_collects(bytes: Seq<u8>)
    requires
        line_content(bytes),
    ensures
        line_feed(Seq::empty(), bytes) == (
            bytes.take(if bytes.len() <= LINE_CAP { bytes.len() as int } else { LINE_CAP as int }),
            Seq::<Seq<u8>>::empty(),
        ),
    decreases bytes.len(),
{
    if bytes.len() > 0 {
        let init = bytes.drop_last();
        assert forall|i: int| 0 <= i < init.len() implies is_ascii_byte(#[trigger] init[i]) && init[i] != CARRIAGE_RETURN by {
            assert(init[i] == bytes[i]);
        }
        lemma_feed_collects(init);
        let n = bytes.len() as int;
        assert(is_ascii_byte(bytes[n - 1]) && bytes[n - 1] != CARRIAGE_RETURN);
        if n <= LINE_CAP {
            assert(init.take(n - 1).push(bytes.last()) =~= bytes.take(n));
        } else {
            assert(init.take(LINE_CAP as int) =~= bytes.take(LINE_CAP as int));
        }
    } else {
        assert(bytes.take(0) =~= Seq::<u8>::empty());
    }
}

/// A typed line followed by a carriage return is handed over whole when it fits
/// in a message, and empty otherwise; nothing stays collected.
pub proof fn lemma_line_handed_over(bytes: Seq<u8>)
    requires
        line_content(bytes),
    ensures
        line_feed(Seq::empty(), bytes.push(CARRIAGE_RETURN)) == (
            Seq::<u8>::empty(),
            seq![if bytes.len() <= MESSAGE_CAP { bytes } else { Seq::<u8>::empty() }],
        ),
{
    lemma_feed_collects(bytes);
    assert(bytes.push(CARRIAGE_RETURN).drop_last() =~= bytes);
    if bytes.len() <= LINE_CAP {
        assert(bytes.take(bytes.len() as int) =~= bytes);
    }
    assert(Seq::<Seq<u8>>::empty().push(if bytes.len() <= MESSAGE_CAP { bytes } else { Seq::<u8>::empty() })
        =~= seq![if bytes.len() <= MESSAGE_CAP { bytes } else { Seq::<u8>::empty() }]);
}

/// One more received byte extends a run: after `receive` on a reader that holds
/// what a run of bytes left collected, the reader holds what the run with the
/// byte appended leaves, and the message handed over, if any, is the one that
/// the longer run adds.
pub proof fn lemma_receive_extends_feed(line: Seq<u8>, bytes: Seq<u8>, byte: u8)
    ensures
        line_feed(line, bytes.push(byte)).0 == line_step(line_feed(line, bytes).0, byte).0,
        line_feed(line, bytes.push(byte)).1 == match line_step(line_feed(line, bytes).0, byte).1 {
            Some(m) => line_feed(line, bytes).1.push(m),
            None => line_feed(line, bytes).1,
        },
{
    assert(bytes.push(byte).drop_last() =~= bytes);
}

pub open spec fn ascii_pred() -> spec_fn(u8) -> bool {
    |b: u8| is_ascii_byte(b)
}

/// The bytes of a run that are not ignored: its ASCII bytes, in order.
pub open spec fn ascii_bytes(bytes: Seq<u8>) -> Seq<u8> {
    bytes.filter(ascii_pred())
}

/// Splits `bytes` at carriage returns, which are left out, continuing the
/// segment `current`: the finished segments, in order, and the unfinished one.
pub open spec fn split_lines(current: Seq<u8>, bytes: Seq<u8>) -> (Seq<Seq<u8>>, Seq<u8>)
    decreases bytes.len(),
{
    if bytes.len() == 0 {
        (Seq::empty(), current)
    } else {
        let prev = split_lines(current, bytes.drop_last());
        if bytes.last() == CARRIAGE_RETURN {
            (prev.0.push(prev.1), Seq::empty())
        } else {
            (prev.0, prev.1.push(bytes.last()))
        }
    }
}

/// The part of a segment that the line buffer keeps: its first `LINE_CAP` bytes.
pub open spec fn cut_line(segment: Seq<u8>) -> Seq<u8> {
    if segment.len() <= LINE_CAP {
        segment
    } else {
        segment.take(LINE_CAP as int)
    }
}

/// The message handed over for a finished segment: the kept part when it fits
/// in a message, and the empty message otherwise.
pub open spec fn message_of(segment: Seq<u8>) -> Seq<u8> {
    if cut_line(segment).len() <= MESSAGE_CAP {
        cut_line(segment)
    } else {
        Seq::empty()
    }
}

pub open spec fn messages_of(segments: Seq<Seq<u8>>) -> Seq<Seq<u8>> {
    segments.map_values(|s: Seq<u8>| message_of(s))
}

/// Over any run of bytes, from any collected line: the bytes of 0x80 and above
/// are dropped, the rest is split at carriage returns, one message is handed
/// over per carriage return, in order, each the first `LINE_CAP` bytes of its
/// segment when they fit in a message and empty otherwise; what follows the
/// last carriage return stays collected, cut to `LINE_CAP` bytes.
pub proof fn lemma_feed_splits(line: Seq<u8>, bytes: Seq<u8>)
    requires
        line.len() <= LINE_CAP,
    ensures
        line_feed(line, bytes) == (
            cut_line(split_lines(line, ascii_bytes(bytes)).1),
            messages_of(split_lines(line, ascii_bytes(bytes)).0),
        ),
    decreases bytes.len(),
{
    let p = ascii_pred();
    if bytes.len() == 0 {
        reveal(Seq::filter);
        assert(ascii_bytes(bytes) =~= Seq::<u8>::empty());
        assert(messages_of(Seq::<Seq<u8>>::empty()) =~= Seq::<Seq<u8>>::empty());
    } else {
        let init = bytes.drop_last();
        let b = bytes.last();
        lemma_feed_splits(line, init);
        let fi = ascii_bytes(init);
        let prev = split_lines(line, fi);
        let fed = line_feed(line, init);
        assert(ascii_bytes(bytes) == if is_ascii_byte(b) { fi.push(b) } else { fi }) by {
            reveal_with_fuel(Seq::filter, 1);
        }
        if is_ascii_byte(b) {
            assert(fi.push(b).drop_last() =~= fi);
            assert(fi.push(b).last() == b);
            if b == CARRIAGE_RETURN {
                assert(messages_of(prev.0.push(prev.1)) =~= messages_of(prev.0).push(message_of(prev.1)));
                assert(cut_line(Seq::<u8>::empty()) =~= Seq::<u8>::empty());
            } else {
                let cur = prev.1;
                if cur.len() < LINE_CAP {
                    assert(cut_line(cur.push(b)) =~= cut_line(cur).push(b));
                } else {
                    assert(cut_line(cur.push(b)) =~= cut_line(cur));
                }
            }
        }
    }
}

} // verus!
