//! The per-call buffers: the text that has arrived but is no complete
//! message yet, and the messages that were read but not yet asked for.
use crate::agiparse::{
    head, message_of, status_of, tail, AGIMessage, AGIParseError, AGIStatusGeneric, MessageView,
    ParseErrorView, StatusView,
};
use crate::command::{AGICommand, AGIResponse, InnerAGIResponse};
use crate::text::{
    find_char, first_index_of, has_prefix, is_first_index_of, is_text, lemma_first_index_of,
    lemma_trimmed_end_is_prefix, occurs_at, occurs_here, to_chars, to_string, trimmed_end,
};
use crate::AGIError;
use std::collections::VecDeque;
use vstd::prelude::*;
use vstd::slice::slice_subrange;
use vstd::utf8::{decode_utf8, valid_utf8};

verus! {

// ---------------------------------------------------------------------------
// Lines
// ---------------------------------------------------------------------------
/// What one line, taken with its newline, is.
#[derive(Debug, PartialEq, Eq, Structural, Clone, Copy)]
pub enum LineType {
    /// `agi_network: yes`
    NetworkStart,
    /// Nothing but the newline
    Empty,
    /// A status line: three bytes, then ` result=`
    Status,
    /// Anything else
    Unknown,
}

/// How many bytes the UTF-8 encoding of `c` has.
pub open spec fn utf8_width(c: char) -> int {
    let u = c as u32;
    if u < 0x80 {
        1
    } else if u < 0x800 {
        2
    } else if u < 0x10000 {
        3
    } else {
        4
    }
}

/// How many characters the first three bytes of `line` encode, where the
/// third byte ends a character.
pub open spec fn chars_in_three_bytes(line: Seq<char>) -> Option<int> {
    if line.len() >= 1 && utf8_width(line[0]) == 3 {
        Some(1)
    } else if line.len() >= 2 && utf8_width(line[0]) + utf8_width(line[1]) == 3 {
        Some(2)
    } else if line.len() >= 3 && utf8_width(line[0]) + utf8_width(line[1]) + utf8_width(line[2])
        == 3 {
        Some(3)
    } else {
        None
    }
}

/// Whether ` result=` stands in `line` right after its first three bytes.
pub open spec fn is_status_shaped(line: Seq<char>) -> bool {
    match chars_in_three_bytes(line) {
        Some(k) => occurs_at(line, " result="@, k),
        None => false,
    }
}

/// What the line `line`, taken with its newline, is.
pub open spec fn line_type_of(line: Seq<char>) -> LineType {
    if line == "\n"@ {
        LineType::Empty
    } else if line == "agi_network: yes\n"@ {
        LineType::NetworkStart
    } else if is_status_shaped(line) {
        LineType::Status
    } else {
        LineType::Unknown
    }
}

fn utf8_width_of(c: char) -> (w: usize)
    ensures
        w == utf8_width(c),
{
    let u: u32 = c as u32;
    if u < 0x80 {
        1
    } else if u < 0x800 {
        2
    } else if u < 0x10000 {
        3
    } else {
        4
    }
}

fn status_shaped(line: &[char]) -> (r: bool)
    ensures
        r == is_status_shaped(line@),
{
    let k: usize = if line.len() >= 1 && utf8_width_of(line[0]) == 3 {
        1
    } else if line.len() >= 2 && utf8_width_of(line[0]) + utf8_width_of(line[1]) == 3 {
        2
    } else if line.len() >= 3 && utf8_width_of(line[0]) + utf8_width_of(line[1]) + utf8_width_of(
        line[2],
    ) == 3 {
        3
    } else {
        return false;
    };
    let marker = to_chars(" result=");
    occurs_here(line, marker.as_slice(), k)
}

/// Says what the line `line`, taken with its newline, is.
pub fn line_type(line: &str) -> (t: LineType)
    ensures
        t == line_type_of(line@),
{
    let chars = to_chars(line);
    line_type_chars(chars.as_slice())
}

fn line_type_chars(line: &[char]) -> (t: LineType)
    ensures
        t == line_type_of(line@),
{
    if is_text(line, "\n") {
        LineType::Empty
    } else if is_text(line, "agi_network: yes\n") {
        LineType::NetworkStart
    } else if status_shaped(line) {
        LineType::Status
    } else {
        LineType::Unknown
    }
}

// ---------------------------------------------------------------------------
// Peeling one message off the front
// ---------------------------------------------------------------------------
/// The first line of `text` at or after `start` that ends a message: where
/// it begins, and where its newline stands. A line ends a message unless it
/// is of unknown type. `None` where no complete line does.
pub open spec fn message_end(text: Seq<char>, start: int) -> Option<(int, int)>
    decreases text.len() - start,
{
    if start < 0 || start >= text.len() {
        None
    } else {
        let nl = start + first_index_of(text.skip(start), '\n');
        if nl < start || nl >= text.len() {
            None
        } else if line_type_of(text.subrange(start, nl + 1)) != LineType::Unknown {
            Some((start, nl))
        } else {
            message_end(text, nl + 1)
        }
    }
}

/// What peeling one message off the front of the buffered text gives.
pub enum Peeled {
    /// A message, and the text that is left
    Message(MessageView, Seq<char>),
    /// No complete message yet
    NeedMore,
    /// The text up to the line that ends the message is no message
    Refused(ParseErrorView),
}

/// What comes off the front of the buffered text `acc`.
///
/// The text is scanned line by line. An empty line or a status line ends a
/// message: the text up to and with that line is the message. A network
/// start line is a message by itself, whatever stood before it. Where no
/// complete line ends a message, a buffer that looks like a status and
/// reads as one is taken whole; else more text is needed.
pub open spec fn peeled(acc: Seq<char>) -> Peeled {
    if acc.len() == 0 {
        Peeled::NeedMore
    } else {
        match message_end(acc, 0) {
            Some((start, nl)) => if line_type_of(acc.subrange(start, nl + 1))
                == LineType::NetworkStart {
                Peeled::Message(MessageView::NetworkStart, acc.skip(nl + 1))
            } else {
                match message_of(acc.take(nl + 1)) {
                    Ok(m) => Peeled::Message(m, acc.skip(nl + 1)),
                    Err(e) => Peeled::Refused(e),
                }
            },
            None => if is_status_shaped(acc) {
                match message_of(acc) {
                    Ok(m) => Peeled::Message(m, Seq::empty()),
                    Err(_) => Peeled::NeedMore,
                }
            } else {
                Peeled::NeedMore
            },
        }
    }
}

/// Where the first message in `text` ends, if a complete line ends one.
fn find_message_end(text: &[char]) -> (r: Option<(usize, usize, LineType)>)
    ensures
        match r {
            Some((start, nl, t)) => message_end(text@, 0) == Some((start as int, nl as int))
                && start <= nl < text@.len() && t == line_type_of(
                text@.subrange(start as int, nl + 1),
            ) && t != LineType::Unknown,
            None => message_end(text@, 0) is None,
        },
{
    let mut start: usize = 0;
    while start < text.len()
        invariant
            start <= text@.len(),
            message_end(text@, start as int) == message_end(text@, 0),
        decreases text@.len() - start,
    {
        let tail = slice_subrange(text, start, text.len());
        assert(tail@ == text@.skip(start as int));
        let nl = start + find_char(tail, '\n');
        if nl >= text.len() {
            return None;
        }
        let t = line_type_chars(slice_subrange(text, start, nl + 1));
        if t != LineType::Unknown {
            return Some((start, nl, t));
        }
        start = nl + 1;
    }
    None
}

/// The text of one connection that has arrived but is no complete message yet.
#[derive(Debug)]
pub struct AGIMessageBuffer {
    /// The text read so far that belongs to the next message
    pub this_message: String,
}

impl AGIMessageBuffer {
    /// An empty buffer.
    pub fn new() -> (r: Self)
        ensures
            r.this_message@ == Seq::<char>::empty(),
    {
        AGIMessageBuffer { this_message: String::new() }
    }

    /// Reads all of the buffer as one message and empties it. An empty
    /// buffer gives `None`; a buffer that is no message is left as it is.
    pub fn try_parse_and_flush(&mut self) -> (r: Result<Option<AGIMessage>, AGIParseError>)
        ensures
            old(self).this_message@.len() == 0 ==> (r matches Ok(None)) && final(self).this_message@
                == old(self).this_message@,
            old(self).this_message@.len() > 0 ==> match r {
                Ok(Some(m)) => message_of(old(self).this_message@) == Ok::<
                    MessageView,
                    ParseErrorView,
                >(m@) && final(self).this_message@ == Seq::<char>::empty(),
                Ok(None) => false,
                Err(e) => message_of(old(self).this_message@) == Err::<
                    MessageView,
                    ParseErrorView,
                >(e@) && final(self).this_message@ == old(self).this_message@,
            },
    {
        if self.this_message.as_str().unicode_len() == 0 {
            return Ok(None);
        }
        let msg = AGIMessage::parse(self.this_message.as_str())?;
        self.this_message = String::new();
        Ok(Some(msg))
    }

    /// Takes one message off the front of the buffer.
    ///
    /// Gives `Ok(None)` where the buffer holds no complete message, and an
    /// error where the text up to the line that ends a message is none. In
    /// both cases the buffer stays as it is.
    pub fn strip_single_message(&mut self) -> (r: Result<Option<AGIMessage>, AGIParseError>)
        ensures
            match r {
                Ok(Some(m)) => peeled(old(self).this_message@) == Peeled::Message(
                    m@,
                    final(self).this_message@,
                ) && final(self).this_message@.len() < old(self).this_message@.len(),
                Ok(None) => peeled(old(self).this_message@) == Peeled::NeedMore && final(self).this_message@ == old(self).this_message@,
                Err(e) => peeled(old(self).this_message@) == Peeled::Refused(e@) && final(self).this_message@ == old(self).this_message@,
            },
    {
        let chars = to_chars(self.this_message.as_str());
        let acc = chars.as_slice();
        if acc.len() == 0 {
            return Ok(None);
        }
        match find_message_end(acc) {
            Some((_, nl, t)) => {
                let rest = slice_subrange(acc, nl + 1, acc.len());
                if t == LineType::NetworkStart {
                    self.this_message = to_string(rest);
                    return Ok(Some(AGIMessage::NetworkStart));
                }
                let msg = AGIMessage::parse_chars(slice_subrange(acc, 0, nl + 1))?;
                self.this_message = to_string(rest);
                Ok(Some(msg))
            },
            None => {
                if status_shaped(acc) {
                    match self.try_parse_and_flush() {
                        Ok(x) => Ok(x),
                        Err(_) => Ok(None),
                    }
                } else {
                    Ok(None)
                }
            },
        }
    }
}


// ---------------------------------------------------------------------------
// Feeding the buffer
// ---------------------------------------------------------------------------
/// What feeding text to the buffer gives: the messages that came off, or
/// the error, and the text that is left in the buffer.
pub struct Fed {
    pub outcome: Result<Seq<MessageView>, ParseErrorView>,
    pub left: Seq<char>,
}

/// `f`, with the messages `ms` before those that it gives.
pub open spec fn after_messages(ms: Seq<MessageView>, f: Fed) -> Fed {
    Fed {
        outcome: match f.outcome {
            Ok(more) => Ok(ms + more),
            Err(e) => Err(e),
        },
        left: f.left,
    }
}

/// What peeling messages off the buffered text `acc` gives, when `before`
/// messages came off in this scan already.
///
/// Messages are peeled until more text is needed. A text that is refused
/// stays in the buffer. A network start that is not the first message of
/// the scan is a protocol error; its line has left the buffer by then.
pub open spec fn drained(acc: Seq<char>, before: nat) -> Fed
    decreases acc.len(),
{
    match peeled(acc) {
        Peeled::NeedMore => Fed { outcome: Ok(Seq::empty()), left: acc },
        Peeled::Refused(e) => Fed { outcome: Err(e), left: acc },
        Peeled::Message(m, rest) => if m is NetworkStart && before > 0 {
            Fed { outcome: Err(ParseErrorView::NetworkStartAfterOtherMessage), left: rest }
        } else if rest.len() < acc.len() {
            after_messages(seq![m], drained(rest, before + 1))
        } else {
            Fed { outcome: Ok(seq![m]), left: rest }
        },
    }
}

/// What feeding `chunk` to a buffer that holds `acc` gives.
pub open spec fn fed(acc: Seq<char>, chunk: Seq<char>) -> Fed {
    drained(acc + chunk, 0)
}

/// The values of a list of messages.
pub open spec fn message_views(v: Seq<AGIMessage>) -> Seq<MessageView> {
    Seq::new(v.len(), |i: int| v[i]@)
}

impl AGIMessageBuffer {
    /// Takes in what one read returned, as text without NUL characters,
    /// and hands out the messages that are complete now.
    ///
    /// On an error the messages that came off before it are dropped.
    pub fn handle_single_call_buffer(&mut self, buf: &str) -> (r: Result<
        Vec<AGIMessage>,
        AGIParseError,
    >)
        ensures
            final(self).this_message@ == fed(old(self).this_message@, buf@).left,
            match r {
                Ok(v) => fed(old(self).this_message@, buf@).outcome == Ok::<
                    Seq<MessageView>,
                    ParseErrorView,
                >(message_views(v@)),
                Err(e) => fed(old(self).this_message@, buf@).outcome == Err::<
                    Seq<MessageView>,
                    ParseErrorView,
                >(e@),
            },
    {
        let mut res: Vec<AGIMessage> = Vec::with_capacity(2);
        self.this_message.append(buf);
        let ghost target = fed(old(self).this_message@, buf@);
        assert(message_views(res@) + Seq::<MessageView>::empty() == message_views(res@));
        assert(message_views(res@) == Seq::<MessageView>::empty());
        loop
            invariant
                target == fed(old(self).this_message@, buf@),
                after_messages(message_views(res@), drained(self.this_message@, res@.len()))
                    == target,
            decreases self.this_message@.len(),
        {
            let ghost acc = self.this_message@;
            let ghost sofar = message_views(res@);
            match self.strip_single_message() {
                Err(e) => {
                    return Err(e);
                },
                Ok(None) => {
                    assert(sofar + Seq::<MessageView>::empty() == sofar);
                    return Ok(res);
                },
                Ok(Some(x)) => {
                    let is_start = match x {
                        AGIMessage::NetworkStart => true,
                        _ => false,
                    };
                    if is_start && res.len() > 0 {
                        return Err(AGIParseError::NetworkStartAfterOtherMessage);
                    }
                    res.push(x);
                    proof {
                        assert(message_views(res@) == sofar + seq![x@]);
                        let more = drained(self.this_message@, res@.len());
                        match more.outcome {
                            Ok(ms) => {
                                assert(sofar + (seq![x@] + ms) == (sofar + seq![x@]) + ms);
                            },
                            Err(_) => {},
                        }
                    }
                },
            }
        }
    }
}


// ---------------------------------------------------------------------------
// The connection
// ---------------------------------------------------------------------------
/// `core::str::from_utf8`: the text that `bytes` encode, where they are valid
/// UTF-8, else `None`.
#[verifier::external_body]
fn text_of_bytes(bytes: &[u8]) -> (r: Option<&str>)
    ensures
        r is Some <==> valid_utf8(bytes@),
        r matches Some(s) ==> s@ == decode_utf8(bytes@),
{
    core::str::from_utf8(bytes).ok()
}

/// `text` up to its first NUL character.
pub open spec fn before_nul(text: Seq<char>) -> Seq<char> {
    text.take(first_index_of(text, '\0'))
}

/// What one read from the stream gives to a buffer that holds `acc`.
///
/// `bytes_read` is what the read returned: `None` where it failed, else the
/// number of bytes it put into `buf`. A failed read, a read of no bytes and a
/// buffer that is not UTF-8 are errors and leave `acc` as it is. Else the
/// text of the buffer up to its first NUL is fed to the parser.
pub open spec fn received(acc: Seq<char>, buf: Seq<u8>, bytes_read: Option<usize>) -> Fed {
    match bytes_read {
        None => Fed { outcome: Err(ParseErrorView::ReadError), left: acc },
        Some(n) => if n == 0 {
            Fed { outcome: Err(ParseErrorView::NoBytes), left: acc }
        } else if !valid_utf8(buf) {
            Fed { outcome: Err(ParseErrorView::NotUtf8), left: acc }
        } else {
            fed(acc, before_nul(decode_utf8(buf)))
        },
    }
}

/// What the reply `message` to a command with the response type `R` is.
pub enum Specialized<V> {
    /// A 200 status that is a reply to the command
    Okay(V),
    /// 510
    Invalid,
    /// 511
    DeadChannel,
    /// 520
    EndUsage,
    /// The message is no status
    NotAStatus,
    /// A 200 status that is no reply to the command
    Unspecializable,
}

/// Reads `message` as the reply to a command with the response type `R`.
pub open spec fn specialized<R: InnerAGIResponse>(message: MessageView) -> Specialized<R::V> {
    match message {
        MessageView::Status(StatusView::Okay(result, op_data)) => match R::response_of(
            result,
            op_data,
        ) {
            Some(v) => Specialized::Okay(v),
            None => Specialized::Unspecializable,
        },
        MessageView::Status(StatusView::Invalid) => Specialized::Invalid,
        MessageView::Status(StatusView::DeadChannel) => Specialized::DeadChannel,
        MessageView::Status(StatusView::EndUsage) => Specialized::EndUsage,
        _ => Specialized::NotAStatus,
    }
}

/// The borrowed form of an optional text.
fn as_deref(o: &Option<String>) -> (r: Option<&str>)
    ensures
        crate::command::str_view(r) == crate::agiparse::text_view(*o),
{
    match o {
        Some(s) => Some(s.as_str()),
        None => None,
    }
}

/// The state of one call between reads: the text that is no complete
/// message yet, and the messages that were read but not asked for.
#[derive(Debug)]
pub struct Connection {
    message_buf: AGIMessageBuffer,
    queued_messages: VecDeque<AGIMessage>,
}

impl Connection {
    /// The text that has arrived but is no complete message yet.
    pub closed spec fn buffered(&self) -> Seq<char> {
        self.message_buf.this_message@
    }

    /// The messages that were read but not asked for, the oldest first.
    pub closed spec fn queued(&self) -> Seq<MessageView> {
        message_views(self.queued_messages@)
    }

    /// The state at the start of a call.
    pub fn new() -> (c: Connection)
        ensures
            c.buffered() == Seq::<char>::empty(),
            c.queued() == Seq::<MessageView>::empty(),
    {
        let c = Connection {
            message_buf: AGIMessageBuffer::new(),
            queued_messages: VecDeque::with_capacity(2),
        };
        assert(c.queued() =~= Seq::<MessageView>::empty());
        c
    }

    /// Takes in what one read from the stream returned and hands out the
    /// messages that are complete now.
    ///
    /// `buf` is the buffer that was read into, all of it; `bytes_read` is
    /// what the read returned, `None` where it failed.
    pub fn read_single_call(&mut self, buf: &[u8], bytes_read: Option<usize>) -> (r: Result<
        Vec<AGIMessage>,
        AGIParseError,
    >)
        ensures
            final(self).buffered() == received(old(self).buffered(), buf@, bytes_read).left,
            final(self).queued() == old(self).queued(),
            match r {
                Ok(v) => received(old(self).buffered(), buf@, bytes_read).outcome == Ok::<
                    Seq<MessageView>,
                    ParseErrorView,
                >(message_views(v@)),
                Err(e) => received(old(self).buffered(), buf@, bytes_read).outcome == Err::<
                    Seq<MessageView>,
                    ParseErrorView,
                >(e@),
            },
    {
        let n = match bytes_read {
            Some(n) => n,
            None => {
                return Err(AGIParseError::ReadError);
            },
        };
        if n == 0 {
            return Err(AGIParseError::NoBytes);
        }
        let text = match text_of_bytes(buf) {
            Some(t) => t,
            None => {
                return Err(AGIParseError::NotUtf8);
            },
        };
        let chars = to_chars(text);
        let end = find_char(chars.as_slice(), '\0');
        let kept = to_string(slice_subrange(chars.as_slice(), 0, end));
        self.message_buf.handle_single_call_buffer(kept.as_str())
    }

    /// Puts messages that were read at the end of the queue.
    pub fn queue_messages(&mut self, messages: Vec<AGIMessage>)
        ensures
            final(self).queued() == old(self).queued() + message_views(messages@),
            final(self).buffered() == old(self).buffered(),
    {
        let mut rest = messages;
        let mut reversed: Vec<AGIMessage> = Vec::new();
        while rest.len() > 0
            invariant
                message_views(rest@) + message_views(reversed@).reverse() == message_views(
                    messages@,
                ),
            decreases rest@.len(),
        {
            let ghost r0 = message_views(rest@);
            let ghost v0 = message_views(reversed@);
            let m = rest.pop().unwrap();
            reversed.push(m);
            proof {
                assert(message_views(rest@) =~= r0.drop_last());
                assert(message_views(reversed@) =~= v0.push(r0.last()));
                assert(v0.push(r0.last()).reverse() =~= seq![r0.last()] + v0.reverse());
                assert(r0.drop_last() + (seq![r0.last()] + v0.reverse()) =~= r0 + v0.reverse());
            }
        }
        assert(message_views(rest@) =~= Seq::<MessageView>::empty());
        assert(message_views(reversed@).reverse() =~= message_views(messages@));
        while reversed.len() > 0
            invariant
                self.buffered() == old(self).buffered(),
                self.queued() + message_views(reversed@).reverse() == old(self).queued()
                    + message_views(messages@),
            decreases reversed@.len(),
        {
            let ghost q0 = self.queued();
            let ghost v0 = message_views(reversed@);
            let m = reversed.pop().unwrap();
            self.queued_messages.push_back(m);
            proof {
                assert(message_views(reversed@) =~= v0.drop_last());
                assert(self.queued() =~= q0.push(v0.last()));
                assert(v0.reverse() =~= seq![v0.last()] + v0.drop_last().reverse());
                assert(q0.push(v0.last()) + v0.drop_last().reverse() =~= q0 + v0.reverse());
            }
        }
        assert(message_views(reversed@).reverse() =~= Seq::<MessageView>::empty());
        assert(self.queued() + Seq::<MessageView>::empty() =~= self.queued());
    }

    /// Hands out the oldest message that was read but not asked for; `None`
    /// where there is none, and the stream has to be read.
    pub fn read_one_message(&mut self) -> (r: Option<AGIMessage>)
        ensures
            final(self).buffered() == old(self).buffered(),
            match r {
                Some(m) => old(self).queued().len() > 0 && m@ == old(self).queued()[0] && final(self).queued() == old(self).queued().drop_first(),
                None => old(self).queued().len() == 0 && final(self).queued() == old(self).queued(),
            },
    {
        let r = self.queued_messages.pop_front();
        proof {
            if r is Some {
                assert(self.queued() =~= old(self).queued().drop_first());
            }
        }
        r
    }

    /// Reads `message` as the reply to a command of the kind `H`.
    ///
    /// A 200 status is read by the response type of the command; the three
    /// other statuses pass as they are. A message that is no status is an
    /// error, and so is a 200 status that is no reply to the command.
    pub fn agi_response_as_specialized_status<H: AGICommand>(message: AGIMessage) -> (r: Result<
        AGIResponse<H::Response>,
        AGIError,
    >)
        ensures
            match specialized::<H::Response>(message@) {
                Specialized::Okay(v) => r matches Ok(AGIResponse::Okay(x)) && x@ == v,
                Specialized::Invalid => r matches Ok(AGIResponse::Invalid),
                Specialized::DeadChannel => r matches Ok(AGIResponse::DeadChannel),
                Specialized::EndUsage => r matches Ok(AGIResponse::EndUsage),
                Specialized::NotAStatus => r matches Err(AGIError::NotAStatus(m)) && m == message,
                Specialized::Unspecializable => r matches Err(
                    AGIError::AGIStatusUnspecializable(st, name),
                ) && message == AGIMessage::Status(st) && name@
                    == <H::Response as InnerAGIResponse>::command_name(),
            },
    {
        let status = match message {
            AGIMessage::Status(x) => x,
            x => {
                return Err(AGIError::NotAStatus(x));
            },
        };
        match status {
            AGIStatusGeneric::Okay(result, op_data) => {
                match <H::Response as InnerAGIResponse>::specialize(
                    result.as_str(),
                    as_deref(&op_data),
                ) {
                    Ok(x) => Ok(AGIResponse::Okay(x)),
                    Err(e) => Err(
                        AGIError::AGIStatusUnspecializable(
                            AGIStatusGeneric::Okay(result, op_data),
                            e.response_to_command,
                        ),
                    ),
                }
            },
            AGIStatusGeneric::Invalid => Ok(AGIResponse::Invalid),
            AGIStatusGeneric::DeadChannel => Ok(AGIResponse::DeadChannel),
            AGIStatusGeneric::EndUsage => Ok(AGIResponse::EndUsage),
        }
    }
}


// ---------------------------------------------------------------------------
// Fragmentation
// ---------------------------------------------------------------------------
/// Whether peeling messages off `acc` ends by taking a buffer that holds
/// no line end as a status.
pub open spec fn ends_by_guess(acc: Seq<char>) -> bool
    decreases acc.len(),
{
    match peeled(acc) {
        Peeled::Message(_, rest) => if message_end(acc, 0) is None {
            true
        } else if rest.len() < acc.len() {
            ends_by_guess(rest)
        } else {
            false
        },
        _ => false,
    }
}

/// The chunks, one after the other, as one text.
pub open spec fn joined_chunks(chunks: Seq<Seq<char>>) -> Seq<char>
    decreases chunks.len(),
{
    if chunks.len() == 0 {
        Seq::empty()
    } else {
        joined_chunks(chunks.drop_last()) + chunks.last()
    }
}

/// What feeding the chunks one after the other to an empty buffer gives:
/// all the messages that came off, and the text that is left at the end.
/// After an error nothing more is fed.
pub open spec fn fed_in_turn(chunks: Seq<Seq<char>>) -> Fed
    decreases chunks.len(),
{
    if chunks.len() == 0 {
        Fed { outcome: Ok(Seq::empty()), left: Seq::empty() }
    } else {
        let before = fed_in_turn(chunks.drop_last());
        match before.outcome {
            Ok(ms) => after_messages(ms, fed(before.left, chunks.last())),
            Err(_) => before,
        }
    }
}

/// The line that ends a message lies in the text, at or after the start
/// of the search.
pub proof fn lemma_message_end_bounds(text: Seq<char>, start: int)
    ensures
        match message_end(text, start) {
            Some((s, nl)) => 0 <= start <= s <= nl < text.len() && line_type_of(
                text.subrange(s, nl + 1),
            ) != LineType::Unknown,
            None => true,
        },
    decreases text.len() - start,
{
    if 0 <= start < text.len() {
        lemma_first_index_of(text.skip(start), '\n');
        let nl = start + first_index_of(text.skip(start), '\n');
        if start <= nl < text.len() && line_type_of(text.subrange(start, nl + 1))
            == LineType::Unknown {
            lemma_message_end_bounds(text, nl + 1);
        }
    }
}

/// More text after it does not change which line ends the first message.
proof fn lemma_message_end_stable(text: Seq<char>, ext: Seq<char>, start: int)
    requires
        message_end(text, start) is Some,
    ensures
        message_end(text + ext, start) == message_end(text, start),
    decreases text.len() - start,
{
    let long = text + ext;
    lemma_first_index_of(text.skip(start), '\n');
    lemma_first_index_of(long.skip(start), '\n');
    let k = first_index_of(text.skip(start), '\n');
    let nl = start + k;
    assert(0 <= start < text.len());
    assert(start <= nl < text.len());
    assert(is_first_index_of(long.skip(start), '\n', k)) by {
        assert forall|j: int| 0 <= j <= k implies long.skip(start)[j] == text.skip(start)[j] by {}
    }
    assert(first_index_of(long.skip(start), '\n') == k);
    assert(long.subrange(start, nl + 1) =~= text.subrange(start, nl + 1));
    if line_type_of(text.subrange(start, nl + 1)) == LineType::Unknown {
        lemma_message_end_stable(text, ext, nl + 1);
    }
}

/// Where a complete line ends the first message, more text after it does
/// not change what comes off: only the text that is left grows.
proof fn lemma_peeled_stable(acc: Seq<char>, ext: Seq<char>)
    requires
        message_end(acc, 0) is Some,
    ensures
        peeled(acc + ext) == (match peeled(acc) {
            Peeled::Message(m, rest) => Peeled::Message(m, rest + ext),
            other => other,
        }),
        peeled(acc) is Message ==> peeled(acc)->Message_1.len() < acc.len(),
        !(peeled(acc) is NeedMore),
{
    lemma_message_end_bounds(acc, 0);
    lemma_message_end_stable(acc, ext, 0);
    let (s, nl) = message_end(acc, 0)->0;
    let long = acc + ext;
    assert(long.subrange(s, nl + 1) =~= acc.subrange(s, nl + 1));
    assert(long.take(nl + 1) =~= acc.take(nl + 1));
    assert(long.skip(nl + 1) =~= acc.skip(nl + 1) + ext);
}

/// How many messages came off before matters only as none or some.
proof fn lemma_drained_count(acc: Seq<char>, c1: nat, c2: nat)
    requires
        c1 > 0,
        c2 > 0,
    ensures
        drained(acc, c1) == drained(acc, c2),
    decreases acc.len(),
{
    match peeled(acc) {
        Peeled::Message(m, rest) => {
            if !(m is NetworkStart) && rest.len() < acc.len() {
                lemma_drained_count(rest, c1 + 1, c2 + 1);
            }
        },
        _ => {},
    }
}

/// A scan that succeeds after other messages succeeds alike as a scan of its own.
proof fn lemma_drained_from_zero(acc: Seq<char>, c: nat)
    requires
        drained(acc, c).outcome is Ok,
    ensures
        drained(acc, 0) == drained(acc, c),
{
    if c > 0 {
        match peeled(acc) {
            Peeled::Message(m, rest) => {
                if rest.len() < acc.len() {
                    lemma_drained_count(rest, 1, c + 1);
                }
            },
            _ => {},
        }
    }
}

/// Peeling the messages off `x + b` is peeling them off `x` and then off
/// what that left with `b` after it, unless peeling `x` ends by a guess.
proof fn lemma_drained_extend(x: Seq<char>, b: Seq<char>, c: nat)
    requires
        !ends_by_guess(x),
        drained(x + b, c).outcome is Ok,
    ensures
        drained(x, c).outcome is Ok,
        drained(x + b, c) == after_messages(
            drained(x, c).outcome->Ok_0,
            drained(drained(x, c).left + b, c + drained(x, c).outcome->Ok_0.len()),
        ),
    decreases x.len(),
{
    let whole = drained(x + b, c);
    match peeled(x) {
        Peeled::NeedMore => {
            match whole.outcome {
                Ok(ms) => {
                    assert(Seq::<MessageView>::empty() + ms =~= ms);
                },
                Err(_) => {},
            }
        },
        Peeled::Refused(e) => {
            if message_end(x, 0) is Some {
                lemma_peeled_stable(x, b);
            }
        },
        Peeled::Message(m, rest) => {
            assert(message_end(x, 0) is Some);
            lemma_peeled_stable(x, b);
            assert(peeled(x + b) == Peeled::Message(m, rest + b));
            assert((rest + b).len() < (x + b).len());
            assert(!(m is NetworkStart && c > 0));
            let tail = drained(rest + b, c + 1);
            assert(whole == after_messages(seq![m], tail));
            lemma_drained_extend(rest, b, c + 1);
            let part = drained(rest, c + 1);
            let m1 = part.outcome->Ok_0;
            let last = drained(part.left + b, c + 1 + m1.len());
            assert(tail == after_messages(m1, last));
            assert(drained(x, c) == after_messages(seq![m], part));
            assert((seq![m] + m1).len() == 1 + m1.len());
            match last.outcome {
                Ok(ms) => {
                    assert(seq![m] + (m1 + ms) =~= (seq![m] + m1) + ms);
                },
                Err(_) => {},
            }
        },
    }
}

/// Feeding a text in two parts gives what feeding it at once gives, unless
/// the first part ends by a guess.
pub proof fn lemma_fed_in_two(acc: Seq<char>, a: Seq<char>, b: Seq<char>)
    requires
        !ends_by_guess(acc + a),
        fed(acc, a + b).outcome is Ok,
    ensures
        fed(acc, a).outcome is Ok,
        fed(acc, a + b) == after_messages(fed(acc, a).outcome->Ok_0, fed(fed(acc, a).left, b)),
{
    assert(acc + (a + b) =~= (acc + a) + b);
    lemma_drained_extend(acc + a, b, 0);
    let first = drained(acc + a, 0);
    lemma_drained_from_zero(first.left + b, first.outcome->Ok_0.len());
}

/// Fragmentation invariance: when a text that is fed to an empty buffer at
/// once gives messages, then feeding it in chunks, in order, gives the same
/// messages and leaves the same text, however the text is cut, as long as
/// no part of it before a cut ends by a guess.
pub proof fn lemma_fragmentation_invariance(chunks: Seq<Seq<char>>)
    requires
        fed(Seq::empty(), joined_chunks(chunks)).outcome is Ok,
        forall|k: int| 0 <= k < chunks.len() ==> !ends_by_guess(#[trigger] joined_chunks(chunks.take(k))),
    ensures
        fed_in_turn(chunks) == fed(Seq::empty(), joined_chunks(chunks)),
    decreases chunks.len(),
{
    let nothing = Seq::<char>::empty();
    if chunks.len() == 0 {
        assert(nothing + nothing =~= nothing);
        assert(peeled(nothing) == Peeled::NeedMore);
    } else {
        let prefix = chunks.drop_last();
        let x = joined_chunks(prefix);
        let b = chunks.last();
        assert(chunks.take(chunks.len() - 1) =~= prefix);
        assert(!ends_by_guess(x));
        assert(nothing + x =~= x);
        lemma_fed_in_two(nothing, x, b);
        assert forall|k: int| 0 <= k < prefix.len() implies !ends_by_guess(
            #[trigger] joined_chunks(prefix.take(k)),
        ) by {
            assert(prefix.take(k) =~= chunks.take(k));
        }
        lemma_fragmentation_invariance(prefix);
    }
}


/// A buffer that holds a line end is never taken as a status by a guess:
/// either a complete line ends a message in it, or it reads as no status.
proof fn lemma_line_end_bars_guess(acc: Seq<char>, at: int)
    requires
        0 <= at < acc.len(),
        acc[at] == '\n',
        is_status_shaped(acc),
        message_end(acc, 0) is None,
    ensures
        message_of(acc) is Err,
{
    reveal_strlit(" result=");
    reveal_strlit("result=");
    reveal_strlit("agi_network: yes");
    let marker = " result="@;
    let k = chars_in_three_bytes(acc)->0;
    lemma_first_index_of(acc, '\n');
    let nl = first_index_of(acc, '\n');
    assert(nl < acc.len());
    assert(acc.skip(0) =~= acc);
    assert forall|j: int| k <= j < k + 8 implies acc[j] != '\n' by {
        assert(acc.subrange(k, k + 8)[j - k] == acc[j]);
        assert(marker[j - k] != '\n');
    }
    if nl >= k + 8 {
        // The first line is complete and looks like a status: it ends a message.
        let line = acc.subrange(0, nl + 1);
        assert(line[0] == acc[0] && line[1] == acc[1] && line[2] == acc[2]);
        assert(line.subrange(k, k + 8) =~= acc.subrange(k, k + 8));
        assert(is_status_shaped(line));
        assert(line_type_of(line) != LineType::Unknown);
    } else {
        // The first line is shorter than three characters: it is no status.
        assert(nl < 3);
        assert(!has_prefix(acc, "agi_network: yes"@)) by {
            if has_prefix(acc, "agi_network: yes"@) {
                assert(acc.subrange(0, 16)[nl] == acc[nl]);
            }
        }
        assert(occurs_at(acc, marker, k));
        let first = head(acc, '\n');
        assert(first.len() == nl);
        let t = trimmed_end(first);
        lemma_trimmed_end_is_prefix(first);
        lemma_first_index_of(t, ' ');
        if tail(t, ' ') is Some {
            let rest = tail(t, ' ')->0;
            lemma_first_index_of(rest, ' ');
            let token = head(rest, ' ');
            assert(token.len() <= 1);
            assert(!has_prefix(token, "result="@));
        }
        assert(status_of(first) is Err);
    }
}

/// A text that ends with a line end never ends by a guess: cutting a text
/// after a line end does not change the messages that it gives.
pub proof fn lemma_line_end_is_safe_cut(x: Seq<char>)
    requires
        x.len() == 0 || x.last() == '\n',
    ensures
        !ends_by_guess(x),
    decreases x.len(),
{
    if x.len() > 0 {
        match peeled(x) {
            Peeled::Message(_, rest) => {
                if message_end(x, 0) is None {
                    if is_status_shaped(x) {
                        lemma_line_end_bars_guess(x, x.len() - 1);
                    }
                } else {
                    lemma_message_end_bounds(x, 0);
                    let (start, nl) = message_end(x, 0)->0;
                    assert(rest == x.skip(nl + 1));
                    if rest.len() > 0 {
                        assert(rest.last() == x.last());
                    }
                    lemma_line_end_is_safe_cut(rest);
                }
            },
            _ => {},
        }
    }
}


/// Chunks that end with a line end, one after the other, end with a line end.
proof fn lemma_joined_ends_with_line_end(chunks: Seq<Seq<char>>)
    requires
        forall|k: int|
            0 <= k < chunks.len() ==> (#[trigger] chunks[k]).len() == 0 || chunks[k].last()
                == '\n',
    ensures
        joined_chunks(chunks).len() == 0 || joined_chunks(chunks).last() == '\n',
    decreases chunks.len(),
{
    if chunks.len() > 0 {
        let prefix = chunks.drop_last();
        assert forall|k: int| 0 <= k < prefix.len() implies (#[trigger] prefix[k]).len() == 0
            || prefix[k].last() == '\n' by {
            assert(prefix[k] == chunks[k]);
        }
        lemma_joined_ends_with_line_end(prefix);
        let last = chunks[chunks.len() - 1];
        assert(last.len() == 0 || last.last() == '\n');
        if last.len() == 0 {
            assert(joined_chunks(prefix) + last =~= joined_chunks(prefix));
        }
    }
}

/// Fragmentation invariance for cuts at line ends: when a text that is fed
/// to an empty buffer at once gives messages, then feeding it in chunks of
/// whole lines gives the same messages and leaves the same text. Only the
/// last chunk may end within a line.
pub proof fn lemma_fragmentation_at_line_ends(chunks: Seq<Seq<char>>)
    requires
        fed(Seq::empty(), joined_chunks(chunks)).outcome is Ok,
        forall|k: int|
            0 <= k < chunks.len() - 1 ==> (#[trigger] chunks[k]).len() == 0 || chunks[k].last()
                == '\n',
    ensures
        fed_in_turn(chunks) == fed(Seq::empty(), joined_chunks(chunks)),
{
    assert forall|k: int| 0 <= k < chunks.len() implies !ends_by_guess(
        #[trigger] joined_chunks(chunks.take(k)),
    ) by {
        let before = chunks.take(k);
        assert forall|j: int| 0 <= j < before.len() implies (#[trigger] before[j]).len() == 0
            || before[j].last() == '\n' by {
            assert(before[j] == chunks[j]);
        }
        lemma_joined_ends_with_line_end(before);
        lemma_line_end_is_safe_cut(joined_chunks(before));
    }
    lemma_fragmentation_invariance(chunks);
}

} // verus!
