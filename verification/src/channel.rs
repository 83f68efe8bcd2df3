//! What a session does with each message its SSH channel delivers: output
//! (plain or extended data) is passed on, end of file or close ends the
//! session, anything else is skipped. A remote command's output is the
//! output received before the channel ends, read as UTF-8 with invalid
//! sequences replaced.

use vstd::prelude::*;
use vstd::utf8::{decode_utf8, valid_utf8};

verus! {

/// A message of an SSH channel, as far as a session reads it.
#[derive(Debug, PartialEq, Eq)]
pub enum ChannelMessage {
    Data(Vec<u8>),
    ExtendedData(Vec<u8>),
    Eof,
    Close,
    Other,
}

/// What to do with one channel message.
#[derive(Debug, PartialEq, Eq)]
pub enum ChannelStep {
    /// Pass these output bytes on.
    Output(Vec<u8>),
    /// The channel is done.
    Finish,
    /// Nothing to do.
    Skip,
}

/// A channel message as plain values.
pub enum ChannelMessageView {
    Data(Seq<u8>),
    Eof,
    Close,
    Other,
}

impl ChannelMessage {
    pub open spec fn view(&self) -> ChannelMessageView {
        match self {
            ChannelMessage::Data(d) => ChannelMessageView::Data(d@),
            ChannelMessage::ExtendedData(d) => ChannelMessageView::Data(d@),
            ChannelMessage::Eof => ChannelMessageView::Eof,
            ChannelMessage::Close => ChannelMessageView::Close,
            ChannelMessage::Other => ChannelMessageView::Other,
        }
    }
}

/// Whether a message ends the channel.
pub open spec fn ends_channel(m: ChannelMessageView) -> bool {
    m is Eof || m is Close
}

/// The output a run of messages delivers before the channel ends.
pub open spec fn output_before_end(ms: Seq<ChannelMessageView>) -> Seq<u8>
    decreases ms.len(),
{
    if ms.len() == 0 {
        Seq::empty()
    } else if ends_channel(ms[0]) {
        Seq::empty()
    } else {
        let rest = output_before_end(ms.drop_first());
        match ms[0] {
            ChannelMessageView::Data(d) => d + rest,
            _ => rest,
        }
    }
}

/// Whether a run of messages holds the end of the channel.
pub open spec fn has_end(ms: Seq<ChannelMessageView>) -> bool {
    exists|i: int| 0 <= i < ms.len() && ends_channel(#[trigger] ms[i])
}

/// Data of either kind is passed on, end of file and close finish the
/// session, and any other message is skipped.
pub fn channel_step(m: ChannelMessage) -> (s: ChannelStep)
    ensures
        match m@ {
            ChannelMessageView::Data(d) => s matches ChannelStep::Output(o) && o@ == d,
            ChannelMessageView::Eof | ChannelMessageView::Close => s is Finish,
            ChannelMessageView::Other => s is Skip,
        },
{
    match m {
        ChannelMessage::Data(data) => ChannelStep::Output(data),
        ChannelMessage::ExtendedData(data) => ChannelStep::Output(data),
        ChannelMessage::Eof => ChannelStep::Finish,
        ChannelMessage::Close => ChannelStep::Finish,
        ChannelMessage::Other => ChannelStep::Skip,
    }
}

/// The text that `String::from_utf8_lossy` makes of some bytes.
pub uninterp spec fn utf8_lossy(bytes: Seq<u8>) -> Seq<char>;

/// `String::from_utf8_lossy`: valid UTF-8 is decoded as it is; invalid
/// sequences become U+FFFD (what they become is left to the name).
#[verifier::external_body]
fn lossy_text(bytes: &[u8]) -> (s: String)
    ensures
        s@ == utf8_lossy(bytes@),
        valid_utf8(bytes@) ==> s@ == decode_utf8(bytes@),
{
    String::from_utf8_lossy(bytes).into_owned()
}

/// Collects a remote command's output until its channel ends.
pub struct ExecCollector {
    pub output: Vec<u8>,
    pub finished: bool,
}

impl ExecCollector {
    /// Nothing collected, channel open.
    pub fn new() -> (c: Self)
        ensures
            c.output@ == Seq::<u8>::empty(),
            !c.finished,
    {
        ExecCollector { output: Vec::new(), finished: false }
    }

    /// Takes one message and tells whether to keep reading. Once the channel
    /// has ended nothing more is taken.
    pub fn receive(&mut self, m: ChannelMessage) -> (more: bool)
        ensures
            more == !final(self).finished,
            old(self).finished ==> *final(self) == *old(self),
            !old(self).finished ==> final(self).finished == ends_channel(m@)
                && final(self).output@ == old(self).output@ + output_before_end(seq![m@]),
    {
        if self.finished {
            return false;
        }
        let ghost mv = m@;
        proof {
            assert(seq![mv].drop_first() =~= Seq::<ChannelMessageView>::empty());
            assert(output_before_end(Seq::<ChannelMessageView>::empty()) == Seq::<u8>::empty());
            assert(seq![mv][0] == mv);
        }
        match channel_step(m) {
            ChannelStep::Output(bytes) => {
                let ghost before = self.output@;
                let mut i: usize = 0;
                while i < bytes.len()
                    invariant
                        i <= bytes@.len(),
                        self.output@ == before + bytes@.subrange(0, i as int),
                        !self.finished,
                    decreases bytes@.len() - i,
                {
                    self.output.push(bytes[i]);
                    i = i + 1;
                    assert(self.output@ == before + bytes@.subrange(0, i as int));
                }
                assert(bytes@.subrange(0, bytes@.len() as int) == bytes@);
                assert(output_before_end(seq![mv]) == bytes@ + Seq::<u8>::empty());
                assert(bytes@ + Seq::<u8>::empty() == bytes@);
                true
            },
            ChannelStep::Finish => {
                self.finished = true;
                assert(self.output@ + Seq::<u8>::empty() == self.output@);
                false
            },
            ChannelStep::Skip => {
                assert(self.output@ + Seq::<u8>::empty() == self.output@);
                true
            },
        }
    }

    /// The collected output as text, invalid UTF-8 replaced.
    pub fn text(&self) -> (s: String)
        ensures
            s@ == utf8_lossy(self.output@),
            valid_utf8(self.output@) ==> s@ == decode_utf8(self.output@),
    {
        lossy_text(self.output.as_slice())
    }
}

/// Feeding a collector message by message gathers exactly the output that
/// comes before the channel's end: taking `m` after `ms` appends what `m`
/// adds, unless the channel already ended.
pub proof fn lemma_output_extends(ms: Seq<ChannelMessageView>, m: ChannelMessageView)
    requires
        !has_end(ms),
    ensures
        output_before_end(ms.push(m)) == output_before_end(ms) + output_before_end(seq![m]),
        has_end(ms.push(m)) == ends_channel(m),
    decreases ms.len(),
{
    assert(seq![m].drop_first() =~= Seq::<ChannelMessageView>::empty());
    if ms.len() == 0 {
        assert(ms.push(m) =~= seq![m]);
        assert(output_before_end(ms) + output_before_end(seq![m]) =~= output_before_end(seq![m]));
    } else {
        assert(!ends_channel(ms[0]));
        let t = ms.drop_first();
        assert(!has_end(t)) by {
            if has_end(t) {
                let i = choose|i: int| 0 <= i < t.len() && ends_channel(#[trigger] t[i]);
                assert(ms[i + 1] == t[i]);
            }
        }
        lemma_output_extends(t, m);
        assert(ms.push(m).drop_first() =~= t.push(m));
        assert(ms.push(m)[0] == ms[0]);
        match ms[0] {
            ChannelMessageView::Data(d) => {
                assert(d + output_before_end(t) + output_before_end(seq![m]) =~= d + (
                output_before_end(t) + output_before_end(seq![m])));
            },
            _ => {},
        }
        if ends_channel(m) {
            assert(ends_channel(ms.push(m)[ms.len() as int]));
        } else {
            assert(!has_end(ms.push(m))) by {
                if has_end(ms.push(m)) {
                    let i = choose|i: int|
                        0 <= i < ms.push(m).len() && ends_channel(#[trigger] ms.push(m)[i]);
                    if i < ms.len() {
                        assert(ms.push(m)[i] == ms[i]);
                    }
                }
            }
        }
    }
}

/// Output that arrives after the channel's end is never collected.
pub proof fn lemma_nothing_after_end(ms: Seq<ChannelMessageView>, later: Seq<ChannelMessageView>)
    requires
        has_end(ms),
    ensures
        output_before_end(ms + later) == output_before_end(ms),
    decreases ms.len(),
{
    assert(ms.len() > 0);
    assert((ms + later)[0] == ms[0]);
    if !ends_channel(ms[0]) {
        let t = ms.drop_first();
        assert(has_end(t)) by {
            let i = choose|i: int| 0 <= i < ms.len() && ends_channel(#[trigger] ms[i]);
            assert(i > 0);
            assert(t[i - 1] == ms[i]);
        }
        lemma_nothing_after_end(t, later);
        assert((ms + later).drop_first() =~= t + later);
    }
}

} // verus!
