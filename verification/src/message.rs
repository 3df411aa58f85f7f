//! The fixed-size message that one IPC carries, and its layout in a shared page.

use crate::objects::IpcError;
use vstd::prelude::*;

verus! {

/// Data words that one message can carry.
pub const MSG_MAX_WORDS: usize = 6;

/// 64-bit words that a message takes up in a shared page: its label, then every data word.
pub const PAGE_WORDS: usize = 7;

/// A message: a label and up to `MSG_MAX_WORDS` data words.
#[derive(Debug, Clone, Copy, PartialEq, Eq)]
pub struct SmallMessage {
    /// What the message is about. The kernel does not interpret it.
    pub label: u64,
    /// Room for the data words.
    pub data: [u64; MSG_MAX_WORDS],
    /// How many data words there are.
    pub len: usize,
}

/// A message as a mathematical value.
#[verifier::ext_equal]
pub struct MessageView {
    /// The label.
    pub label: u64,
    /// The data words.
    pub words: Seq<u64>,
}

impl View for SmallMessage {
    type V = MessageView;

    open spec fn view(&self) -> MessageView {
        let n = if self.len < MSG_MAX_WORDS {
            self.len as int
        } else {
            MSG_MAX_WORDS as int
        };
        MessageView { label: self.label, words: self.data@.take(n) }
    }
}

/// The words of a message followed by zeros.
pub open spec fn padded(words: Seq<u64>) -> Seq<u64> {
    Seq::new(
        MSG_MAX_WORDS as nat,
        |i: int|
            if i < words.len() {
                words[i]
            } else {
                0
            },
    )
}

/// A message as it is laid out in a shared page.
pub open spec fn page_of(m: MessageView) -> Seq<u64> {
    seq![m.label] + padded(m.words)
}

/// The message that a shared page holds.
pub open spec fn message_in(page: Seq<u64>) -> MessageView {
    MessageView { label: page[0], words: page.skip(1) }
}

impl SmallMessage {
    /// A message without data words.
    pub fn new(label: u64) -> (m: Self)
        ensures
            m@ == (MessageView { label, words: seq![] }),
    {
        let m = SmallMessage { label, data: [0;MSG_MAX_WORDS], len: 0 };
        assert(m@.words =~= seq![]);
        m
    }

    /// A message with the given data words, if they fit.
    pub fn from_words(label: u64, words: &[u64]) -> (r: Result<Self, IpcError>)
        ensures
            match r {
                Ok(m) => {
                    &&& words@.len() <= MSG_MAX_WORDS
                    &&& m@ == (MessageView { label, words: words@ })
                },
                Err(e) => words@.len() > MSG_MAX_WORDS && e == IpcError::TooManyWords,
            },
    {
        if words.len() > MSG_MAX_WORDS {
            return Err(IpcError::TooManyWords);
        }
        let mut data: [u64; MSG_MAX_WORDS] = [0;MSG_MAX_WORDS];
        let mut i: usize = 0;
        while i < words.len()
            invariant
                i <= words@.len() <= MSG_MAX_WORDS,
                forall|j: int| 0 <= j < i ==> data@[j] == words@[j],
            decreases words@.len() - i,
        {
            data[i] = words[i];
            i = i + 1;
        }
        let m = SmallMessage { label, data, len: words.len() };
        assert(m@.words =~= words@);
        Ok(m)
    }

    /// The data words.
    pub fn words(&self) -> (r: &[u64])
        ensures
            r@ == self@.words,
            r@.len() <= MSG_MAX_WORDS,
    {
        let n: usize = if self.len < MSG_MAX_WORDS {
            self.len
        } else {
            MSG_MAX_WORDS
        };
        vstd::slice::slice_subrange(self.data.as_slice(), 0, n)
    }

    /// The message as it is laid out in a shared page: the label, then all the data words with
    /// zeros in place of the missing ones, so that the layout has one size.
    pub fn to_page(&self) -> (page: [u64; PAGE_WORDS])
        ensures
            page@ == page_of(self@),
    {
        let mut page: [u64; PAGE_WORDS] = [0;PAGE_WORDS];
        page[0] = self.label;
        let words = self.words();
        let mut i: usize = 0;
        while i < words.len()
            invariant
                i <= words@.len() <= MSG_MAX_WORDS,
                page@[0] == self.label,
                forall|j: int| 1 <= j <= i ==> page@[j] == words@[j - 1],
                forall|j: int| i < j < PAGE_WORDS ==> page@[j] == 0,
            decreases words@.len() - i,
        {
            page[i + 1] = words[i];
            i = i + 1;
        }
        assert(page@ =~= page_of(self@));
        page
    }

    /// Reads a message back from a shared page. It always has all its data words.
    pub fn from_page(page: &[u64; PAGE_WORDS]) -> (m: Self)
        ensures
            m@ == message_in(page@),
    {
        let mut data: [u64; MSG_MAX_WORDS] = [0;MSG_MAX_WORDS];
        let mut i: usize = 0;
        while i < MSG_MAX_WORDS
            invariant
                i <= MSG_MAX_WORDS,
                forall|j: int| 0 <= j < i ==> data@[j] == page@[j + 1],
            decreases MSG_MAX_WORDS - i,
        {
            data[i] = page[i + 1];
            i = i + 1;
        }
        let m = SmallMessage { label: page[0], data, len: MSG_MAX_WORDS };
        assert(m@.words =~= page@.skip(1));
        m
    }
}

/// What one side writes into a shared page the other side reads back: the same label, and the
/// same words with zeros behind them.
pub proof fn page_round_trip(written: MessageView, page: Seq<u64>, read: MessageView)
    requires
        written.words.len() <= MSG_MAX_WORDS,
        page == page_of(written),
        read == message_in(page),
    ensures
        page.len() == PAGE_WORDS,
        read.label == written.label,
        read.words.len() == MSG_MAX_WORDS,
        read.words.take(written.words.len() as int) == written.words,
        forall|i: int| written.words.len() <= i < MSG_MAX_WORDS ==> read.words[i] == 0,
{
    assert(read.words =~= padded(written.words));
    assert(read.words.take(written.words.len() as int) =~= written.words);
}

/// A page that is read and written again is the same page: nothing in it is lost.
pub proof fn a_page_survives_being_read(page: Seq<u64>)
    requires
        page.len() == PAGE_WORDS,
    ensures
        page_of(message_in(page)) == page,
{
    assert(page_of(message_in(page)) =~= page);
}

/// A message has as many words as its length says, each where it was put, up to the words that a
/// message can carry.
pub proof fn a_message_is_its_label_and_words(m: SmallMessage, i: int)
    ensures
        m@.label == m.label,
        m.len <= MSG_MAX_WORDS ==> m@.words.len() == m.len,
        m.len > MSG_MAX_WORDS ==> m@.words.len() == MSG_MAX_WORDS,
        0 <= i < m.len && i < MSG_MAX_WORDS ==> m@.words[i] == m.data@[i],
{
}

} // verus!
