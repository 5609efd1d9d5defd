//! The status channel: one producer publishes a short text, a consumer polls
//! for it.
//!
//! The channel is a dirty flag next to a bounded text. It is not a queue: a
//! second publication replaces the first if nobody polled in between.

use vstd::prelude::*;
use crate::bounded::{
    copy_text, easy_format, fits, lemma_utf8_len_bounds, new_text, text_of, utf8_len, BoundedText,
    OverflowError, CAPACITY,
};

verus! {

/// What can be observed of a channel: whether unread text is pending, and the
/// text last stored.
pub struct StatusView {
    pub dirty: bool,
    pub text: Seq<char>,
}

/// The channel before anything was published.
pub open spec fn initial() -> StatusView {
    StatusView { dirty: false, text: Seq::<char>::empty() }
}

/// The channel after an attempt to publish `text`: a text that fits replaces
/// the stored one and raises the flag, any other leaves the channel alone.
pub open spec fn published(before: StatusView, text: Seq<char>) -> StatusView {
    if fits(text) {
        StatusView { dirty: true, text }
    } else {
        before
    }
}

/// What a poll hands out: the stored text if the flag is raised.
pub open spec fn taken(before: StatusView) -> Option<Seq<char>> {
    if before.dirty {
        Some(before.text)
    } else {
        None
    }
}

/// The channel after a poll: the flag is down, the text stays.
pub open spec fn polled(before: StatusView) -> StatusView {
    StatusView { dirty: false, text: before.text }
}

/// The channel after `count` polls in a row.
pub open spec fn polled_times(before: StatusView, count: nat) -> StatusView
    decreases count,
{
    if count == 0 {
        before
    } else {
        polled(polled_times(before, (count - 1) as nat))
    }
}

/// A copy of the published text, as a poll hands it out.
pub type Snapshot = BoundedText;

/// A dirty flag and the text it guards.
pub struct StatusChannel {
    dirty: bool,
    value: BoundedText,
}

impl View for StatusChannel {
    type V = StatusView;

    closed spec fn view(&self) -> StatusView {
        StatusView { dirty: self.dirty, text: text_of(self.value) }
    }
}

impl StatusChannel {
    #[verifier::type_invariant]
    spec fn within_capacity(self) -> bool {
        fits(text_of(self.value))
    }

    /// An empty channel with the flag down.
    pub fn new() -> (channel: Self)
        ensures
            channel@ == initial(),
    {
        let value = new_text();
        assert(vstd::utf8::encode_utf8(Seq::<char>::empty()) =~= Seq::<u8>::empty());
        StatusChannel { dirty: false, value }
    }

    /// Whether a published text has not been polled yet.
    pub fn is_dirty(&self) -> (dirty: bool)
        ensures
            dirty == self@.dirty,
    {
        self.dirty
    }

    /// Stores `text` and raises the flag. A text that does not fit the
    /// capacity is refused, and the channel stays exactly as it was.
    pub fn publish(&mut self, text: &str) -> (r: Result<(), OverflowError>)
        ensures
            r is Ok <==> fits(text@),
            r is Ok ==> final(self)@ == (StatusView { dirty: true, text: text@ }),
            r is Err ==> final(self)@ == old(self)@,
            final(self)@ == published(old(self)@, text@),
    {
        match easy_format(text) {
            Ok(fresh) => {
                self.value = fresh;
                self.dirty = true;
                Ok(())
            },
            Err(overflow) => Err(overflow),
        }
    }

    /// Hands out a copy of the stored text if the flag is raised, and lowers
    /// the flag. With the flag down nothing is returned or changed.
    pub fn poll_and_take(&mut self) -> (r: Option<Snapshot>)
        ensures
            match r {
                Some(snapshot) => taken(old(self)@) == Some(text_of(snapshot)) && fits(
                    text_of(snapshot),
                ),
                None => taken(old(self)@) is None,
            },
            final(self)@ == polled(old(self)@),
    {
        proof {
            use_type_invariant(&*self);
        }
        if self.dirty {
            let snapshot = copy_text(&self.value);
            self.dirty = false;
            Some(snapshot)
        } else {
            None
        }
    }
}

/// Latest value wins: after two publications with no poll between them, a
/// poll hands out the second text, provided the second was accepted.
pub proof fn lemma_latest_value_wins(before: StatusView, first: Seq<char>, second: Seq<char>)
    requires
        fits(second),
    ensures
        taken(published(published(before, first), second)) == Some(second),
        polled(published(published(before, first), second)).text == second,
{
}

/// Overflow safety: a text longer than the capacity, be it in characters or
/// in bytes, is refused, and the refusal is invisible. The channel is as it
/// was, and a poll hands out what it would have handed out before.
pub proof fn lemma_overflow_safety(before: StatusView, text: Seq<char>)
    requires
        text.len() > CAPACITY || utf8_len(text) > CAPACITY,
    ensures
        !fits(text),
        published(before, text) == before,
        taken(published(before, text)) == taken(before),
{
    lemma_utf8_len_bounds(text);
}

/// Raising a raised flag changes nothing: the same text published twice
/// leaves the channel as it is after the first time.
pub proof fn lemma_publish_twice_is_once(before: StatusView, text: Seq<char>)
    ensures
        published(published(before, text), text) == published(before, text),
{
}

/// Without a publication there is nothing to take: however often a fresh
/// channel is polled, every poll comes back empty and the channel stays as it
/// began.
pub proof fn lemma_no_publish_no_value(count: nat)
    ensures
        polled_times(initial(), count) == initial(),
        taken(polled_times(initial(), count)) is None,
    decreases count,
{
    if count > 0 {
        lemma_no_publish_no_value((count - 1) as nat);
    }
}

/// A poll empties the channel for the next one: right after a poll, another
/// poll hands out nothing.
pub proof fn lemma_second_poll_is_empty(before: StatusView)
    ensures
        taken(polled(before)) is None,
{
}

} // verus!
