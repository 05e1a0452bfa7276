//! The ordered handoff between the reader of the engine's output and the
//! caller that waits for its messages: what the reader delivers first, the
//! caller takes first.

use std::collections::VecDeque;
use vstd::prelude::*;

verus! {

/// The messages that were delivered and not yet taken, oldest first, and
/// whether the engine's output has ended.
pub struct Mailbox<T> {
    pending: VecDeque<T>,
    closed: bool,
}

/// Mathematical value of a [`Mailbox`].
pub struct MailboxView<T> {
    pub pending: Seq<T>,
    pub closed: bool,
}

/// What a caller finds in a mailbox.
pub enum Taken<T> {
    /// The oldest message that was waiting.
    Message(T),
    /// No message is waiting, but more may come.
    Wait,
    /// No message is waiting and none will come.
    Closed,
}

impl<T> View for Mailbox<T> {
    type V = MailboxView<T>;

    closed spec fn view(&self) -> MailboxView<T> {
        MailboxView { pending: self.pending@, closed: self.closed }
    }
}

impl<T> MailboxView<T> {
    /// An open mailbox without messages.
    pub open spec fn empty() -> Self {
        MailboxView { pending: Seq::empty(), closed: false }
    }

    /// The mailbox with `message` behind all that wait.
    pub open spec fn delivered(self, message: T) -> Self {
        MailboxView { pending: self.pending.push(message), closed: self.closed }
    }

    /// The mailbox with each of `messages` delivered, in order.
    pub open spec fn delivered_all(self, messages: Seq<T>) -> Self
        decreases messages.len(),
    {
        if messages.len() == 0 {
            self
        } else {
            self.delivered(messages[0]).delivered_all(messages.drop_first())
        }
    }

    /// The mailbox once the engine's output has ended.
    pub open spec fn ended(self) -> Self {
        MailboxView { pending: self.pending, closed: true }
    }

    /// What a caller finds: the oldest message if one waits; otherwise that
    /// none will come if the output has ended, and that it is to wait if not.
    pub open spec fn found(self) -> Taken<T> {
        if self.pending.len() > 0 {
            Taken::Message(self.pending[0])
        } else if self.closed {
            Taken::Closed
        } else {
            Taken::Wait
        }
    }

    /// The mailbox behind a take: without its oldest message if one waited,
    /// unchanged if none did.
    pub open spec fn taken(self) -> Self {
        if self.pending.len() > 0 {
            MailboxView { pending: self.pending.drop_first(), closed: self.closed }
        } else {
            self
        }
    }

    /// The mailbox behind `n` takes.
    pub open spec fn taken_times(self, n: nat) -> Self
        decreases n,
    {
        if n == 0 {
            self
        } else {
            self.taken().taken_times((n - 1) as nat)
        }
    }
}

impl<T> Mailbox<T> {
    /// An open mailbox without messages.
    pub fn new() -> (mailbox: Self)
        ensures
            mailbox@ == MailboxView::<T>::empty(),
    {
        Mailbox { pending: VecDeque::new(), closed: false }
    }

    /// Puts `message` behind all that wait.
    pub fn deliver(&mut self, message: T)
        ensures
            final(self)@ == old(self)@.delivered(message),
    {
        self.pending.push_back(message);
    }

    /// Notes that the engine's output has ended.
    pub fn close(&mut self)
        ensures
            final(self)@ == old(self)@.ended(),
    {
        self.closed = true;
    }

    /// Takes the oldest message, or says why there is none to take.
    pub fn take(&mut self) -> (found: Taken<T>)
        ensures
            found == old(self)@.found(),
            final(self)@ == old(self)@.taken(),
    {
        match self.pending.pop_front() {
            Some(message) => {
                assert(self.pending@ =~= old(self).pending@.drop_first());
                Taken::Message(message)
            },
            None => if self.closed {
                Taken::Closed
            } else {
                Taken::Wait
            },
        }
    }
}

/// Delivering messages one after another puts them behind those that wait,
/// in the order of delivery.
pub proof fn lemma_delivered_all<T>(mailbox: MailboxView<T>, messages: Seq<T>)
    ensures
        mailbox.delivered_all(messages).pending == mailbox.pending + messages,
        mailbox.delivered_all(messages).closed == mailbox.closed,
    decreases messages.len(),
{
    if messages.len() == 0 {
        assert(mailbox.pending + messages =~= mailbox.pending);
    } else {
        lemma_delivered_all(mailbox.delivered(messages[0]), messages.drop_first());
        assert(mailbox.pending.push(messages[0]) + messages.drop_first() =~= mailbox.pending
            + messages);
    }
}

/// Taking `n` times from a mailbox that holds so many messages removes the
/// `n` oldest.
pub proof fn lemma_taken_times<T>(mailbox: MailboxView<T>, n: nat)
    requires
        n <= mailbox.pending.len(),
    ensures
        mailbox.taken_times(n).pending == mailbox.pending.skip(n as int),
        mailbox.taken_times(n).closed == mailbox.closed,
    decreases n,
{
    if n == 0 {
        assert(mailbox.pending.skip(0) =~= mailbox.pending);
    } else {
        lemma_taken_times(mailbox.taken(), (n - 1) as nat);
        assert(mailbox.pending.drop_first().skip(n - 1) =~= mailbox.pending.skip(n as int));
    }
}

/// Replies come out in the order in which they came in: when the replies
/// `replies` are delivered to an empty mailbox, in that order, the take
/// number `k` finds the reply number `k`, whether or not the output has
/// ended meanwhile; and when all are taken, the caller is told to wait, or
/// that none will come if the output has ended.
pub proof fn lemma_replies_keep_their_order<T>(replies: Seq<T>, k: nat)
    requires
        k <= replies.len(),
    ensures
        k < replies.len() ==> MailboxView::<T>::empty().delivered_all(replies).taken_times(
            k,
        ).found() == Taken::Message(replies[k as int]),
        k < replies.len() ==> MailboxView::<T>::empty().delivered_all(replies).ended().taken_times(
            k,
        ).found() == Taken::Message(replies[k as int]),
        k == replies.len() ==> MailboxView::<T>::empty().delivered_all(replies).taken_times(
            k,
        ).found() == Taken::<T>::Wait,
        k == replies.len() ==> MailboxView::<T>::empty().delivered_all(replies).ended().taken_times(
            k,
        ).found() == Taken::<T>::Closed,
{
    let full = MailboxView::<T>::empty().delivered_all(replies);
    lemma_delivered_all(MailboxView::<T>::empty(), replies);
    assert(Seq::<T>::empty() + replies =~= replies);
    lemma_taken_times(full, k);
    lemma_taken_times(full.ended(), k);
}

} // verus!
