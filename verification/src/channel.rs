//! Thread safe communication channels
//!
//! Each sender pairs the sending half of a channel with a `Notifier` and a
//! `NotificationId`: a value the channel accepted is followed by a
//! notification with that id.
use vstd::prelude::*;
use crate::queue::{io_error_message, slots_fit, NotificationError, Notifier};
use crate::NotificationId;
use crossbeam::channel as beamchannel;
use crossbeam::channel::Sender as BeamSender;
use std::io;
use std::sync::{mpsc, Arc};
use vstd::layout::{align_of, size_of};
use vstd::std_specs::convert::FromSpecImpl;

verus! {

#[verifier::external_type_specification]
#[verifier::external_body]
#[verifier::reject_recursive_types(T)]
pub struct ExMpscSender<T>(std::sync::mpsc::Sender<T>);

#[verifier::external_type_specification]
#[verifier::external_body]
#[verifier::reject_recursive_types(T)]
pub struct ExMpscSyncSender<T>(std::sync::mpsc::SyncSender<T>);

#[verifier::external_type_specification]
#[verifier::external_body]
#[verifier::reject_recursive_types(T)]
pub struct ExMpscReceiver<T>(std::sync::mpsc::Receiver<T>);

#[verifier::external_type_specification]
#[verifier::external_body]
#[verifier::reject_recursive_types(T)]
pub struct ExBeamSender<T>(BeamSender<T>);

#[verifier::external_type_specification]
#[verifier::external_body]
#[verifier::reject_recursive_types(T)]
pub struct ExBeamReceiver<T>(crossbeam::channel::Receiver<T>);

/// Calls `mpsc::channel`, which makes the two halves of a new unbounded
/// channel; nothing is stated of them.
#[verifier::external_body]
fn mpsc_channel<T>() -> (mpsc::Sender<T>, mpsc::Receiver<T>) {
    mpsc::channel()
}

/// Calls `mpsc::sync_channel`, which makes the two halves of a new channel
/// buffering at most `bound` values; nothing is stated of them. Its buffer is
/// built as `crossbeam::channel::bounded` builds one, so only the capacities
/// that one accepts are passed.
#[verifier::external_body]
fn mpsc_sync_channel<T>(bound: usize) -> (mpsc::SyncSender<T>, mpsc::Receiver<T>)
    requires
        bounded_capacity_ok::<T>(bound),
{
    mpsc::sync_channel(bound)
}

/// Calls `crossbeam::channel::unbounded`, which makes the two halves of a new
/// unbounded channel; nothing is stated of them.
#[verifier::external_body]
fn beam_unbounded<T>() -> (BeamSender<T>, beamchannel::Receiver<T>) {
    beamchannel::unbounded()
}

/// The capacities `crossbeam::channel::bounded` accepts: zero makes a
/// rendezvous channel; a positive capacity panics when its lap counter would
/// overflow or its buffer of slots (a stamp beside each value) is too large to
/// allocate.
pub open spec fn bounded_capacity_ok<T>(cap: usize) -> bool {
    &&& cap < 0x4000_0000_0000_0000
    &&& cap * (size_of::<T>() + align_of::<T>() + 16) <= isize::MAX
}

/// Calls `crossbeam::channel::bounded`, which makes the two halves of a new
/// channel buffering at most `cap` values; nothing is stated of them.
#[verifier::external_body]
fn beam_bounded<T>(cap: usize) -> (BeamSender<T>, beamchannel::Receiver<T>)
    requires
        bounded_capacity_ok::<T>(cap),
{
    beamchannel::bounded(cap)
}

/// Calls `mpsc::Sender::send`: it fails only when the receiving half is gone,
/// and then hands the value back, which is what the error carries here.
#[verifier::external_body]
fn mpsc_send<T>(tx: &mpsc::Sender<T>, t: T) -> (r: Result<(), T>)
    ensures
        r matches Err(v) ==> v == t,
{
    tx.send(t).map_err(|e| e.0)
}

/// Calls `mpsc::SyncSender::send`, which blocks while the buffer is full; it
/// fails only when the receiving half is gone, and then hands the value back.
#[verifier::external_body]
fn mpsc_sync_send<T>(tx: &mpsc::SyncSender<T>, t: T) -> (r: Result<(), T>)
    ensures
        r matches Err(v) ==> v == t,
{
    tx.send(t).map_err(|e| e.0)
}

/// Calls `mpsc::SyncSender::try_send`, which does not block: a full buffer or a
/// missing receiving half hands the value back in the matching variant.
#[verifier::external_body]
fn mpsc_try_send<T>(tx: &mpsc::SyncSender<T>, t: T) -> (r: Result<(), TrySendError<T>>)
    ensures
        r matches Err(e) ==> (e matches TrySendError::Full(v) && v == t) || (e matches TrySendError::Disconnected(
            v,
        ) && v == t),
{
    match tx.try_send(t) {
        Ok(()) => Ok(()),
        Err(mpsc::TrySendError::Full(v)) => Err(TrySendError::Full(v)),
        Err(mpsc::TrySendError::Disconnected(v)) => Err(TrySendError::Disconnected(v)),
    }
}

/// Calls `crossbeam::channel::Sender::send`, which blocks while a bounded
/// buffer is full; it fails only when the channel is disconnected, and then
/// hands the value back.
#[verifier::external_body]
fn beam_send<T>(tx: &BeamSender<T>, t: T) -> (r: Result<(), T>)
    ensures
        r matches Err(v) ==> v == t,
{
    tx.send(t).map_err(|e| e.0)
}

/// Calls `crossbeam::channel::Sender::try_send`, which does not block: a full
/// buffer or a disconnected channel hands the value back in the matching
/// variant.
#[verifier::external_body]
fn beam_try_send<T>(tx: &BeamSender<T>, t: T) -> (r: Result<(), TrySendError<T>>)
    ensures
        r matches Err(e) ==> (e matches TrySendError::Full(v) && v == t) || (e matches TrySendError::Disconnected(
            v,
        ) && v == t),
{
    match tx.try_send(t) {
        Ok(()) => Ok(()),
        Err(beamchannel::TrySendError::Full(v)) => Err(TrySendError::Full(v)),
        Err(beamchannel::TrySendError::Disconnected(v)) => Err(TrySendError::Disconnected(v)),
    }
}

/// Calls `Clone::clone` on an `mpsc::Sender`: another sending half of the same
/// channel; nothing is stated of it.
#[verifier::external_body]
fn mpsc_sender_clone<T>(tx: &mpsc::Sender<T>) -> mpsc::Sender<T> {
    tx.clone()
}

/// Calls `Clone::clone` on an `mpsc::SyncSender`: another sending half of the
/// same channel; nothing is stated of it.
#[verifier::external_body]
fn mpsc_sync_sender_clone<T>(tx: &mpsc::SyncSender<T>) -> mpsc::SyncSender<T> {
    tx.clone()
}

/// `c` is a sending half that `Clone::clone` gives of `half`: another sending
/// half of the same channel.
pub closed spec fn mpsc_clone_answer<T>(half: mpsc::Sender<T>, c: mpsc::Sender<T>) -> bool {
    call_ensures(mpsc_sender_clone::<T>, (&half,), c)
}

/// `sent` is an answer that `mpsc::Sender::send` gives when `half` is handed `t`.
pub closed spec fn mpsc_send_answer<T>(half: mpsc::Sender<T>, t: T, sent: Result<(), T>) -> bool {
    call_ensures(mpsc_send::<T>, (&half, t), sent)
}

/// `c` is a sending half that `Clone::clone` gives of the synchronous `half`:
/// another sending half of the same channel.
pub closed spec fn mpsc_sync_clone_answer<T>(half: mpsc::SyncSender<T>, c: mpsc::SyncSender<T>) -> bool {
    call_ensures(mpsc_sync_sender_clone::<T>, (&half,), c)
}

/// `sent` is an answer that `mpsc::SyncSender::send` gives when `half` is
/// handed `t`.
pub closed spec fn mpsc_sync_send_answer<T>(half: mpsc::SyncSender<T>, t: T, sent: Result<(), T>) -> bool {
    call_ensures(mpsc_sync_send::<T>, (&half, t), sent)
}

/// What a send reports, given what the channel did with the value (`Err`
/// hands it back) and, once the channel took it, what the notifier answered.
pub open spec fn send_report<T>(sent: Result<(), T>, notified: crate::queue::Result) -> Result<(), SendError<T>> {
    match sent {
        Err(v) => Err(SendError::Disconnected(v)),
        Ok(()) => match notified {
            Ok(()) => Ok(()),
            Err(NotificationError::Io(e)) => Err(SendError::Io(e)),
            Err(NotificationError::Full(_)) => Err(SendError::NotificationQueueFull),
        },
    }
}

/// What a non-blocking send reports, given what the channel did with the
/// value and, once the channel took it, what the notifier answered.
pub open spec fn try_send_report<T>(tried: Result<(), TrySendError<T>>, notified: crate::queue::Result) -> Result<
    (),
    TrySendError<T>,
> {
    match tried {
        Err(e) => Err(e),
        Ok(()) => match notified {
            Ok(()) => Ok(()),
            Err(NotificationError::Io(e)) => Err(TrySendError::Io(e)),
            Err(NotificationError::Full(_)) => Err(TrySendError::NotificationQueueFull),
        },
    }
}

/// Turns what the channel and the notifier did into the send's result: a
/// value handed back means the receiving side is gone; the notifier's I/O
/// error is passed on in `Io`, a full notification queue in
/// `NotificationQueueFull`.
pub fn send_outcome<T>(sent: Result<(), T>, notified: crate::queue::Result) -> (r: Result<(), SendError<T>>)
    ensures
        r == send_report(sent, notified),
{
    match sent {
        Err(v) => Err(SendError::Disconnected(v)),
        Ok(()) => match notified {
            Ok(()) => Ok(()),
            Err(e) => Err(SendError::from(e)),
        },
    }
}

/// Turns what the channel and the notifier did into a non-blocking send's
/// result: the channel's refusal is passed on; the notifier's I/O error is
/// passed on in `Io`, a full notification queue in `NotificationQueueFull`.
pub fn try_send_outcome<T>(tried: Result<(), TrySendError<T>>, notified: crate::queue::Result) -> (r: Result<
    (),
    TrySendError<T>,
>)
    ensures
        r == try_send_report(tried, notified),
{
    match tried {
        Err(e) => Err(e),
        Ok(()) => match notified {
            Ok(()) => Ok(()),
            Err(e) => Err(TrySendError::from(e)),
        },
    }
}

/// Creates a new asynchronous/unbounded channel, where the `Sender::send` function, in addition to sending a message,
/// triggers a notification on `Poll`
pub fn channel<T, N: Notifier + ?Sized>(notifier: Arc<N>, id: NotificationId) -> (r: (
    Sender<T, N>,
    mpsc::Receiver<T>,
))
    ensures
        r.0.notifier() == notifier,
        r.0.id() == id,
{
    let (tx, rx) = mpsc_channel();
    let tx = Sender { tx, notifier, id };
    (tx, rx)
}

/// Creates a new synchronous channel, where the `SyncSender::send` function, in addition to sending a message,
/// triggers a notification on `Poll`
pub fn sync_channel<T, N: Notifier + ?Sized>(notifier: Arc<N>, id: NotificationId, bound_size: usize) -> (r: (
    SyncSender<T, N>,
    mpsc::Receiver<T>,
))
    requires
        bounded_capacity_ok::<T>(bound_size),
    ensures
        r.0.notifier() == notifier,
        r.0.id() == id,
{
    let (tx, rx) = mpsc_sync_channel(bound_size);
    let tx = SyncSender { tx, notifier, id };
    (tx, rx)
}

/// Creates a new synchronous channel as `sync_channel` does, when
/// `bound_size` is a capacity the channel accepts; otherwise none.
pub fn sync_channel_checked<T, N: Notifier + ?Sized>(notifier: Arc<N>, id: NotificationId, bound_size: usize) -> (r:
    Option<(SyncSender<T, N>, mpsc::Receiver<T>)>)
    ensures
        r is Some <==> bounded_capacity_ok::<T>(bound_size),
        r matches Some(r) ==> r.0.notifier() == notifier && r.0.id() == id,
{
    if (bound_size as u64) < 0x4000_0000_0000_0000u64 && slots_fit::<T>(bound_size) {
        Some(sync_channel(notifier, id, bound_size))
    } else {
        None
    }
}

/// Creates a new asynchronous/unbounded crossbeam channel, where the `Sender::send` function, in addition to sending a message,
/// triggers a notification on `Poll`
pub fn crossbeam_channel_unbounded<T, N: Notifier + ?Sized>(notifier: Arc<N>, id: NotificationId) -> (r: (
    CrossbeamSender<T, N>,
    beamchannel::Receiver<T>,
))
    ensures
        r.0.notifier() == notifier,
        r.0.id() == id,
{
    let (tx, rx) = beam_unbounded();
    let tx = CrossbeamSender { tx, notifier, id };
    (tx, rx)
}

/// Creates a new synchronous/bounded crossbeam channel, where the `Sender::send` function, in addition to sending a message,
/// triggers a notification on `Poll`
pub fn crossbeam_channel_bounded<T, N: Notifier + ?Sized>(notifier: Arc<N>, id: NotificationId, size: usize) -> (r:
    (CrossbeamSender<T, N>, beamchannel::Receiver<T>))
    requires
        bounded_capacity_ok::<T>(size),
    ensures
        r.0.notifier() == notifier,
        r.0.id() == id,
{
    let (tx, rx) = beam_bounded(size);
    let tx = CrossbeamSender { tx, notifier, id };
    (tx, rx)
}

/// Creates a new synchronous/bounded crossbeam channel as
/// `crossbeam_channel_bounded` does, when `size` is a capacity the channel
/// accepts; otherwise none.
pub fn crossbeam_channel_bounded_checked<T, N: Notifier + ?Sized>(notifier: Arc<N>, id: NotificationId, size: usize) -> (r:
    Option<(CrossbeamSender<T, N>, beamchannel::Receiver<T>)>)
    ensures
        r is Some <==> bounded_capacity_ok::<T>(size),
        r matches Some(r) ==> r.0.notifier() == notifier && r.0.id() == id,
{
    if (size as u64) < 0x4000_0000_0000_0000u64 && slots_fit::<T>(size) {
        Some(crossbeam_channel_bounded(notifier, id, size))
    } else {
        None
    }
}

/// The sending half of a channel.
#[verifier::reject_recursive_types(T)]
pub struct Sender<T, N: Notifier + ?Sized> {
    tx: mpsc::Sender<T>,
    notifier: Arc<N>,
    id: NotificationId,
}

impl<T, N: Notifier + ?Sized> Sender<T, N> {
    /// The sending half of the channel values go into.
    pub closed spec fn half(&self) -> mpsc::Sender<T> {
        self.tx
    }

    /// `sent` is an answer that the underlying channel half gave when handed `t`.
    pub closed spec fn send_answer(&self, t: T, sent: Result<(), T>) -> bool {
        mpsc_send_answer(self.tx, t, sent)
    }

    /// This sender's channel half is a clone of `other`'s: both send into the
    /// same channel.
    pub closed spec fn is_clone_of(&self, other: &Self) -> bool {
        mpsc_clone_answer(other.tx, self.tx)
    }

    /// The notifier told of each value sent.
    pub closed spec fn notifier(&self) -> Arc<N> {
        self.notifier
    }

    /// The id each notification carries.
    pub closed spec fn id(&self) -> NotificationId {
        self.id
    }

    /// Attempts to send a value on this channel, returning it back if it could not be sent.
    /// Once the channel took the value, the notifier is told; its I/O error is
    /// reported as `Io`, a full notification queue as `NotificationQueueFull`.
    pub fn send(&self, t: T) -> (r: Result<(), SendError<T>>)
        ensures
            exists|sent: Result<(), T>, notified: crate::queue::Result|
                self.send_answer(t, sent)
                && (sent matches Err(v) ==> v == t)
                && (sent is Ok ==> self.notifier().answers(self.id(), notified))
                && r == send_report(sent, notified),
            r matches Err(SendError::Disconnected(v)) ==> v == t,
    {
        let sent = mpsc_send(&self.tx, t);
        let notified = match &sent {
            Ok(()) => self.notifier.notify(self.id),
            Err(_) => Ok(()),
        };
        send_outcome(sent, notified)
    }
}

/// The sending half of a channel crossbeam channel
#[verifier::reject_recursive_types(T)]
pub struct CrossbeamSender<T, N: Notifier + ?Sized> {
    tx: BeamSender<T>,
    notifier: Arc<N>,
    id: NotificationId,
}

impl<T, N: Notifier + ?Sized> CrossbeamSender<T, N> {
    /// `sent` is an answer that the underlying channel half gave when handed `t`.
    pub closed spec fn send_answer(&self, t: T, sent: Result<(), T>) -> bool {
        call_ensures(beam_send::<T>, (&self.tx, t), sent)
    }

    /// `tried` is an answer that the underlying channel half gave when offered
    /// `t` without blocking.
    pub closed spec fn try_answer(&self, t: T, tried: Result<(), TrySendError<T>>) -> bool {
        call_ensures(beam_try_send::<T>, (&self.tx, t), tried)
    }

    /// The notifier told of each value sent.
    pub closed spec fn notifier(&self) -> Arc<N> {
        self.notifier
    }

    /// The id each notification carries.
    pub closed spec fn id(&self) -> NotificationId {
        self.id
    }

    /// Attempts to send a value on this channel, returning it back if it could not be sent.
    /// For bounded channels, it will block.
    pub fn send(&self, t: T) -> (r: Result<(), SendError<T>>)
        ensures
            exists|sent: Result<(), T>, notified: crate::queue::Result|
                self.send_answer(t, sent)
                && (sent matches Err(v) ==> v == t)
                && (sent is Ok ==> self.notifier().answers(self.id(), notified))
                && r == send_report(sent, notified),
            r matches Err(SendError::Disconnected(v)) ==> v == t,
    {
        let sent = beam_send(&self.tx, t);
        let notified = match &sent {
            Ok(()) => self.notifier.notify(self.id),
            Err(_) => Ok(()),
        };
        send_outcome(sent, notified)
    }

    /// Attempts to send a value on this channel without blocking.
    ///
    /// This method differs from `send` by returning immediately if the channel's
    /// buffer is full or no receiver is waiting to acquire some data.
    pub fn try_send(&self, t: T) -> (r: Result<(), TrySendError<T>>)
        ensures
            exists|tried: Result<(), TrySendError<T>>, notified: crate::queue::Result|
                self.try_answer(t, tried)
                && (tried matches Err(TrySendError::Full(v)) ==> v == t)
                && (tried matches Err(TrySendError::Disconnected(v)) ==> v == t)
                && (tried matches Err(e) ==> (e is Full || e is Disconnected))
                && (tried is Ok ==> self.notifier().answers(self.id(), notified))
                && r == try_send_report(tried, notified),
            r matches Err(TrySendError::Full(v)) ==> v == t,
            r matches Err(TrySendError::Disconnected(v)) ==> v == t,
    {
        let tried = beam_try_send(&self.tx, t);
        let notified = match &tried {
            Ok(()) => self.notifier.notify(self.id),
            Err(_) => Ok(()),
        };
        try_send_outcome(tried, notified)
    }
}

/// The sending half of a synchronous channel.
#[verifier::reject_recursive_types(T)]
pub struct SyncSender<T, N: Notifier + ?Sized> {
    tx: mpsc::SyncSender<T>,
    notifier: Arc<N>,
    id: NotificationId,
}

impl<T, N: Notifier + ?Sized> SyncSender<T, N> {
    /// The sending half of the channel values go into.
    pub closed spec fn half(&self) -> mpsc::SyncSender<T> {
        self.tx
    }

    /// `sent` is an answer that the underlying channel half gave when handed `t`.
    pub closed spec fn send_answer(&self, t: T, sent: Result<(), T>) -> bool {
        mpsc_sync_send_answer(self.tx, t, sent)
    }

    /// `tried` is an answer that the underlying channel half gave when offered
    /// `t` without blocking.
    pub closed spec fn try_answer(&self, t: T, tried: Result<(), TrySendError<T>>) -> bool {
        call_ensures(mpsc_try_send::<T>, (&self.tx, t), tried)
    }

    /// This sender's channel half is a clone of `other`'s: both send into the
    /// same channel.
    pub closed spec fn is_clone_of(&self, other: &Self) -> bool {
        mpsc_sync_clone_answer(other.tx, self.tx)
    }

    /// The notifier told of each value sent.
    pub closed spec fn notifier(&self) -> Arc<N> {
        self.notifier
    }

    /// The id each notification carries.
    pub closed spec fn id(&self) -> NotificationId {
        self.id
    }

    /// Sends a value on this synchronous channel.
    ///
    /// This function will *block* until space in the internal buffer becomes
    /// available or a receiver is available to hand off the message to.
    pub fn send(&self, t: T) -> (r: Result<(), SendError<T>>)
        ensures
            exists|sent: Result<(), T>, notified: crate::queue::Result|
                self.send_answer(t, sent)
                && (sent matches Err(v) ==> v == t)
                && (sent is Ok ==> self.notifier().answers(self.id(), notified))
                && r == send_report(sent, notified),
            r matches Err(SendError::Disconnected(v)) ==> v == t,
    {
        let sent = mpsc_sync_send(&self.tx, t);
        let notified = match &sent {
            Ok(()) => self.notifier.notify(self.id),
            Err(_) => Ok(()),
        };
        send_outcome(sent, notified)
    }

    /// Attempts to send a value on this channel without blocking.
    ///
    /// This method differs from `send` by returning immediately if the channel's
    /// buffer is full or no receiver is waiting to acquire some data.
    pub fn try_send(&self, t: T) -> (r: Result<(), TrySendError<T>>)
        ensures
            exists|tried: Result<(), TrySendError<T>>, notified: crate::queue::Result|
                self.try_answer(t, tried)
                && (tried matches Err(TrySendError::Full(v)) ==> v == t)
                && (tried matches Err(TrySendError::Disconnected(v)) ==> v == t)
                && (tried matches Err(e) ==> (e is Full || e is Disconnected))
                && (tried is Ok ==> self.notifier().answers(self.id(), notified))
                && r == try_send_report(tried, notified),
            r matches Err(TrySendError::Full(v)) ==> v == t,
            r matches Err(TrySendError::Disconnected(v)) ==> v == t,
    {
        let tried = mpsc_try_send(&self.tx, t);
        let notified = match &tried {
            Ok(()) => self.notifier.notify(self.id),
            Err(_) => Ok(()),
        };
        try_send_outcome(tried, notified)
    }
}

impl<T, N: Notifier + ?Sized> Clone for Sender<T, N> {
    fn clone(&self) -> (c: Sender<T, N>)
        ensures
            c.is_clone_of(self),
            c.notifier() == self.notifier(),
            c.id() == self.id(),
    {
        Sender { tx: mpsc_sender_clone(&self.tx), notifier: Arc::clone(&self.notifier), id: self.id }
    }
}

impl<T, N: Notifier + ?Sized> Clone for SyncSender<T, N> {
    fn clone(&self) -> (c: SyncSender<T, N>)
        ensures
            c.is_clone_of(self),
            c.notifier() == self.notifier(),
            c.id() == self.id(),
    {
        SyncSender { tx: mpsc_sync_sender_clone(&self.tx), notifier: Arc::clone(&self.notifier), id: self.id }
    }
}

/// A clone of a sender sends into the same channel as the original: its
/// channel half is a clone of the original's, and it tells the original's
/// notifier of the original's id. A send through the clone hands the value to
/// that half and, once the half took it, tells that notifier; it reports what
/// the two answered.
pub proof fn law_clone_sends_into_the_same_channel<T, N: Notifier + ?Sized>(
    s: &Sender<T, N>,
    c: Sender<T, N>,
    t: T,
    r: Result<(), SendError<T>>,
)
    requires
        call_ensures(<Sender<T, N> as Clone>::clone, (s,), c),
    ensures
        mpsc_clone_answer(s.half(), c.half()),
        c.notifier() == s.notifier(),
        c.id() == s.id(),
        call_ensures(Sender::<T, N>::send, (&c, t), r) ==> exists|sent: Result<(), T>, notified: crate::queue::Result|
            mpsc_send_answer(c.half(), t, sent)
            && (sent matches Err(v) ==> v == t)
            && (sent is Ok ==> s.notifier().answers(s.id(), notified))
            && r == send_report(sent, notified),
{
    if call_ensures(Sender::<T, N>::send, (&c, t), r) {
        let (sent, notified) = choose|sent: Result<(), T>, notified: crate::queue::Result|
            c.send_answer(t, sent)
            && (sent matches Err(v) ==> v == t)
            && (sent is Ok ==> c.notifier().answers(c.id(), notified))
            && r == send_report(sent, notified);
        assert(mpsc_send_answer(c.half(), t, sent));
    }
}

/// A clone of a synchronous sender sends into the same channel as the
/// original: its channel half is a clone of the original's, and it tells the
/// original's notifier of the original's id. A send through the clone hands
/// the value to that half and, once the half took it, tells that notifier; it
/// reports what the two answered.
pub proof fn law_sync_clone_sends_into_the_same_channel<T, N: Notifier + ?Sized>(
    s: &SyncSender<T, N>,
    c: SyncSender<T, N>,
    t: T,
    r: Result<(), SendError<T>>,
)
    requires
        call_ensures(<SyncSender<T, N> as Clone>::clone, (s,), c),
    ensures
        mpsc_sync_clone_answer(s.half(), c.half()),
        c.notifier() == s.notifier(),
        c.id() == s.id(),
        call_ensures(SyncSender::<T, N>::send, (&c, t), r) ==> exists|sent: Result<(), T>, notified: crate::queue::Result|
            mpsc_sync_send_answer(c.half(), t, sent)
            && (sent matches Err(v) ==> v == t)
            && (sent is Ok ==> s.notifier().answers(s.id(), notified))
            && r == send_report(sent, notified),
{
    if call_ensures(SyncSender::<T, N>::send, (&c, t), r) {
        let (sent, notified) = choose|sent: Result<(), T>, notified: crate::queue::Result|
            c.send_answer(t, sent)
            && (sent matches Err(v) ==> v == t)
            && (sent is Ok ==> c.notifier().answers(c.id(), notified))
            && r == send_report(sent, notified);
        assert(mpsc_sync_send_answer(c.half(), t, sent));
    }
}

/// An error returned from the `Sender::send`
#[derive(Debug)]
pub enum SendError<T> {
    /// An IO error.
    Io(io::Error),
    /// The receiving half of the channel has disconnected.
    Disconnected(T),
    /// Underlying notification queue is full
    NotificationQueueFull,
}

/// An error returned from the `SyncSender::try_send` function.
#[derive(Debug)]
pub enum TrySendError<T> {
    /// An IO error.
    Io(io::Error),
    /// Data could not be sent over the channel because it would require the callee to block.
    Full(T),
    /// The receiving half of the channel has disconnected.
    Disconnected(T),
    /// Underlying notification queue is full
    NotificationQueueFull,
}

impl<T> From<io::Error> for SendError<T> {
    fn from(src: io::Error) -> (e: Self) {
        SendError::Io(src)
    }
}

impl<T> FromSpecImpl<io::Error> for SendError<T> {
    open spec fn obeys_from_spec() -> bool {
        true
    }

    open spec fn from_spec(src: io::Error) -> Self {
        SendError::Io(src)
    }
}

impl<T> From<NotificationError<NotificationId>> for SendError<T> {
    fn from(src: NotificationError<NotificationId>) -> (e: Self) {
        match src {
            NotificationError::Io(e) => SendError::Io(e),
            NotificationError::Full(_) => SendError::NotificationQueueFull,
        }
    }
}

impl<T> FromSpecImpl<NotificationError<NotificationId>> for SendError<T> {
    open spec fn obeys_from_spec() -> bool {
        true
    }

    open spec fn from_spec(src: NotificationError<NotificationId>) -> Self {
        match src {
            NotificationError::Io(e) => SendError::Io(e),
            NotificationError::Full(_) => SendError::NotificationQueueFull,
        }
    }
}

impl<T> From<io::Error> for TrySendError<T> {
    fn from(src: io::Error) -> (e: Self) {
        TrySendError::Io(src)
    }
}

impl<T> FromSpecImpl<io::Error> for TrySendError<T> {
    open spec fn obeys_from_spec() -> bool {
        true
    }

    open spec fn from_spec(src: io::Error) -> Self {
        TrySendError::Io(src)
    }
}

impl<T> From<NotificationError<NotificationId>> for TrySendError<T> {
    fn from(src: NotificationError<NotificationId>) -> (e: Self) {
        match src {
            NotificationError::Io(e) => TrySendError::Io(e),
            NotificationError::Full(_) => TrySendError::NotificationQueueFull,
        }
    }
}

impl<T> FromSpecImpl<NotificationError<NotificationId>> for TrySendError<T> {
    open spec fn obeys_from_spec() -> bool {
        true
    }

    open spec fn from_spec(src: NotificationError<NotificationId>) -> Self {
        match src {
            NotificationError::Io(e) => TrySendError::Io(e),
            NotificationError::Full(_) => TrySendError::NotificationQueueFull,
        }
    }
}

/// The message for each error: the I/O error's own message, or a fixed text.
fn format_send_error<T>(e: &SendError<T>) -> (s: String)
    ensures
        e is Disconnected ==> s@ == "Disconnected"@,
        e is NotificationQueueFull ==> s@ == "Notification queue full"@,
{
    match e {
        SendError::Io(io_err) => io_error_message(io_err),
        SendError::Disconnected(_) => String::from_str("Disconnected"),
        SendError::NotificationQueueFull => String::from_str("Notification queue full"),
    }
}

/// The message for each error: the I/O error's own message, or a fixed text.
fn format_try_send_error<T>(e: &TrySendError<T>) -> (s: String)
    ensures
        e is Full ==> s@ == "Channel full"@,
        e is Disconnected ==> s@ == "Disconnected"@,
        e is NotificationQueueFull ==> s@ == "Notification queue full"@,
{
    match e {
        TrySendError::Io(io_err) => io_error_message(io_err),
        TrySendError::Full(..) => String::from_str("Channel full"),
        TrySendError::Disconnected(..) => String::from_str("Disconnected"),
        TrySendError::NotificationQueueFull => String::from_str("Notification queue full"),
    }
}

impl<T> SendError<T> {
    /// The message of the error, as its `Display` would write it.
    pub fn to_string(&self) -> (s: String)
        ensures
            self is Disconnected ==> s@ == "Disconnected"@,
            self is NotificationQueueFull ==> s@ == "Notification queue full"@,
    {
        format_send_error(self)
    }
}

impl<T> TrySendError<T> {
    /// The message of the error, as its `Display` would write it.
    pub fn to_string(&self) -> (s: String)
        ensures
            self is Full ==> s@ == "Channel full"@,
            self is Disconnected ==> s@ == "Disconnected"@,
            self is NotificationQueueFull ==> s@ == "Notification queue full"@,
    {
        format_try_send_error(self)
    }
}

} // verus!
