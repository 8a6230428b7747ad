use crate::message::MessageType;
use crate::user::UserId;
use ahash::RandomState;
use dashmap::mapref::one::Ref;
use dashmap::DashMap;
use tokio::sync::broadcast::error::SendError;
use tokio::sync::broadcast::{Receiver, Sender};
use vstd::prelude::*;

verus! {

/// The most subscribers a user's fan-out may have when one more asks to join.
pub const USER_CONNECTION_LIMIT: usize = 64;

/// How many messages a fan-out buffers for a slow subscriber before the
/// oldest are dropped.
pub const FAN_OUT_CAPACITY: usize = 4;

/// `dashmap::DashMap`, carried as an opaque value.
#[verifier::external_type_specification]
#[verifier::external_body]
#[verifier::reject_recursive_types(K)]
#[verifier::reject_recursive_types(V)]
#[verifier::reject_recursive_types(S)]
pub struct ExDashMap<K, V, S>(DashMap<K, V, S>);

/// `dashmap::mapref::one::Ref`, the read guard on one entry of a map.
#[verifier::external_type_specification]
#[verifier::external_body]
#[verifier::reject_recursive_types(K)]
#[verifier::reject_recursive_types(V)]
pub struct ExRef<'a, K, V>(Ref<'a, K, V>);

/// `ahash::RandomState`, the hasher of the maps.
#[verifier::external_type_specification]
#[verifier::external_body]
pub struct ExRandomState(RandomState);

/// `tokio::sync::broadcast::Sender`, the publishing end of a fan-out.
#[verifier::external_type_specification]
#[verifier::external_body]
#[verifier::reject_recursive_types(T)]
pub struct ExSender<T>(Sender<T>);

/// `tokio::sync::broadcast::Receiver`, one subscriber's end of a fan-out.
#[verifier::external_type_specification]
#[verifier::external_body]
#[verifier::reject_recursive_types(T)]
pub struct ExReceiver<T>(Receiver<T>);

/// `tokio::sync::broadcast::error::SendError`, which hands an undelivered
/// message back.
#[verifier::external_type_specification]
#[verifier::external_body]
#[verifier::reject_recursive_types(T)]
pub struct ExSendError<T>(SendError<T>);

/// `tokio::sync::broadcast::channel` makes a fan-out and its first
/// subscriber. It panics on a capacity of zero or above `usize::MAX / 2`,
/// which the precondition rules out.
pub assume_specification<T: Clone>[ tokio::sync::broadcast::channel::<T> ](capacity: usize) -> (ends:
    (Sender<T>, Receiver<T>))
    requires
        0 < capacity <= usize::MAX / 2,
;

/// `Sender::receiver_count` reads how many subscribers are alive right now.
/// Subscribers come and go on their own, so nothing is promised of the number.
pub assume_specification<T>[ Sender::<T>::receiver_count ](sender: &Sender<T>) -> (count: usize)
;

/// `Sender::subscribe` adds a subscriber that sees the messages sent from now
/// on. It panics where `usize::MAX >> 2` subscribers are alive already; the
/// count is not a value that a contract can name, so no precondition rules
/// this out. The library subscribes only right after it has counted at most
/// [`USER_CONNECTION_LIMIT`] subscribers.
pub assume_specification<T>[ Sender::<T>::subscribe ](sender: &Sender<T>) -> (receiver: Receiver<T>)
;

/// `Sender::send` queues a message for every subscriber and returns how many
/// there are; with no subscriber it fails and hands the message back. A
/// success therefore counts at least one subscriber.
pub assume_specification<T>[ Sender::<T>::send ](sender: &Sender<T>, value: T) -> (outcome: Result<
    usize,
    SendError<T>,
>)
    ensures
        outcome matches Ok(subscribers) ==> subscribers > 0,
;

/// The users that have an entry in a map of fan-outs.
pub uninterp spec fn fan_out_users(
    map: DashMap<String, Sender<MessageType>, RandomState>,
) -> Set<Seq<char>>;

/// `DashMap::default` makes a map without entries.
#[verifier::external_body]
fn empty_fan_outs() -> (map: DashMap<String, Sender<MessageType>, RandomState>)
    ensures
        fan_out_users(map) == Set::<Seq<char>>::empty(),
{
    DashMap::default()
}

/// `DashMap::get` finds the entry of a key: some guard exactly if the key has
/// an entry.
#[verifier::external_body]
fn fan_out_entry<'a>(
    map: &'a DashMap<String, Sender<MessageType>, RandomState>,
    user: &str,
) -> (entry: Option<Ref<'a, String, Sender<MessageType>>>)
    ensures
        entry.is_some() == fan_out_users(*map).contains(user@),
{
    map.get(user)
}

/// `Ref::value` borrows the value that a guard stands on.
#[verifier::external_body]
fn entry_sender<'a, 'b>(entry: &'b Ref<'a, String, Sender<MessageType>>) -> (sender: &'b Sender<
    MessageType,
>) {
    entry.value()
}

/// `DashMap::insert` puts a value under a key, replacing an earlier one; the
/// other entries stay.
#[verifier::external_body]
fn insert_fan_out(
    map: &mut DashMap<String, Sender<MessageType>, RandomState>,
    user: String,
    sender: Sender<MessageType>,
)
    ensures
        fan_out_users(*final(map)) == fan_out_users(*old(map)).insert(user@),
{
    map.insert(user, sender);
}

/// Why a subscription was refused.
#[derive(Clone, Copy, Debug, PartialEq, Eq)]
pub enum ConnectionError {
    /// The user already has more subscribers than the limit allows.
    LimitExceeded,
}

impl ConnectionError {
    /// The text that tells the client why it is turned away.
    pub fn message(&self) -> (text: String)
        ensures
            text@ == "connection limit exceeded"@,
    {
        String::from_str("connection limit exceeded")
    }
}

/// What a subscribe request leads to.
#[derive(Clone, Copy, Debug, PartialEq, Eq)]
pub enum Admission {
    /// The user has no fan-out yet: one is made and the request gets its
    /// first subscriber.
    Create,
    /// The fan-out has room: the request gets one more subscriber.
    Join,
    /// The fan-out is over the limit: the request is refused.
    Refuse,
}

/// The decision on a subscribe request: a user without a fan-out always gets
/// one, and a fan-out is joined unless its subscribers exceed
/// [`USER_CONNECTION_LIMIT`].
pub open spec fn admission_of(subscribers: Option<usize>) -> Admission {
    match subscribers {
        None => Admission::Create,
        Some(count) => if count > USER_CONNECTION_LIMIT {
            Admission::Refuse
        } else {
            Admission::Join
        },
    }
}

/// Decides a subscribe request, given how many subscribers the user's
/// fan-out has, if it exists.
pub fn admission(subscribers: Option<usize>) -> (decision: Admission)
    ensures
        decision == admission_of(subscribers),
{
    match subscribers {
        None => Admission::Create,
        Some(count) => if count > USER_CONNECTION_LIMIT {
            Admission::Refuse
        } else {
            Admission::Join
        },
    }
}

/// No fan-out is joined over the limit: whenever a request is let in, the
/// fan-out had at most [`USER_CONNECTION_LIMIT`] subscribers at that moment,
/// and a request that finds more is refused.
pub proof fn lemma_admission_keeps_limit(count: usize)
    ensures
        admission_of(Some(count)) is Join ==> count <= USER_CONNECTION_LIMIT,
        count > USER_CONNECTION_LIMIT ==> admission_of(Some(count)) is Refuse,
        !(admission_of(Some(count)) is Create),
{
}

/// What became of a published message.
#[derive(Clone, Copy, Debug, PartialEq, Eq)]
pub enum Delivery {
    /// The user has no fan-out: nothing was done.
    NoEntry,
    /// The user's fan-out has no subscriber left: the message was dropped.
    NoSubscriber,
    /// The message was queued for this many subscribers.
    Queued(usize),
}

/// Index from user to the fan-out that feeds the user's sessions.
pub struct ActiveConnections {
    fan_outs: DashMap<String, Sender<MessageType>, RandomState>,
}

impl ActiveConnections {
    /// The names of the users that have a fan-out.
    pub closed spec fn users(&self) -> Set<Seq<char>> {
        fan_out_users(self.fan_outs)
    }

    /// An index without users.
    pub fn new() -> (connections: ActiveConnections)
        ensures
            connections.users() == Set::<Seq<char>>::empty(),
    {
        ActiveConnections { fan_outs: empty_fan_outs() }
    }

    /// Subscribes one more session of `user`.
    ///
    /// A user without a fan-out gets one, and the session its first
    /// subscriber: this never fails. A user with a fan-out keeps it; the
    /// session joins unless the subscribers alive at that moment exceed
    /// [`USER_CONNECTION_LIMIT`], as [`admission`] decides. Exclusive access
    /// makes the look-up and the insertion one step.
    pub fn add(&mut self, user: UserId) -> (subscription: Result<
        Receiver<MessageType>,
        ConnectionError,
    >)
        ensures
            final(self).users() == old(self).users().insert(user@),
            !old(self).users().contains(user@) ==> subscription is Ok,
    {
        let joined = match fan_out_entry(&self.fan_outs, user.as_str()) {
            Some(entry) => {
                let sender = entry_sender(&entry);
                let count: usize = sender.receiver_count();
                match admission(Some(count)) {
                    Admission::Refuse => Some(Err(ConnectionError::LimitExceeded)),
                    _ => Some(Ok(sender.subscribe())),
                }
            },
            None => None,
        };
        match joined {
            Some(subscription) => {
                assert(self.users().insert(user@) =~= self.users());
                subscription
            },
            None => {
                let (sender, receiver) = tokio::sync::broadcast::channel(FAN_OUT_CAPACITY);
                insert_fan_out(&mut self.fan_outs, user.into_string(), sender);
                Ok(receiver)
            },
        }
    }

    /// Publishes `msg` to the sessions of `user`, if there are any. The
    /// message is queued for the subscribers alive at that moment; a slow
    /// subscriber may miss it. The index itself does not change.
    pub fn send_to_user(&self, user: &UserId, msg: MessageType) -> (delivery: Delivery)
        ensures
            delivery is NoEntry <==> !self.users().contains(user@),
            delivery matches Delivery::Queued(subscribers) ==> subscribers > 0,
    {
        match fan_out_entry(&self.fan_outs, user.as_str()) {
            None => Delivery::NoEntry,
            Some(entry) => {
                match entry_sender(&entry).send(msg) {
                    Ok(subscribers) => Delivery::Queued(subscribers),
                    Err(_) => Delivery::NoSubscriber,
                }
            },
        }
    }
}

impl Default for ActiveConnections {
    fn default() -> (connections: Self)
        ensures
            connections.users() == Set::<Seq<char>>::empty(),
    {
        ActiveConnections::new()
    }
}

} // verus!
