use crate::connection::{ActiveConnections, Delivery};
use crate::message::{MessageType, MessageView};
use crate::pre_auth::{PreAuthCache, PreAuthEntry};
use crate::user::UserId;
use vstd::prelude::*;

verus! {

/// Files under `path` of the storage `storage` changed.
#[derive(Debug, PartialEq, Eq)]
pub struct StorageUpdate {
    pub storage: u32,
    pub path: String,
}

/// The membership of `user` in `group` changed.
#[derive(Debug, PartialEq, Eq)]
pub struct GroupUpdate {
    pub user: UserId,
    pub group: String,
}

/// Something was shared with `user`.
#[derive(Debug, PartialEq, Eq)]
pub struct ShareCreate {
    pub user: UserId,
}

/// The activity stream of `user` has a new entry.
#[derive(Debug, PartialEq, Eq)]
pub struct Activity {
    pub user: UserId,
}

/// `user` has a new notification.
#[derive(Debug, PartialEq, Eq)]
pub struct Notification {
    pub user: UserId,
}

/// `token` authenticates one socket of `user` for a short while.
#[derive(Debug, PartialEq, Eq)]
pub struct PreAuth {
    pub user: UserId,
    pub token: String,
}

/// An application-defined message for `user`.
#[derive(Debug, PartialEq, Eq)]
pub struct Custom {
    pub user: UserId,
    pub message: String,
    pub body: String,
}

/// A change to the logging of the running server.
#[derive(Debug, PartialEq, Eq)]
pub enum Config {
    /// Log by this specification until it is restored.
    LogSpec(String),
    /// Go back to the specification in force before the last change.
    LogRestore,
}

/// One record from the bus.
#[derive(Debug, PartialEq, Eq)]
pub enum Event {
    StorageUpdate(StorageUpdate),
    GroupUpdate(GroupUpdate),
    ShareCreate(ShareCreate),
    TestCookie(u32),
    Activity(Activity),
    Notification(Notification),
    PreAuth(PreAuth),
    Custom(Custom),
    Config(Config),
}

/// Mathematical value of a [`Route`].
pub enum RouteView {
    Publish { user: Seq<char>, msg: MessageView },
    Resolve { storage: u32, path: Seq<char> },
    Remember { token: Seq<char>, user: Seq<char> },
    Cookie(u32),
    LogSpec(Seq<char>),
    LogRestore,
}

/// Where an event goes.
#[derive(Debug, PartialEq, Eq)]
pub enum Route {
    /// `msg` is published to the sessions of `user`.
    Publish { user: UserId, msg: MessageType },
    /// The users that can see `path` on `storage` are looked up, and a file
    /// hint is published to each.
    Resolve { storage: u32, path: String },
    /// The token is recorded in the pre-authentication cache.
    Remember { token: String, user: UserId },
    /// The number is stored as the test cookie.
    Cookie(u32),
    /// The logging specification is pushed.
    LogSpec(String),
    /// The logging specification is restored.
    LogRestore,
}

impl View for Route {
    type V = RouteView;

    open spec fn view(&self) -> RouteView {
        match self {
            Route::Publish { user, msg } => RouteView::Publish { user: user@, msg: msg@ },
            Route::Resolve { storage, path } => RouteView::Resolve { storage: *storage, path: path@ },
            Route::Remember { token, user } => RouteView::Remember { token: token@, user: user@ },
            Route::Cookie(cookie) => RouteView::Cookie(*cookie),
            Route::LogSpec(spec) => RouteView::LogSpec(spec@),
            Route::LogRestore => RouteView::LogRestore,
        }
    }
}

/// The routing table: what each kind of event leads to.
pub open spec fn route(event: Event) -> RouteView {
    match event {
        Event::StorageUpdate(update) => RouteView::Resolve {
            storage: update.storage,
            path: update.path@,
        },
        Event::GroupUpdate(update) => RouteView::Publish {
            user: update.user@,
            msg: MessageView::File,
        },
        Event::ShareCreate(share) => RouteView::Publish { user: share.user@, msg: MessageView::File },
        Event::TestCookie(cookie) => RouteView::Cookie(cookie),
        Event::Activity(activity) => RouteView::Publish {
            user: activity.user@,
            msg: MessageView::Activity,
        },
        Event::Notification(notification) => RouteView::Publish {
            user: notification.user@,
            msg: MessageView::Notification,
        },
        Event::PreAuth(pre_auth) => RouteView::Remember {
            token: pre_auth.token@,
            user: pre_auth.user@,
        },
        Event::Custom(custom) => RouteView::Publish {
            user: custom.user@,
            msg: MessageView::Custom(custom.message@, custom.body@),
        },
        Event::Config(Config::LogSpec(spec)) => RouteView::LogSpec(spec@),
        Event::Config(Config::LogRestore) => RouteView::LogRestore,
    }
}

/// Routes one event by the routing table.
pub fn route_event(event: Event) -> (routed: Route)
    ensures
        routed@ == route(event),
{
    match event {
        Event::StorageUpdate(update) => Route::Resolve { storage: update.storage, path: update.path },
        Event::GroupUpdate(update) => Route::Publish { user: update.user, msg: MessageType::File },
        Event::ShareCreate(share) => Route::Publish { user: share.user, msg: MessageType::File },
        Event::TestCookie(cookie) => Route::Cookie(cookie),
        Event::Activity(activity) => Route::Publish {
            user: activity.user,
            msg: MessageType::Activity,
        },
        Event::Notification(notification) => Route::Publish {
            user: notification.user,
            msg: MessageType::Notification,
        },
        Event::PreAuth(pre_auth) => Route::Remember { token: pre_auth.token, user: pre_auth.user },
        Event::Custom(custom) => Route::Publish {
            user: custom.user,
            msg: MessageType::Custom(custom.message, custom.body),
        },
        Event::Config(Config::LogSpec(spec)) => Route::LogSpec(spec),
        Event::Config(Config::LogRestore) => Route::LogRestore,
    }
}

/// Mathematical value of a [`Followup`].
pub enum FollowupView {
    Published(Delivery),
    ResolveStorage { storage: u32, path: Seq<char> },
    Stored,
    PushLogSpec(Seq<char>),
    PopLogSpec,
}

/// What handling an event did, and what is left for the caller to do.
#[derive(Debug, PartialEq, Eq)]
pub enum Followup {
    /// The event's message was published, with this result.
    Published(Delivery),
    /// The caller looks up the users of the storage path and hands them to
    /// [`App::notify_storage_users`].
    ResolveStorage { storage: u32, path: String },
    /// The event changed the server's own state; nothing is left to do.
    Stored,
    /// The caller pushes this logging specification.
    PushLogSpec(String),
    /// The caller restores the previous logging specification.
    PopLogSpec,
}

impl View for Followup {
    type V = FollowupView;

    open spec fn view(&self) -> FollowupView {
        match self {
            Followup::Published(delivery) => FollowupView::Published(*delivery),
            Followup::ResolveStorage { storage, path } => FollowupView::ResolveStorage {
                storage: *storage,
                path: path@,
            },
            Followup::Stored => FollowupView::Stored,
            Followup::PushLogSpec(spec) => FollowupView::PushLogSpec(spec@),
            Followup::PopLogSpec => FollowupView::PopLogSpec,
        }
    }
}

/// The state that sessions and the event dispatcher share.
pub struct App {
    /// The fan-outs of the users with sessions.
    pub connections: ActiveConnections,
    /// The tokens that authenticate without a credential check.
    pub pre_auth: PreAuthCache,
    /// The number that the last test-cookie event carried.
    pub test_cookie: u32,
}

impl App {
    /// A server without sessions or tokens, and a test cookie of zero.
    pub fn new() -> (app: App)
        ensures
            app.connections.users() == Set::<Seq<char>>::empty(),
            app.pre_auth@ == crate::pre_auth::no_entries(),
            app.test_cookie == 0,
    {
        App { connections: ActiveConnections::new(), pre_auth: PreAuthCache::new(), test_cookie: 0 }
    }

    /// Handles one event from the bus at `now`, as [`route`] says: a message
    /// for a user is published to the user's sessions, a token is recorded,
    /// a test cookie is stored. What needs the storage mapping or the logger
    /// is handed back to the caller. Whatever the event, the users with a
    /// fan-out stay the same.
    pub fn handle_event(&mut self, event: Event, now: u64) -> (followup: Followup)
        ensures
            final(self).connections.users() == old(self).connections.users(),
            match route(event) {
                RouteView::Publish { user, msg } => {
                    &&& followup matches Followup::Published(delivery)
                    &&& delivery is NoEntry <==> !old(self).connections.users().contains(user)
                    &&& delivery matches Delivery::Queued(subscribers) ==> subscribers > 0
                    &&& final(self).pre_auth@ == old(self).pre_auth@
                    &&& final(self).test_cookie == old(self).test_cookie
                },
                RouteView::Resolve { storage, path } => {
                    &&& followup@ == (FollowupView::ResolveStorage { storage, path })
                    &&& final(self).pre_auth@ == old(self).pre_auth@
                    &&& final(self).test_cookie == old(self).test_cookie
                },
                RouteView::Remember { token, user } => {
                    &&& followup@ == FollowupView::Stored
                    &&& final(self).pre_auth@ == old(self).pre_auth@.insert(
                        token,
                        PreAuthEntry { created: now, user },
                    )
                    &&& final(self).test_cookie == old(self).test_cookie
                },
                RouteView::Cookie(cookie) => {
                    &&& followup@ == FollowupView::Stored
                    &&& final(self).pre_auth@ == old(self).pre_auth@
                    &&& final(self).test_cookie == cookie
                },
                RouteView::LogSpec(spec) => {
                    &&& followup@ == FollowupView::PushLogSpec(spec)
                    &&& final(self).pre_auth@ == old(self).pre_auth@
                    &&& final(self).test_cookie == old(self).test_cookie
                },
                RouteView::LogRestore => {
                    &&& followup@ == FollowupView::PopLogSpec
                    &&& final(self).pre_auth@ == old(self).pre_auth@
                    &&& final(self).test_cookie == old(self).test_cookie
                },
            },
    {
        match route_event(event) {
            Route::Publish { user, msg } => Followup::Published(
                self.connections.send_to_user(&user, msg),
            ),
            Route::Resolve { storage, path } => Followup::ResolveStorage { storage, path },
            Route::Remember { token, user } => {
                self.pre_auth.insert(token, user, now);
                Followup::Stored
            },
            Route::Cookie(cookie) => {
                self.test_cookie = cookie;
                Followup::Stored
            },
            Route::LogSpec(spec) => Followup::PushLogSpec(spec),
            Route::LogRestore => Followup::PopLogSpec,
        }
    }

    /// Publishes a file hint to each of `users`, the users that a storage
    /// update concerns, and reports what became of each.
    pub fn notify_storage_users(&self, users: &Vec<UserId>) -> (deliveries: Vec<Delivery>)
        ensures
            deliveries@.len() == users@.len(),
            forall|i: int|
                0 <= i < users@.len() ==> ((#[trigger] deliveries@[i]) is NoEntry
                    <==> !self.connections.users().contains(users@[i]@)),
            forall|i: int|
                0 <= i < users@.len() ==> ((#[trigger] deliveries@[i]) matches Delivery::Queued(
                    subscribers,
                ) ==> subscribers > 0),
    {
        let mut deliveries: Vec<Delivery> = Vec::new();
        let mut i: usize = 0;
        while i < users.len()
            invariant
                i <= users@.len(),
                deliveries@.len() == i,
                forall|j: int|
                    0 <= j < i ==> ((#[trigger] deliveries@[j]) is NoEntry
                        <==> !self.connections.users().contains(users@[j]@)),
                forall|j: int|
                    0 <= j < i ==> ((#[trigger] deliveries@[j]) matches Delivery::Queued(
                        subscribers,
                    ) ==> subscribers > 0),
            decreases users@.len() - i,
        {
            let delivery = self.connections.send_to_user(&users[i], MessageType::File);
            deliveries.push(delivery);
            i += 1;
        }
        deliveries
    }
}

impl Default for App {
    fn default() -> (app: Self)
        ensures
            app.connections.users() == Set::<Seq<char>>::empty(),
            app.pre_auth@ == crate::pre_auth::no_entries(),
            app.test_cookie == 0,
    {
        App::new()
    }
}

} // verus!
