//! One running game with its observers: the game, the channel on which every change is
//! announced, and the time at which the session was last used.

use vstd::prelude::*;
use crate::dto::{overview_of, GameMessage, GameOverview, MessageView, RequestView, UpdateGameRequest};
use crate::error::GameError;
use crate::models::{Game, GameView, PlayerRole};
use crate::rules;
use crate::util::get_time;

verus! {

/// `tokio::sync::broadcast::Sender`, the sending half of a channel. Nothing is known of
/// what is inside.
#[verifier::external_type_specification]
#[verifier::external_body]
#[verifier::reject_recursive_types(T)]
pub struct ExSender<T>(tokio::sync::broadcast::Sender<T>);

/// `tokio::sync::broadcast::Receiver`, a receiving half of a channel. Nothing is known of
/// what is inside.
#[verifier::external_type_specification]
#[verifier::external_body]
#[verifier::reject_recursive_types(T)]
pub struct ExReceiver<T>(tokio::sync::broadcast::Receiver<T>);

/// How many messages the channel of a session keeps for an observer that has fallen behind.
/// An observer that falls further behind skips the oldest ones; the publisher never waits.
pub const CHANNEL_CAPACITY: usize = 16;

/// A session that nobody has used for longer than this many milliseconds is stale.
pub const STALE_AFTER_MILLISECONDS: u128 = 1_800_000;

/// `tokio::sync::broadcast::channel`: a new channel with room for `capacity` messages, as
/// its sending half and one receiving half. The call panics for a capacity of 0 or above
/// `usize::MAX / 2`, which `requires` leaves out.
#[verifier::external_body]
fn open_channel(capacity: usize) -> (ends: (
    tokio::sync::broadcast::Sender<GameMessage>,
    tokio::sync::broadcast::Receiver<GameMessage>,
))
    requires
        0 < capacity <= usize::MAX / 2,
{
    tokio::sync::broadcast::channel(capacity)
}

/// `tokio::sync::broadcast::Sender::send`: hands a message to the channel. The call never
/// waits. How many observers there are, and whether any of them will read the message, is
/// not claimed: the outcome of the call is dropped.
#[verifier::external_body]
fn send(sender: &tokio::sync::broadcast::Sender<GameMessage>, message: GameMessage) {
    let _ = sender.send(message);
}

/// `tokio::sync::broadcast::Sender::subscribe`: a new receiving half, which will see the
/// messages sent after this call. Nothing is claimed of it: which channel a receiving half
/// belongs to, and what it has yet to read, is kept in the channel and not in the value.
/// The call panics where the channel has `usize::MAX / 4` receiving halves already.
#[verifier::external_body]
fn new_receiver(sender: &tokio::sync::broadcast::Sender<GameMessage>) -> tokio::sync::broadcast::Receiver<
    GameMessage,
> {
    sender.subscribe()
}

/// A session, as the rules see it: the game, the time of its last use in milliseconds, and
/// every message published in it so far, oldest first.
pub struct EntryView {
    pub game: GameView,
    pub last_updated: int,
    pub published: Seq<MessageView>,
}

/// A session: one game, the channel to its observers and the time of its last use.
///
/// The channel is reached through [`GameEntry::publish`] and [`GameEntry::subscribe`] alone,
/// so that `published` records whatever has been handed to it.
pub struct GameEntry {
    pub game: Game,
    /// Milliseconds since the Unix epoch.
    pub last_updated: u128,
    sender: tokio::sync::broadcast::Sender<GameMessage>,
    /// Keeps the channel open while nobody else listens.
    receiver: tokio::sync::broadcast::Receiver<GameMessage>,
    /// What has been handed to the channel so far, oldest first. It exists in proofs only.
    pub published: Ghost<Seq<MessageView>>,
}

impl View for GameEntry {
    type V = EntryView;

    closed spec fn view(&self) -> EntryView {
        EntryView {
            game: self.game@,
            last_updated: self.last_updated as int,
            published: self.published@,
        }
    }
}

/// Whether a session last used at `last_updated` is stale at `now`.
pub open spec fn stale(last_updated: int, now: int) -> bool {
    now - last_updated > STALE_AFTER_MILLISECONDS
}

/// The session after a request has been handled in it at `time`: the game has moved as the
/// rules say, the messages of the step have been published, and the session counts as used,
/// whether the request was granted or not.
pub open spec fn after_request(
    entry: EntryView,
    username: Seq<char>,
    request: RequestView,
    time: int,
) -> EntryView {
    let step = rules::handle(entry.game, username, request, time);
    EntryView { game: step.game, last_updated: time, published: entry.published + step.published }
}

/// The session after `username` has asked to join it at `time`: where the rules let them
/// in, the session counts as used and everyone is told the new summary of the game; where
/// they do not, nothing changes.
pub open spec fn after_join(entry: EntryView, username: Seq<char>, role: PlayerRole, time: int) -> EntryView {
    let step = rules::join(entry.game, username, role);
    if step.result is Ok {
        EntryView {
            game: step.game,
            last_updated: time,
            published: entry.published.push(
                MessageView::GameUpdate { game: overview_of(step.game) },
            ),
        }
    } else {
        entry
    }
}

/// Whether a session last used at `last_updated` is stale at `now`: see [`stale`].
pub fn is_stale(last_updated: u128, now: u128) -> (is_stale: bool)
    ensures
        is_stale == stale(last_updated as int, now as int),
{
    now > last_updated && now - last_updated > STALE_AFTER_MILLISECONDS
}

impl GameEntry {
    /// A session for a game that has just been created, with nothing published yet.
    pub fn new(game: Game, now: u128) -> (entry: GameEntry)
        ensures
            entry@ == (EntryView { game: game@, last_updated: now as int, published: Seq::empty() }),
    {
        let (sender, receiver) = open_channel(CHANNEL_CAPACITY);
        GameEntry { game, last_updated: now, sender, receiver, published: Ghost(Seq::empty()) }
    }

    /// Publishes a message to every observer of the session. This never waits: an observer
    /// that does not keep up misses messages, and a session without observers is no error.
    pub fn publish(&mut self, message: GameMessage)
        ensures
            final(self)@ == (EntryView {
                published: old(self)@.published.push(message@),
                ..old(self)@
            }),
    {
        self.published = Ghost(self.published@.push(message@));
        send(&self.sender, message);
    }

    /// Publishes messages in their order.
    pub fn publish_all(&mut self, messages: &Vec<GameMessage>)
        ensures
            final(self)@ == (EntryView {
                published: old(self)@.published + messages.deep_view(),
                ..old(self)@
            }),
    {
        let mut i: usize = 0;
        assert(self@.published =~= old(self)@.published + messages.deep_view().take(0));
        while i < messages.len()
            invariant
                i <= messages.len(),
                self@ == (EntryView {
                    published: old(self)@.published + messages.deep_view().take(i as int),
                    ..old(self)@
                }),
            decreases messages.len() - i,
        {
            self.publish(messages[i].clone());
            assert(messages.deep_view().take(i + 1) =~= messages.deep_view().take(i as int).push(
                messages[i as int]@,
            ));
            assert(self@.published =~= old(self)@.published + messages.deep_view().take(i + 1));
            i += 1;
        }
        assert(messages.deep_view().take(messages.len() as int) =~= messages.deep_view());
    }

    /// A new observer of the session. It sees what is published from now on; what it is to
    /// be shown of that is decided by [`GameMessage::is_for`].
    pub fn subscribe(&self) -> tokio::sync::broadcast::Receiver<GameMessage> {
        new_receiver(&self.sender)
    }

    /// The first message for a new observer: the summary of the game as it stands.
    pub fn welcome(&self) -> (message: GameMessage)
        ensures
            message@ == (MessageView::JoinGame { game: overview_of(self@.game) }),
    {
        GameMessage::JoinGame { game: GameOverview::of(&self.game) }
    }

    /// Whether the session is stale at `now`.
    pub fn is_stale(&self, now: u128) -> (is_stale: bool)
        ensures
            is_stale == stale(self@.last_updated, now as int),
    {
        is_stale(self.last_updated, now)
    }

    /// Lets `username` join at `now`: see [`after_join`] and [`rules::join`].
    pub fn join(&mut self, username: String, role: PlayerRole, now: u128) -> (result: Result<
        (),
        GameError,
    >)
        ensures
            final(self)@ == after_join(old(self)@, username@, role, now as int),
            result == rules::join(old(self)@.game, username@, role).result,
    {
        match self.game.join(username, role) {
            Ok(_) => {
                self.last_updated = now;
                let update = GameMessage::GameUpdate { game: GameOverview::of(&self.game) };
                self.publish(update);
                Ok(())
            },
            Err(error) => Err(error),
        }
    }

    /// Handles one request from `username` at `now`: see [`after_request`].
    pub fn handle_request_at(&mut self, username: String, request: UpdateGameRequest, now: u128)
        requires
            old(self)@.game.wf(),
            rules::request_fits(old(self)@.game, request@),
        ensures
            final(self)@ == after_request(old(self)@, username@, request@, now as int),
    {
        self.last_updated = now;
        let messages = self.game.handle_request(username, request, now);
        self.publish_all(&messages);
    }
}

/// Handles one request from `username` in a session, at the time that the clock shows: the
/// session changes as [`after_request`] says for the time that it is left with.
pub fn handle_game_request(game_entry: &mut GameEntry, username: String, request: UpdateGameRequest)
    requires
        old(game_entry)@.game.wf(),
        rules::request_fits(old(game_entry)@.game, request@),
    ensures
        final(game_entry)@ == after_request(
            old(game_entry)@,
            username@,
            request@,
            final(game_entry)@.last_updated,
        ),
{
    let now = get_time();
    game_entry.handle_request_at(username, request, now);
}

} // verus!
