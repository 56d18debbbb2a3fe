//! Sessions and the command processor: what each client command does to the
//! shared state, and which events go back to the sender and out to everyone else.

use crate::model::{MediaType, PlayerView, Position, ServerPlayer};
use crate::protocol::{Event, EventView, Message, MessageView};
use crate::store::{
    inserted, index_of, lemma_index_of, names_unique, moved_down, moved_up, removed, snapshot_of, with_flip,
    with_position, with_size, Store,
};
use vstd::prelude::*;

verus! {

/// What a command leads to besides its change of the shared state.
pub struct Outcome {
    /// An event sent straight back to the sender.
    pub reply: Option<Event>,
    /// An event for every other session, tagged with the sender's id.
    pub publish: Option<(u32, Event)>,
    /// An access token that the authorization service has to judge.
    pub token_to_check: Option<String>,
}

/// The mathematical value of an outcome.
pub ghost struct OutcomeView {
    pub reply: Option<EventView>,
    pub publish: Option<(u32, EventView)>,
    pub token_to_check: Option<Seq<char>>,
}

impl View for Outcome {
    type V = OutcomeView;

    open spec fn view(&self) -> OutcomeView {
        OutcomeView {
            reply: match self.reply {
                Some(e) => Some(e@),
                None => None,
            },
            publish: match self.publish {
                Some(p) => Some((p.0, p.1@)),
                None => None,
            },
            token_to_check: match self.token_to_check {
                Some(t) => Some(t@),
                None => None,
            },
        }
    }
}

/// An outcome with no events and no token.
pub open spec fn quiet() -> OutcomeView {
    OutcomeView { reply: None, publish: None, token_to_check: None }
}

/// An outcome that sends `e` to the sender only.
pub open spec fn reply_only(e: EventView) -> OutcomeView {
    OutcomeView { reply: Some(e), publish: None, token_to_check: None }
}

/// An outcome that sends `e` to every other session only.
pub open spec fn publish_only(id: u32, e: EventView) -> OutcomeView {
    OutcomeView { reply: None, publish: Some((id, e)), token_to_check: None }
}

/// An outcome that sends `e` to the sender and to every other session.
pub open spec fn reply_and_publish(id: u32, e: EventView) -> OutcomeView {
    OutcomeView { reply: Some(e), publish: Some((id, e)), token_to_check: None }
}

/// The item that a media command asks for, under the name `name`.
pub open spec fn new_item(
    name: Seq<char>,
    data: Seq<char>,
    media_type: MediaType,
    position: Position,
    width: i32,
    height: Option<i32>,
) -> PlayerView {
    PlayerView { name, data, media_type, position, width, height, horizontal_flip: false }
}

/// What session `id`, authorized or not, does with command `m` on state `s`:
/// the next state and the outcome.
pub open spec fn step(id: u32, authorized: bool, s: Seq<PlayerView>, m: MessageView) -> (
    Seq<PlayerView>,
    OutcomeView,
) {
    match m {
        MessageView::Ping => (s, reply_only(EventView::Pong)),
        MessageView::Authorize(token) => (
            s,
            OutcomeView { reply: None, publish: None, token_to_check: Some(token) },
        ),
        MessageView::GetAllPlayers => (s, reply_only(EventView::AllPlayers(snapshot_of(s)))),
        _ => if !authorized {
            (s, quiet())
        } else {
            match m {
                MessageView::NewMedia { name, data, media_type, position, width, height } => {
                    if name.len() == 0 {
                        (s, quiet())
                    } else {
                        let item = new_item(name, data, media_type, position, width, height);
                        let t = inserted(s, name, item);
                        (t, reply_and_publish(id, EventView::NewPlayer(t[t.len() - 1])))
                    }
                },
                MessageView::SetPosition { name, position } => if index_of(s, name) >= 0 {
                    (
                        with_position(s, name, position),
                        publish_only(id, EventView::PositionUpdated { name, position }),
                    )
                } else {
                    (s, quiet())
                },
                MessageView::SetSize { name, width, height } => if index_of(s, name) >= 0 {
                    (
                        with_size(s, name, width, height),
                        publish_only(id, EventView::SizeUpdated { name, width, height }),
                    )
                } else {
                    (s, quiet())
                },
                MessageView::DeletePlayer { name } => if index_of(s, name) >= 0 {
                    (removed(s, name), reply_and_publish(id, EventView::PlayerDeleted { name }))
                } else {
                    (s, quiet())
                },
                MessageView::MovePlayerUp { name } => if index_of(s, name) > 0 {
                    (moved_up(s, name), reply_and_publish(id, EventView::PlayerMovedUp { name }))
                } else {
                    (s, quiet())
                },
                MessageView::MovePlayerDown { name } => if 0 <= index_of(s, name) && index_of(s, name)
                    + 1 < s.len() {
                    (moved_down(s, name), reply_and_publish(id, EventView::PlayerMovedDown { name }))
                } else {
                    (s, quiet())
                },
                MessageView::FlipPlayerHorizontally { name, flipped } => if index_of(s, name) >= 0 {
                    (
                        with_flip(s, name, flipped),
                        publish_only(id, EventView::FlipPlayerHorizontally { name, flipped }),
                    )
                } else {
                    (s, quiet())
                },
                _ => (s, quiet()),
            }
        },
    }
}

/// Whether an event published by session `origin` goes on to the client of
/// session `receiver`: exactly when it is another session's.
pub open spec fn passes(receiver: u32, origin: u32) -> bool {
    origin != receiver
}

/// A command that changes the shared state, and so needs an authorized session.
pub open spec fn is_structural(m: MessageView) -> bool {
    match m {
        MessageView::Ping | MessageView::Authorize(_) | MessageView::GetAllPlayers => false,
        _ => true,
    }
}

/// Whatever session `id` sends, every event it publishes is tagged with its own
/// id, so its own client never gets it back from the bus.
pub proof fn law_no_self_echo(id: u32, authorized: bool, s: Seq<PlayerView>, m: MessageView)
    ensures
        match step(id, authorized, s, m).1.publish {
            Some(p) => p.0 == id && !passes(id, p.0),
            None => true,
        },
{
}

/// A session that is not authorized changes nothing and produces no event with
/// a command that changes the shared state.
pub proof fn law_unauthorized_changes_nothing(id: u32, s: Seq<PlayerView>, m: MessageView)
    requires
        is_structural(m),
    ensures
        step(id, false, s, m).0 == s,
        step(id, false, s, m).1 == quiet(),
{
}

/// Moving the first item up, or the last item down, changes nothing and
/// produces no event.
pub proof fn law_moves_at_the_ends_are_quiet(id: u32, s: Seq<PlayerView>)
    requires
        names_unique(s),
        s.len() > 0,
    ensures
        step(id, true, s, MessageView::MovePlayerUp { name: s[0].name }) == (s, quiet()),
        step(id, true, s, MessageView::MovePlayerDown { name: s[s.len() - 1].name }) == (s, quiet()),
{
    lemma_index_of(s, 0);
    lemma_index_of(s, s.len() - 1);
}

/// The source of session ids: each id is handed out once, in increasing order.
pub struct IdSequence {
    next: u32,
}

impl IdSequence {
    /// The id that the next call hands out.
    pub closed spec fn spec_next(&self) -> u32 {
        self.next
    }

    /// A sequence that starts at 0.
    pub fn new() -> (r: Self)
        ensures
            r.spec_next() == 0,
    {
        IdSequence { next: 0 }
    }

    /// Hands out the next id; `None` once every id below `u32::MAX` is taken.
    pub fn next_id(&mut self) -> (r: Option<u32>)
        ensures
            match r {
                Some(id) => id == old(self).spec_next() && final(self).spec_next() == id + 1,
                None => old(self).spec_next() == u32::MAX && final(self).spec_next() == u32::MAX,
            },
    {
        if self.next == u32::MAX {
            None
        } else {
            let id = self.next;
            self.next = self.next + 1;
            Some(id)
        }
    }
}

/// One client connection: its id and whether it may change the shared state.
pub struct Session {
    id: u32,
    authorized: bool,
}

impl Session {
    pub closed spec fn spec_id(&self) -> u32 {
        self.id
    }

    pub closed spec fn spec_authorized(&self) -> bool {
        self.authorized
    }

    /// A session with id `id`, not yet authorized.
    pub fn new(id: u32) -> (r: Self)
        ensures
            r.spec_id() == id,
            !r.spec_authorized(),
    {
        Session { id, authorized: false }
    }

    pub fn id(&self) -> (r: u32)
        ensures
            r == self.spec_id(),
    {
        self.id
    }

    pub fn is_authorized(&self) -> (r: bool)
        ensures
            r == self.spec_authorized(),
    {
        self.authorized
    }

    /// Takes the authorization service's verdict on a token this session sent:
    /// a grant authorizes the session; a refusal leaves it as it was.
    pub fn complete_authorization(&mut self, granted: bool)
        ensures
            final(self).spec_id() == old(self).spec_id(),
            final(self).spec_authorized() == (old(self).spec_authorized() || granted),
    {
        if granted {
            self.authorized = true;
        }
    }

    /// The event to pass on to this session's client, of one that session
    /// `origin` published: none when this session published it itself.
    pub fn forward(&self, origin: u32, event: Event) -> (r: Option<Event>)
        ensures
            !passes(self.spec_id(), origin) ==> r.is_none(),
            passes(self.spec_id(), origin) ==> r.is_some() && r.unwrap()@ == event@,
    {
        if origin == self.id {
            None
        } else {
            Some(event)
        }
    }

    /// Applies command `msg` from this session to `store`.
    pub fn handle(&self, store: &mut Store, msg: Message) -> (r: Outcome)
        requires
            old(store).wf(),
        ensures
            final(store).wf(),
            (final(store)@, r@) == step(self.spec_id(), self.spec_authorized(), old(store)@, msg@),
    {
        let ghost s0 = store@;
        let quiet = Outcome { reply: None, publish: None, token_to_check: None };
        match msg {
            Message::Ping => Outcome { reply: Some(Event::Pong), publish: None, token_to_check: None },
            Message::Authorize(token) => Outcome {
                reply: None,
                publish: None,
                token_to_check: Some(token),
            },
            Message::GetAllPlayers => Outcome {
                reply: Some(Event::AllPlayers(store.snapshot())),
                publish: None,
                token_to_check: None,
            },
            Message::NewMedia { name, data, media_type, position, width, height } => {
                if !self.authorized || name.unicode_len() == 0 {
                    return quiet;
                }
                let item = ServerPlayer::new(name.clone(), data.clone(), media_type, position, width, height);
                let canonical = store.insert(name, item);
                let stored = ServerPlayer::new(canonical, data, media_type, position, width, height);
                let event = Event::NewPlayer(stored);
                assert(store@[store@.len() - 1] == stored@);

                assert(store@ == inserted(s0, name@, new_item(name@, data@, media_type, position, width, height)));
                Outcome { reply: Some(event.duplicate()), publish: Some((self.id, event)), token_to_check: None }
            },
            Message::SetPosition { player_name, new_position } => {
                if !self.authorized {
                    return quiet;
                }
                match store.set_position(player_name.as_str(), new_position) {
                    None => quiet,
                    Some(_) => {
                        let event = Event::PositionUpdated { player_name, new_position };
                        Outcome { reply: None, publish: Some((self.id, event)), token_to_check: None }
                    },
                }
            },
            Message::SetSize { player_name, width, height } => {
                if !self.authorized {
                    return quiet;
                }
                match store.set_size(player_name.as_str(), width, height) {
                    None => quiet,
                    Some(_) => {
                        let event = Event::SizeUpdated { player_name, new_width: width, new_height: height };
                        Outcome { reply: None, publish: Some((self.id, event)), token_to_check: None }
                    },
                }
            },
            Message::DeletePlayer { player_name } => {
                if !self.authorized {
                    return quiet;
                }
                match store.remove(player_name.as_str()) {
                    None => quiet,
                    Some(_) => {
                        let event = Event::PlayerDeleted { player_name };
                        Outcome { reply: Some(event.duplicate()), publish: Some((self.id, event)), token_to_check: None }
                    },
                }
            },
            Message::MovePlayerUp { player_name } => {
                if !self.authorized {
                    return quiet;
                }
                match store.move_up(player_name.as_str()) {
                    None => quiet,
                    Some(_) => {
                        let event = Event::PlayerMovedUp { player_name };
                        Outcome { reply: Some(event.duplicate()), publish: Some((self.id, event)), token_to_check: None }
                    },
                }
            },
            Message::MovePlayerDown { player_name } => {
                if !self.authorized {
                    return quiet;
                }
                match store.move_down(player_name.as_str()) {
                    None => quiet,
                    Some(_) => {
                        let event = Event::PlayerMovedDown { player_name };
                        Outcome { reply: Some(event.duplicate()), publish: Some((self.id, event)), token_to_check: None }
                    },
                }
            },
            Message::FlipPlayerHorizontally { player_name, is_flipped } => {
                if !self.authorized {
                    return quiet;
                }
                match store.flip_horizontal(player_name.as_str(), is_flipped) {
                    None => quiet,
                    Some(_) => {
                        let event = Event::FlipPlayerHorizontally { player_name, is_flipped };
                        Outcome { reply: None, publish: Some((self.id, event)), token_to_check: None }
                    },
                }
            },
        }
    }
}

} // verus!
