//! The messages that clients send and the events that the shared state sends back.

use crate::model::{MediaType, PlayerView, Position, ServerPlayer};
use crate::store::listing_view;
use vstd::prelude::*;

verus! {

/// A command from a client.
#[derive(Debug, Clone, PartialEq)]
pub enum Message {
    Ping,
    Authorize(String),
    SetPosition { player_name: String, new_position: Position },
    SetSize { player_name: String, width: i32, height: Option<i32> },
    GetAllPlayers,
    NewMedia {
        name: String,
        data: String,
        media_type: MediaType,
        position: Position,
        width: i32,
        height: Option<i32>,
    },
    DeletePlayer { player_name: String },
    MovePlayerUp { player_name: String },
    MovePlayerDown { player_name: String },
    FlipPlayerHorizontally { player_name: String, is_flipped: bool },
}

/// The mathematical value of a command.
pub ghost enum MessageView {
    Ping,
    Authorize(Seq<char>),
    SetPosition { name: Seq<char>, position: Position },
    SetSize { name: Seq<char>, width: i32, height: Option<i32> },
    GetAllPlayers,
    NewMedia {
        name: Seq<char>,
        data: Seq<char>,
        media_type: MediaType,
        position: Position,
        width: i32,
        height: Option<i32>,
    },
    DeletePlayer { name: Seq<char> },
    MovePlayerUp { name: Seq<char> },
    MovePlayerDown { name: Seq<char> },
    FlipPlayerHorizontally { name: Seq<char>, flipped: bool },
}

impl View for Message {
    type V = MessageView;

    open spec fn view(&self) -> MessageView {
        match self {
            Message::Ping => MessageView::Ping,
            Message::Authorize(t) => MessageView::Authorize(t@),
            Message::SetPosition { player_name, new_position } => MessageView::SetPosition {
                name: player_name@,
                position: *new_position,
            },
            Message::SetSize { player_name, width, height } => MessageView::SetSize {
                name: player_name@,
                width: *width,
                height: *height,
            },
            Message::GetAllPlayers => MessageView::GetAllPlayers,
            Message::NewMedia { name, data, media_type, position, width, height } =>
                MessageView::NewMedia {
                name: name@,
                data: data@,
                media_type: *media_type,
                position: *position,
                width: *width,
                height: *height,
            },
            Message::DeletePlayer { player_name } => MessageView::DeletePlayer { name: player_name@ },
            Message::MovePlayerUp { player_name } => MessageView::MovePlayerUp { name: player_name@ },
            Message::MovePlayerDown { player_name } => MessageView::MovePlayerDown {
                name: player_name@,
            },
            Message::FlipPlayerHorizontally { player_name, is_flipped } =>
                MessageView::FlipPlayerHorizontally { name: player_name@, flipped: *is_flipped },
        }
    }
}

/// A change or a reply sent to clients.
#[derive(Debug, Clone, PartialEq)]
pub enum Event {
    Pong,
    AllPlayers(Vec<(String, ServerPlayer)>),
    NewPlayer(ServerPlayer),
    PositionUpdated { player_name: String, new_position: Position },
    SizeUpdated { player_name: String, new_width: i32, new_height: Option<i32> },
    PlayerDeleted { player_name: String },
    PlayerMovedDown { player_name: String },
    PlayerMovedUp { player_name: String },
    FlipPlayerHorizontally { player_name: String, is_flipped: bool },
}

/// The mathematical value of an event.
pub ghost enum EventView {
    Pong,
    AllPlayers(Seq<(Seq<char>, PlayerView)>),
    NewPlayer(PlayerView),
    PositionUpdated { name: Seq<char>, position: Position },
    SizeUpdated { name: Seq<char>, width: i32, height: Option<i32> },
    PlayerDeleted { name: Seq<char> },
    PlayerMovedDown { name: Seq<char> },
    PlayerMovedUp { name: Seq<char> },
    FlipPlayerHorizontally { name: Seq<char>, flipped: bool },
}

impl View for Event {
    type V = EventView;

    open spec fn view(&self) -> EventView {
        match self {
            Event::Pong => EventView::Pong,
            Event::AllPlayers(list) => EventView::AllPlayers(listing_view(list@)),
            Event::NewPlayer(p) => EventView::NewPlayer(p@),
            Event::PositionUpdated { player_name, new_position } => EventView::PositionUpdated {
                name: player_name@,
                position: *new_position,
            },
            Event::SizeUpdated { player_name, new_width, new_height } => EventView::SizeUpdated {
                name: player_name@,
                width: *new_width,
                height: *new_height,
            },
            Event::PlayerDeleted { player_name } => EventView::PlayerDeleted { name: player_name@ },
            Event::PlayerMovedDown { player_name } => EventView::PlayerMovedDown {
                name: player_name@,
            },
            Event::PlayerMovedUp { player_name } => EventView::PlayerMovedUp { name: player_name@ },
            Event::FlipPlayerHorizontally { player_name, is_flipped } =>
                EventView::FlipPlayerHorizontally { name: player_name@, flipped: *is_flipped },
        }
    }
}

/// A copy of an ordered list of items.
fn duplicate_listing(list: &Vec<(String, ServerPlayer)>) -> (r: Vec<(String, ServerPlayer)>)
    ensures
        listing_view(r@) == listing_view(list@),
{
    let mut out: Vec<(String, ServerPlayer)> = Vec::new();
    let mut i: usize = 0;
    while i < list.len()
        invariant
            i <= list@.len(),
            out@.len() == i,
            listing_view(out@) =~= listing_view(list@.subrange(0, i as int)),
        decreases list@.len() - i,
    {
        let ghost before = out@;
        out.push((list[i].0.clone(), list[i].1.duplicate()));
        proof {
            assert(out@ == before.push(out@[i as int]));
            assert(listing_view(out@) =~= listing_view(before).push((list@[i as int].0@, list@[i as int].1@)));
            assert(list@.subrange(0, i as int + 1) =~= list@.subrange(0, i as int).push(list@[i as int]));
        }
        i = i + 1;
    }
    assert(list@.subrange(0, i as int) =~= list@);
    out
}

impl Event {
    /// A copy with the same value.
    pub fn duplicate(&self) -> (r: Event)
        ensures
            r@ == self@,
    {
        match self {
            Event::Pong => Event::Pong,
            Event::AllPlayers(list) => Event::AllPlayers(duplicate_listing(list)),
            Event::NewPlayer(p) => Event::NewPlayer(p.duplicate()),
            Event::PositionUpdated { player_name, new_position } => Event::PositionUpdated {
                player_name: player_name.clone(),
                new_position: *new_position,
            },
            Event::SizeUpdated { player_name, new_width, new_height } => Event::SizeUpdated {
                player_name: player_name.clone(),
                new_width: *new_width,
                new_height: *new_height,
            },
            Event::PlayerDeleted { player_name } => Event::PlayerDeleted {
                player_name: player_name.clone(),
            },
            Event::PlayerMovedDown { player_name } => Event::PlayerMovedDown {
                player_name: player_name.clone(),
            },
            Event::PlayerMovedUp { player_name } => Event::PlayerMovedUp {
                player_name: player_name.clone(),
            },
            Event::FlipPlayerHorizontally { player_name, is_flipped } =>
                Event::FlipPlayerHorizontally { player_name: player_name.clone(), is_flipped: *is_flipped },
        }
    }
}

} // verus!
