//! A client's copy of the shared state, kept current by the events it receives.

use crate::model::PlayerView;
use crate::naming::lemma_canonical_name_is_new;
use crate::protocol::{Event, EventView, MessageView};
use crate::session::step;
use crate::store::{
    lemma_index_of_absent, listing_view, moved_down, moved_up, names_of, names_unique,
    removed, upserted, with_flip, with_position, with_size, Store,
};
use vstd::prelude::*;

verus! {

/// The state built by storing each item of `list` in turn under its own name.
pub open spec fn upsert_all(s: Seq<PlayerView>, list: Seq<(Seq<char>, PlayerView)>) -> Seq<PlayerView>
    decreases list.len(),
{
    if list.len() == 0 {
        s
    } else {
        upsert_all(upserted(s, list[0].1), list.drop_first())
    }
}

/// A copy `s` of the state after event `e` is applied to it.
pub open spec fn applied(s: Seq<PlayerView>, e: EventView) -> Seq<PlayerView> {
    match e {
        EventView::Pong => s,
        EventView::AllPlayers(list) => upsert_all(Seq::empty(), list),
        EventView::NewPlayer(p) => upserted(s, p),
        EventView::PositionUpdated { name, position } => with_position(s, name, position),
        EventView::SizeUpdated { name, width, height } => with_size(s, name, width, height),
        EventView::PlayerDeleted { name } => removed(s, name),
        EventView::PlayerMovedDown { name } => moved_down(s, name),
        EventView::PlayerMovedUp { name } => moved_up(s, name),
        EventView::FlipPlayerHorizontally { name, flipped } => with_flip(s, name, flipped),
    }
}

/// Applies an event received from the shared state to the local copy `players`.
pub fn handle_websocket_message(players: &mut Store, event: Event)
    requires
        old(players).wf(),
    ensures
        final(players).wf(),
        final(players)@ == applied(old(players)@, event@),
{
    match event {
        Event::Pong => {},
        Event::AllPlayers(list) => {
            let mut fresh = Store::new();
            let mut i: usize = 0;
            assert(listing_view(list@).subrange(0, list@.len() as int) =~= listing_view(list@));
            while i < list.len()
                invariant
                    fresh.wf(),
                    i <= list@.len(),
                    upsert_all(Seq::empty(), listing_view(list@)) == upsert_all(
                        fresh@,
                        listing_view(list@).subrange(i as int, list@.len() as int),
                    ),
                decreases list@.len() - i,
            {
                let ghost rest = listing_view(list@).subrange(i as int, list@.len() as int);
                assert(rest.drop_first() =~= listing_view(list@).subrange(i as int + 1, list@.len() as int));
                fresh.upsert(list[i].1.duplicate());
                i = i + 1;
            }
            assert(listing_view(list@).subrange(i as int, list@.len() as int) =~= Seq::empty());
            *players = fresh;
        },
        Event::NewPlayer(p) => players.upsert(p),
        Event::PositionUpdated { player_name, new_position } => {
            let _ = players.set_position(player_name.as_str(), new_position);
        },
        Event::SizeUpdated { player_name, new_width, new_height } => {
            let _ = players.set_size(player_name.as_str(), new_width, new_height);
        },
        Event::PlayerDeleted { player_name } => {
            let _ = players.remove(player_name.as_str());
        },
        Event::PlayerMovedDown { player_name } => {
            let _ = players.move_down(player_name.as_str());
        },
        Event::PlayerMovedUp { player_name } => {
            let _ = players.move_up(player_name.as_str());
        },
        Event::FlipPlayerHorizontally { player_name, is_flipped } => {
            let _ = players.flip_horizontal(player_name.as_str(), is_flipped);
        },
    }
}

/// A copy that equals the shared state before a command equals it after the
/// command once it applies the event the command published; a command that
/// publishes nothing leaves the shared state as it was.
pub proof fn law_mirror_follows(id: u32, authorized: bool, s: Seq<PlayerView>, m: MessageView)
    requires
        names_unique(s),
    ensures
        match step(id, authorized, s, m).1.publish {
            Some(p) => applied(s, p.1) == step(id, authorized, s, m).0,
            None => step(id, authorized, s, m).0 == s,
        },
{
    if authorized {
        if let MessageView::NewMedia { name, data, media_type, position, width, height } = m {
            if name.len() > 0 {
                let t = step(id, authorized, s, m).0;
                let p = t[t.len() - 1];
                lemma_canonical_name_is_new(names_of(s), name);
                assert forall|i: int| 0 <= i < s.len() implies #[trigger] s[i].name != p.name by {
                    assert(names_of(s)[i] == s[i].name);
                }
                lemma_index_of_absent(s, p.name);
                assert(upserted(s, p) =~= t);
            }
        }
    }
}

} // verus!
