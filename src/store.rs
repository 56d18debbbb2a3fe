//! The shared state: an insertion-ordered collection of uniquely named overlay
//! items. Order is stacking order: items later in the order are in front.

use crate::entries::{
    keys_unique, map_entries, map_index_of, map_insert, map_len, map_new, map_set_value_at,
    map_shift_remove, map_swap_indices, map_value_at,
};
use crate::model::{Position, PlayerView, ServerPlayer};
use crate::naming::{
    canonical_name, collides, is_first_free_suffix, lemma_canonical_name_is_new,
    lemma_first_free_suffix_unique, lemma_some_suffix_free, starts_with, suffixed,
    suffixed_name,
};
use indexmap::IndexMap;
use vstd::prelude::*;

verus! {

/// The names of the items, in order.
pub open spec fn names_of(s: Seq<PlayerView>) -> Seq<Seq<char>> {
    s.map_values(|p: PlayerView| p.name)
}

/// No two items share a name.
pub open spec fn names_unique(s: Seq<PlayerView>) -> bool {
    forall|i: int, j: int|
        0 <= i < s.len() && 0 <= j < s.len() && i != j ==> #[trigger] s[i].name != #[trigger] s[j].name
}

/// The position of the item called `name`, or -1 when there is none.
pub open spec fn index_of(s: Seq<PlayerView>, name: Seq<char>) -> int {
    if exists|i: int| 0 <= i < s.len() && #[trigger] s[i].name == name {
        choose|i: int| 0 <= i < s.len() && #[trigger] s[i].name == name
    } else {
        -1
    }
}

/// `s` with the items at `a` and `b` traded.
pub open spec fn swapped(s: Seq<PlayerView>, a: int, b: int) -> Seq<PlayerView> {
    s.update(a, s[b]).update(b, s[a])
}

/// The state after an insert of `item` under the requested name `desired`.
pub open spec fn inserted(s: Seq<PlayerView>, desired: Seq<char>, item: PlayerView) -> Seq<PlayerView> {
    s.push(PlayerView { name: canonical_name(names_of(s), desired), ..item })
}

/// The state after the item called `name` moves to `pos`.
pub open spec fn with_position(s: Seq<PlayerView>, name: Seq<char>, pos: Position) -> Seq<PlayerView> {
    let i = index_of(s, name);
    if i >= 0 {
        s.update(i, PlayerView { position: pos, ..s[i] })
    } else {
        s
    }
}

/// The state after the item called `name` is resized.
pub open spec fn with_size(s: Seq<PlayerView>, name: Seq<char>, width: i32, height: Option<i32>) -> Seq<
    PlayerView,
> {
    let i = index_of(s, name);
    if i >= 0 {
        s.update(i, PlayerView { width: width, height: height, ..s[i] })
    } else {
        s
    }
}

/// The state after the item called `name` gets the horizontal flip `flipped`.
pub open spec fn with_flip(s: Seq<PlayerView>, name: Seq<char>, flipped: bool) -> Seq<PlayerView> {
    let i = index_of(s, name);
    if i >= 0 {
        s.update(i, PlayerView { horizontal_flip: flipped, ..s[i] })
    } else {
        s
    }
}

/// The state after the item called `name` is removed; the others keep their order.
pub open spec fn removed(s: Seq<PlayerView>, name: Seq<char>) -> Seq<PlayerView> {
    let i = index_of(s, name);
    if i >= 0 {
        s.remove(i)
    } else {
        s
    }
}

/// The state after the item called `name` trades places with the one before it.
pub open spec fn moved_up(s: Seq<PlayerView>, name: Seq<char>) -> Seq<PlayerView> {
    let i = index_of(s, name);
    if i > 0 {
        swapped(s, i - 1, i)
    } else {
        s
    }
}

/// The state after the item called `name` trades places with the one after it.
pub open spec fn moved_down(s: Seq<PlayerView>, name: Seq<char>) -> Seq<PlayerView> {
    let i = index_of(s, name);
    if 0 <= i && i + 1 < s.len() {
        swapped(s, i, i + 1)
    } else {
        s
    }
}

/// The state after `p` is stored under its own name: in place of the item of
/// that name if there is one, else last.
pub open spec fn upserted(s: Seq<PlayerView>, p: PlayerView) -> Seq<PlayerView> {
    let i = index_of(s, p.name);
    if i >= 0 {
        s.update(i, p)
    } else {
        s.push(p)
    }
}

/// The views of the values of an item map.
pub open spec fn values_view(e: Seq<(String, ServerPlayer)>) -> Seq<PlayerView> {
    e.map_values(|p: (String, ServerPlayer)| p.1@)
}

/// The names and values of an ordered list of items.
pub open spec fn listing_view(v: Seq<(String, ServerPlayer)>) -> Seq<(Seq<char>, PlayerView)> {
    v.map_values(|p: (String, ServerPlayer)| (p.0@, p.1@))
}

/// The names and values of the items of `s`.
pub open spec fn snapshot_of(s: Seq<PlayerView>) -> Seq<(Seq<char>, PlayerView)> {
    s.map_values(|p: PlayerView| (p.name, p))
}

/// Under unique names, `i` is where the item called `s[i].name` stands.
pub proof fn lemma_index_of(s: Seq<PlayerView>, i: int)
    requires
        names_unique(s),
        0 <= i < s.len(),
    ensures
        index_of(s, s[i].name) == i,
{
    assert(s[i].name == s[i].name);
    let j = index_of(s, s[i].name);
    assert(0 <= j < s.len() && s[j].name == s[i].name);
}

/// Under unique names, an item called `name` stands at `index_of(s, name)`, and only there.
pub proof fn lemma_index_of_absent(s: Seq<PlayerView>, name: Seq<char>)
    requires
        forall|i: int| 0 <= i < s.len() ==> #[trigger] s[i].name != name,
    ensures
        index_of(s, name) == -1,
{
}

/// The state after each request `(desired name, item)` of `requests` is inserted in turn.
pub open spec fn insert_all(s: Seq<PlayerView>, requests: Seq<(Seq<char>, PlayerView)>) -> Seq<PlayerView>
    decreases requests.len(),
{
    if requests.len() == 0 {
        s
    } else {
        insert_all(inserted(s, requests[0].0, requests[0].1), requests.drop_first())
    }
}

/// An insert keeps names unique: the canonical name is new.
pub proof fn lemma_insert_keeps_names_unique(s: Seq<PlayerView>, desired: Seq<char>, item: PlayerView)
    requires
        names_unique(s),
    ensures
        names_unique(inserted(s, desired, item)),
{
    let name = canonical_name(names_of(s), desired);
    lemma_canonical_name_is_new(names_of(s), desired);
    let t = inserted(s, desired, item);
    assert forall|i: int, j: int| 0 <= i < t.len() && 0 <= j < t.len() && i != j implies #[trigger] t[i].name
        != #[trigger] t[j].name by {
        if i == s.len() {
            assert(names_of(s)[j] == s[j].name);
        } else if j == s.len() {
            assert(names_of(s)[i] == s[i].name);
        }
    }
}

/// However the requested names of a run of inserts collide, every name in the
/// resulting state is unique.
pub proof fn law_inserts_keep_names_unique(s: Seq<PlayerView>, requests: Seq<(Seq<char>, PlayerView)>)
    requires
        names_unique(s),
    ensures
        names_unique(insert_all(s, requests)),
    decreases requests.len(),
{
    if requests.len() > 0 {
        lemma_insert_keeps_names_unique(s, requests[0].0, requests[0].1);
        law_inserts_keep_names_unique(inserted(s, requests[0].0, requests[0].1), requests.drop_first());
    }
}

/// After a removal no item has the removed name, and the remaining items are
/// the others in their old order.
pub proof fn law_remove_keeps_order(s: Seq<PlayerView>, name: Seq<char>)
    requires
        names_unique(s),
    ensures
        !names_of(removed(s, name)).contains(name),
        removed(s, name) == s.filter(|p: PlayerView| p.name != name),
{
    let i = index_of(s, name);
    let keep = |p: PlayerView| p.name != name;
    let r = removed(s, name);
    if i >= 0 {
        assert(s[i].name == name);
        assert forall|j: int| 0 <= j < s.len() && j != i implies #[trigger] s[j].name != name by {}
        lemma_filter_skips(s, i, name);
    } else {
        assert forall|j: int| 0 <= j < s.len() implies #[trigger] s[j].name != name by {
            if s[j].name == name {
                assert(exists|k: int| 0 <= k < s.len() && #[trigger] s[k].name == name);
            }
        }
        lemma_filter_keeps_all(s, name);
    }
    if names_of(r).contains(name) {
        let k = choose|k: int| 0 <= k < names_of(r).len() && names_of(r)[k] == name;
        s.lemma_filter_pred(keep, k);
    }
}

proof fn lemma_filter_keeps_all(s: Seq<PlayerView>, name: Seq<char>)
    requires
        forall|j: int| 0 <= j < s.len() ==> #[trigger] s[j].name != name,
    ensures
        s.filter(|p: PlayerView| p.name != name) == s,
    decreases s.len(),
{
    let keep = |p: PlayerView| p.name != name;
    reveal(Seq::filter);
    if s.len() > 0 {
        lemma_filter_keeps_all(s.drop_last(), name);
        assert(s.drop_last().push(s.last()) =~= s);
        assert(s.filter(keep) == s.drop_last().filter(keep).push(s.last()));
    } else {
        assert(s.filter(keep) =~= s);
    }
}

proof fn lemma_filter_skips(s: Seq<PlayerView>, i: int, name: Seq<char>)
    requires
        0 <= i < s.len(),
        s[i].name == name,
        forall|j: int| 0 <= j < s.len() && j != i ==> #[trigger] s[j].name != name,
    ensures
        s.filter(|p: PlayerView| p.name != name) == s.remove(i),
    decreases s.len(),
{
    let keep = |p: PlayerView| p.name != name;
    reveal(Seq::filter);
    assert(s.drop_last().push(s.last()) =~= s);
    if i == s.len() - 1 {
        lemma_filter_keeps_all(s.drop_last(), name);
        assert(s.filter(keep) == s.drop_last().filter(keep));
        assert(s.remove(i) =~= s.drop_last());
    } else {
        lemma_filter_skips(s.drop_last(), i, name);
        assert(s.filter(keep) == s.drop_last().filter(keep).push(s.last()));
        assert(s.remove(i) =~= s.drop_last().remove(i).push(s.last()));
    }
}

/// Moving the first item up, or the last item down, changes nothing.
pub proof fn law_moves_at_the_ends_change_nothing(s: Seq<PlayerView>)
    requires
        names_unique(s),
        s.len() > 0,
    ensures
        moved_up(s, s[0].name) == s,
        moved_down(s, s[s.len() - 1].name) == s,
{
    lemma_index_of(s, 0);
    lemma_index_of(s, s.len() - 1);
}

/// Moving the item at `i` down and then moving it up again restores the order.
pub proof fn law_move_down_then_up_restores(s: Seq<PlayerView>, i: int)
    requires
        names_unique(s),
        0 <= i,
        i + 1 < s.len(),
    ensures
        moved_up(moved_down(s, s[i].name), s[i].name) == s,
{
    let name = s[i].name;
    lemma_index_of(s, i);
    let t = moved_down(s, name);
    assert(t == swapped(s, i, i + 1));
    assert(t[i + 1] == s[i]);
    assert(names_unique(t)) by {
        assert forall|a: int, b: int| 0 <= a < t.len() && 0 <= b < t.len() && a != b implies #[trigger] t[a].name
            != #[trigger] t[b].name by {
            let a0 = if a == i { i + 1 } else if a == i + 1 { i } else { a };
            let b0 = if b == i { i + 1 } else if b == i + 1 { i } else { b };
            assert(t[a] == s[a0]);
            assert(t[b] == s[b0]);
        }
    }
    lemma_index_of(t, i + 1);
    assert(moved_up(t, name) =~= s);
}

/// The ordered collection of overlay items.
pub struct Store {
    players: IndexMap<String, ServerPlayer>,
}

impl View for Store {
    type V = Seq<PlayerView>;

    closed spec fn view(&self) -> Seq<PlayerView> {
        values_view(map_entries(self.players))
    }
}

impl Store {
    /// Every item is keyed by its own name, and keys are unique.
    pub closed spec fn wf(&self) -> bool {
        let e = map_entries(self.players);
        &&& keys_unique(e)
        &&& forall|i: int| 0 <= i < e.len() ==> #[trigger] e[i].0@ == e[i].1.name@
    }

    /// In a well-formed store no two items share a name.
    pub proof fn lemma_names_unique(&self)
        requires
            self.wf(),
        ensures
            names_unique(self@),
    {
        let e = map_entries(self.players);
        assert forall|i: int, j: int|
            0 <= i < self@.len() && 0 <= j < self@.len() && i != j implies #[trigger] self@[i].name
            != #[trigger] self@[j].name by {
            assert(e[i].0@ != e[j].0@);
        }
    }

    /// An empty store.
    pub fn new() -> (r: Self)
        ensures
            r.wf(),
            r@ == Seq::<PlayerView>::empty(),
    {
        let r = Store { players: map_new() };
        assert(r@ =~= Seq::<PlayerView>::empty());
        r
    }

    /// The number of items.
    pub fn len(&self) -> (r: usize)
        ensures
            r == self@.len(),
    {
        map_len(&self.players)
    }

    /// Every item with its name, in stacking order.
    pub fn snapshot(&self) -> (r: Vec<(String, ServerPlayer)>)
        requires
            self.wf(),
        ensures
            listing_view(r@) == snapshot_of(self@),
    {
        let n = map_len(&self.players);
        let mut out: Vec<(String, ServerPlayer)> = Vec::new();
        let mut i: usize = 0;
        while i < n
            invariant
                self.wf(),
                n == self@.len(),
                i <= n,
                out@.len() == i,
                listing_view(out@) =~= snapshot_of(self@.subrange(0, i as int)),
            decreases n - i,
        {
            let p = map_value_at(&self.players, i);
            let ghost before = out@;
            out.push((p.name.clone(), p.duplicate()));
            proof {
                assert(out@ == before.push(out@[i as int]));
                assert(listing_view(out@) =~= listing_view(before).push((p@.name, p@)));
                assert(self@[i as int] == p@);
                assert(self@.subrange(0, i as int + 1) =~= self@.subrange(0, i as int).push(self@[i as int]));
            }
            i = i + 1;
        }
        proof {
            assert(self@.subrange(0, n as int) =~= self@);
        }
        out
    }

    /// Whether an item is called `name`, and where it stands.
    fn find(&self, name: &str) -> (r: Option<usize>)
        requires
            self.wf(),
        ensures
            names_unique(self@),
            match r {
                Some(i) => i < self@.len() && index_of(self@, name@) == i && self@[i as int].name == name@,
                None => index_of(self@, name@) == -1,
            },
    {
        proof {
            self.lemma_names_unique();
        }
        let r = map_index_of(&self.players, name);
        proof {
            let e = map_entries(self.players);
            match r {
                Some(i) => {
                    assert(self@[i as int].name == e[i as int].1.name@);
                    lemma_index_of(self@, i as int);
                },
                None => {
                    assert forall|i: int| 0 <= i < self@.len() implies #[trigger] self@[i].name != name@ by {
                        assert(e[i].0@ == e[i].1.name@);
                    }
                },
            }
        }
        r
    }

    /// Whether some item's name begins with `base`.
    fn any_name_starts_with(&self, base: &str) -> (r: bool)
        requires
            self.wf(),
        ensures
            r == collides(names_of(self@), base@),
    {
        let n = map_len(&self.players);
        let mut i: usize = 0;
        while i < n
            invariant
                self.wf(),
                n == self@.len(),
                i <= n,
                forall|j: int| 0 <= j < i ==> !base@.is_prefix_of(#[trigger] names_of(self@)[j]),
            decreases n - i,
        {
            let p = map_value_at(&self.players, i);
            if starts_with(p.name.as_str(), base) {
                assert(base@.is_prefix_of(names_of(self@)[i as int]));
                return true;
            }
            i = i + 1;
        }
        false
    }

    /// Adds `item` last (in front of all others) under the canonical name for
    /// `desired_name`, and returns that name: `desired_name` itself when no
    /// existing name begins with it, else `desired_name-k` for the smallest
    /// `k` from 2 on whose name is free.
    pub fn insert(&mut self, desired_name: String, item: ServerPlayer) -> (r: String)
        requires
            old(self).wf(),
        ensures
            final(self).wf(),
            r@ == canonical_name(names_of(old(self)@), desired_name@),
            !names_of(old(self)@).contains(r@),
            final(self)@ == inserted(old(self)@, desired_name@, item@),
    {
        let ghost names = names_of(self@);
        let ghost base = desired_name@;
        let name = if !self.any_name_starts_with(desired_name.as_str()) {
            desired_name
        } else {
            let n = map_len(&self.players);
            let mut k: u128 = 2;
            let mut cand = suffixed(desired_name.as_str(), k);
            let mut found = self.find(cand.as_str());
            proof {
                if let Some(i) = found {
                    assert(names[i as int] == cand@);
                }
            }
            while found.is_some()
                invariant
                    self.wf(),
                    names == names_of(self@),
                    base == desired_name@,
                    n == names.len(),
                    2 <= k <= n + 2,
                    cand@ == suffixed_name(base, k as nat),
                    found.is_some() ==> names.contains(cand@),
                    found.is_none() ==> index_of(self@, cand@) == -1,
                    forall|j: nat| 2 <= j < k ==> names.contains(#[trigger] suffixed_name(base, j)),
                decreases n + 2 - k,
            {
                proof {
                    if k == n + 2 {
                        lemma_some_suffix_free(names, base);
                        let j = choose|j: nat|
                            2 <= j <= names.len() + 2 && !names.contains(#[trigger] suffixed_name(base, j));
                        if j < k {
                            assert(names.contains(suffixed_name(base, j)));
                        }
                    }
                }
                k = k + 1;
                cand = suffixed(desired_name.as_str(), k);
                found = self.find(cand.as_str());
                proof {
                    if let Some(i) = found {
                        assert(names[i as int] == cand@);
                    }
                }
            }
            proof {
                if names.contains(cand@) {
                    let i = choose|i: int| 0 <= i < names.len() && names[i] == cand@;
                    assert(self@[i].name == cand@);
                }
                assert(is_first_free_suffix(names, base, k as nat));
                lemma_first_free_suffix_unique(names, base, k as nat);
            }
            cand
        };
        proof {
            lemma_canonical_name_is_new(names, base);
        }
        assert(name@ == canonical_name(names, base));
        let mut item = item;
        let ghost item_view = item@;
        item.name = name.clone();
        let ghost e0 = map_entries(self.players);
        proof {
            assert forall|i: int| 0 <= i < e0.len() implies #[trigger] e0[i].0@ != name@ by {
                assert(e0[i].0@ == names[i]);
            }
        }
        let _ = map_insert(&mut self.players, name.clone(), item);
        proof {
            let e = map_entries(self.players);
            assert(e == e0.push((name, item)));
            assert(self@ =~= inserted(old(self)@, base, item_view));
        }
        name
    }

    /// Moves the item called `name` to `pos` and returns it as it now is;
    /// `None`, with nothing changed, when no item has that name.
    pub fn set_position(&mut self, name: &str, pos: Position) -> (r: Option<ServerPlayer>)
        requires
            old(self).wf(),
        ensures
            final(self).wf(),
            final(self)@ == with_position(old(self)@, name@, pos),
            match r {
                Some(p) => index_of(old(self)@, name@) >= 0 && p@ == final(self)@[index_of(
                    old(self)@,
                    name@,
                )],
                None => index_of(old(self)@, name@) == -1,
            },
    {
        match self.find(name) {
            None => None,
            Some(i) => {
                let mut p = map_value_at(&self.players, i).duplicate();
                p.position = pos;
                let ghost e0 = map_entries(self.players);
                map_set_value_at(&mut self.players, i, p.duplicate());
                proof {
                    let e = map_entries(self.players);
                    assert(self@ =~= with_position(old(self)@, name@, pos));
                    assert(forall|j: int| 0 <= j < e.len() ==> #[trigger] e[j].0 == e0[j].0);
                }
                Some(p)
            },
        }
    }

    /// Sets the width and height of the item called `name` and returns it as it
    /// now is; `None`, with nothing changed, when no item has that name.
    pub fn set_size(&mut self, name: &str, width: i32, height: Option<i32>) -> (r: Option<ServerPlayer>)
        requires
            old(self).wf(),
        ensures
            final(self).wf(),
            final(self)@ == with_size(old(self)@, name@, width, height),
            match r {
                Some(p) => index_of(old(self)@, name@) >= 0 && p@ == final(self)@[index_of(
                    old(self)@,
                    name@,
                )],
                None => index_of(old(self)@, name@) == -1,
            },
    {
        match self.find(name) {
            None => None,
            Some(i) => {
                let mut p = map_value_at(&self.players, i).duplicate();
                p.width = width;
                p.height = height;
                let ghost e0 = map_entries(self.players);
                map_set_value_at(&mut self.players, i, p.duplicate());
                proof {
                    let e = map_entries(self.players);
                    assert(self@ =~= with_size(old(self)@, name@, width, height));
                    assert(forall|j: int| 0 <= j < e.len() ==> #[trigger] e[j].0 == e0[j].0);
                }
                Some(p)
            },
        }
    }

    /// Sets whether the item called `name` is mirrored horizontally and returns
    /// it as it now is; `None`, with nothing changed, when no item has that name.
    pub fn flip_horizontal(&mut self, name: &str, flipped: bool) -> (r: Option<ServerPlayer>)
        requires
            old(self).wf(),
        ensures
            final(self).wf(),
            final(self)@ == with_flip(old(self)@, name@, flipped),
            match r {
                Some(p) => index_of(old(self)@, name@) >= 0 && p@ == final(self)@[index_of(
                    old(self)@,
                    name@,
                )],
                None => index_of(old(self)@, name@) == -1,
            },
    {
        match self.find(name) {
            None => None,
            Some(i) => {
                let mut p = map_value_at(&self.players, i).duplicate();
                p.horizontal_flip = flipped;
                let ghost e0 = map_entries(self.players);
                map_set_value_at(&mut self.players, i, p.duplicate());
                proof {
                    let e = map_entries(self.players);
                    assert(self@ =~= with_flip(old(self)@, name@, flipped));
                    assert(forall|j: int| 0 <= j < e.len() ==> #[trigger] e[j].0 == e0[j].0);
                }
                Some(p)
            },
        }
    }

    /// Removes the item called `name` and returns it; the other items keep their
    /// order. `None`, with nothing changed, when no item has that name.
    pub fn remove(&mut self, name: &str) -> (r: Option<ServerPlayer>)
        requires
            old(self).wf(),
        ensures
            final(self).wf(),
            final(self)@ == removed(old(self)@, name@),
            match r {
                Some(p) => index_of(old(self)@, name@) >= 0 && p@ == old(self)@[index_of(
                    old(self)@,
                    name@,
                )],
                None => index_of(old(self)@, name@) == -1,
            },
    {
        let found = self.find(name);
        let ghost e0 = map_entries(self.players);
        proof {
            if let Some(i) = found {
                assert(e0[i as int].0@ == name@);
            } else {
                assert forall|j: int| 0 <= j < e0.len() implies #[trigger] e0[j].0@ != name@ by {
                    assert(e0[j].0@ == self@[j].name);
                }
            }
        }
        let r = map_shift_remove(&mut self.players, name);
        proof {
            let e = map_entries(self.players);
            if let Some(i) = found {
                assert(e == e0.remove(i as int));
                assert(self@ =~= removed(old(self)@, name@));
                assert forall|a: int, b: int|
                    0 <= a < e.len() && 0 <= b < e.len() && a != b implies #[trigger] e[a].0@
                    != #[trigger] e[b].0@ by {
                    let a0 = if a < i { a } else { a + 1 };
                    let b0 = if b < i { b } else { b + 1 };
                    assert(e[a] == e0[a0]);
                    assert(e[b] == e0[b0]);
                }
                assert forall|a: int| 0 <= a < e.len() implies #[trigger] e[a].0@ == e[a].1.name@ by {
                    let a0 = if a < i { a } else { a + 1 };
                    assert(e[a] == e0[a0]);
                }
            }
        }
        r
    }

    /// Trades the places of the items at `a` and `b`.
    fn swap_positions(&mut self, a: usize, b: usize)
        requires
            old(self).wf(),
            a < old(self)@.len(),
            b < old(self)@.len(),
        ensures
            final(self).wf(),
            final(self)@ == swapped(old(self)@, a as int, b as int),
    {
        let ghost e0 = map_entries(self.players);
        map_swap_indices(&mut self.players, a, b);
        proof {
            let e = map_entries(self.players);
            assert(self@ =~= swapped(old(self)@, a as int, b as int));
            assert forall|x: int, y: int|
                0 <= x < e.len() && 0 <= y < e.len() && x != y implies #[trigger] e[x].0@
                != #[trigger] e[y].0@ by {
                let x0 = if x == a { b as int } else if x == b { a as int } else { x };
                let y0 = if y == a { b as int } else if y == b { a as int } else { y };
                assert(e[x] == e0[x0]);
                assert(e[y] == e0[y0]);
            }
            assert forall|x: int| 0 <= x < e.len() implies #[trigger] e[x].0@ == e[x].1.name@ by {
                let x0 = if x == a { b as int } else if x == b { a as int } else { x };
                assert(e[x] == e0[x0]);
            }
        }
    }

    /// Moves the item called `name` one place back, trading places with the item
    /// before it, and returns its new position. `None`, with nothing changed,
    /// when it is already first or no item has that name.
    pub fn move_up(&mut self, name: &str) -> (r: Option<usize>)
        requires
            old(self).wf(),
        ensures
            final(self).wf(),
            final(self)@ == moved_up(old(self)@, name@),
            match r {
                Some(i) => i + 1 == index_of(old(self)@, name@),
                None => index_of(old(self)@, name@) <= 0,
            },
    {
        match self.find(name) {
            Some(i) => {
                if i > 0 {
                    self.swap_positions(i - 1, i);
                    Some(i - 1)
                } else {
                    None
                }
            },
            None => None,
        }
    }

    /// Moves the item called `name` one place forward, trading places with the
    /// item after it, and returns its new position. `None`, with nothing
    /// changed, when it is already last or no item has that name.
    pub fn move_down(&mut self, name: &str) -> (r: Option<usize>)
        requires
            old(self).wf(),
        ensures
            final(self).wf(),
            final(self)@ == moved_down(old(self)@, name@),
            match r {
                Some(i) => index_of(old(self)@, name@) >= 0 && i == index_of(old(self)@, name@) + 1
                    && i < old(self)@.len(),
                None => index_of(old(self)@, name@) == -1 || index_of(old(self)@, name@) + 1
                    == old(self)@.len(),
            },
    {
        match self.find(name) {
            Some(i) => {
                if i < map_len(&self.players) - 1 {
                    self.swap_positions(i, i + 1);
                    Some(i + 1)
                } else {
                    None
                }
            },
            None => None,
        }
    }

    /// Stores `item` under its own name: in place of the item of that name if
    /// there is one, else last.
    pub fn upsert(&mut self, item: ServerPlayer)
        requires
            old(self).wf(),
        ensures
            final(self).wf(),
            final(self)@ == upserted(old(self)@, item@),
    {
        let found = self.find(item.name.as_str());
        let ghost e0 = map_entries(self.players);
        let ghost iv = item@;
        proof {
            assert forall|j: int| 0 <= j < e0.len() implies #[trigger] e0[j].0@ == self@[j].name by {}
        }
        let key = item.name.clone();
        let _ = map_insert(&mut self.players, key, item);
        proof {
            let e = map_entries(self.players);
            match found {
                Some(i) => {
                    assert(e0[i as int].0@ == iv.name);
                    assert(e == e0.update(i as int, (e0[i as int].0, e[i as int].1)));
                    assert(self@ =~= upserted(old(self)@, iv));
                    assert forall|a: int, b: int|
                        0 <= a < e.len() && 0 <= b < e.len() && a != b implies #[trigger] e[a].0@
                        != #[trigger] e[b].0@ by {
                        assert(e[a].0 == e0[a].0);
                        assert(e[b].0 == e0[b].0);
                    }
                },
                None => {
                    assert(self@ =~= upserted(old(self)@, iv));
                },
            }
        }
    }
}

} // verus!
