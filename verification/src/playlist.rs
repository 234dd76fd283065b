//! The playlist: the songs under the music folder, kept sorted by path, and
//! the policy deciding which song follows when one ends.
//!
//! Walking the music folder is I/O the embedding application performs; it
//! hands the relative paths in, and the filtering and ordering rules live
//! here.

use crate::config::{after_last_slash, ext_of};
use crate::strutil::{lemma_lex_le_total, lemma_lex_le_trans, lex_le, str_le};
use vstd::prelude::*;
use vstd::seq_lib::*;

verus! {

/// One playlist entry: a path relative to the music folder.
pub struct Item {
    pub path: String,
}

impl Item {
    pub fn new(path: String) -> (r: Self)
        ensures
            r.path@ == path@,
    {
        Item { path }
    }
}

/// The path views of a sequence of items.
pub open spec fn item_paths(items: Seq<Item>) -> Seq<Seq<char>> {
    items.map(|k: int, it: Item| it.path@)
}

/// Sorted by path, lexicographically.
pub open spec fn items_sorted(items: Seq<Item>) -> bool {
    forall|i: int, j: int|
        0 <= i < j < items.len() ==> lex_le(
            (#[trigger] items[i]).path@,
            (#[trigger] items[j]).path@,
        )
}

/// A path whose extension marks it as no song: cover art and notes are
/// skipped when the music folder is read.
pub open spec fn excluded_path(p: Seq<char>) -> bool {
    match ext_of(after_last_slash(p)) {
        Some(e) => e == "jpg"@ || e == "png"@ || e == "txt"@,
        None => false,
    }
}

/// The paths that stay: those not excluded, in input order.
pub open spec fn kept_paths(ps: Seq<Seq<char>>) -> Seq<Seq<char>> {
    ps.filter(|p: Seq<char>| !excluded_path(p))
}

/// Filtering one more path keeps it exactly when it is not excluded.
proof fn lemma_kept_push(ps: Seq<Seq<char>>, x: Seq<char>)
    ensures
        kept_paths(ps.push(x)) == if !excluded_path(x) {
            kept_paths(ps).push(x)
        } else {
            kept_paths(ps)
        },
{
    reveal(Seq::filter);
    assert(ps.push(x).drop_last() =~= ps);
    assert(ps.push(x).last() == x);
}

pub struct Playlist {
    pub items: Vec<Item>,
}

impl Default for Playlist {
    fn default() -> (r: Self)
        ensures
            r.items@.len() == 0,
    {
        Playlist { items: Vec::new() }
    }
}

impl Playlist {
    /// Replace the playlist with the given relative paths, skipping the
    /// excluded extensions and sorting by path. The result holds exactly the
    /// kept paths (with multiplicity), in sorted order.
    pub fn read_songs(&mut self, paths: Vec<String>)
        ensures
            items_sorted(final(self).items@),
            item_paths(final(self).items@).to_multiset() == kept_paths(
                crate::mpv_handler::views_of(paths@),
            ).to_multiset(),
    {
        self.items.clear();
        let ghost views = crate::mpv_handler::views_of(paths@);
        let mut i: usize = 0;
        proof {
            assert(views.take(0) =~= Seq::<Seq<char>>::empty());
            assert(kept_paths(views.take(0)) =~= Seq::<Seq<char>>::empty());
            assert(item_paths(self.items@) =~= Seq::<Seq<char>>::empty());
        }
        while i < paths.len()
            invariant
                i <= paths@.len(),
                views == crate::mpv_handler::views_of(paths@),
                item_paths(self.items@) =~= kept_paths(views.take(i as int)),
            decreases paths@.len() - i,
        {
            let ghost prev = self.items@;
            let p = &paths[i];
            proof {
                assert(views[i as int] == paths@[i as int]@);
                assert(views.take(i + 1) =~= views.take(i as int).push(views[i as int]));
                lemma_kept_push(views.take(i as int), views[i as int]);
            }
            let is_jpg = crate::config::Predicate::matches_ext("jpg", p.as_str());
            let is_png = crate::config::Predicate::matches_ext("png", p.as_str());
            let is_txt = crate::config::Predicate::matches_ext("txt", p.as_str());
            if !(is_jpg || is_png || is_txt) {
                self.items.push(Item::new(p.clone()));
                proof {
                    assert forall|k: int|
                        0 <= k < self.items@.len() implies item_paths(self.items@)[k]
                        == self.items@[k].path@ by {}
                    assert forall|k: int|
                        0 <= k < prev.len() implies item_paths(prev)[k] == prev[k].path@ by {}
                    assert(item_paths(self.items@) =~= item_paths(prev).push(views[i as int]));
                }
            }
            proof {
                assert(item_paths(self.items@) =~= kept_paths(views.take(i + 1)));
            }
            i = i + 1;
        }
        proof {
            assert(views.take(views.len() as int) =~= views);
        }
        self.sort();
    }

    /// Sort the playlist by path: afterwards the items are in lexicographic
    /// order and are exactly the items there before, with multiplicity.
    pub fn sort(&mut self)
        ensures
            items_sorted(final(self).items@),
            item_paths(final(self).items@).to_multiset() == item_paths(
                old(self).items@,
            ).to_multiset(),
    {
        broadcast use vstd::seq_lib::group_to_multiset_ensures;

        let ghost orig = self.items@;
        let mut i: usize = 1;
        if self.items.len() <= 1 {
            proof {
                assert(item_paths(self.items@) =~= item_paths(orig));
            }
            return ;
        }
        while i < self.items.len()
            invariant
                1 <= i <= self.items@.len(),
                items_sorted(self.items@.take(i as int)),
                item_paths(self.items@).to_multiset() == item_paths(orig).to_multiset(),
            decreases self.items@.len() - i,
        {
            // Find where the element at `i` belongs among the sorted prefix.
            let mut pos: usize = 0;
            while pos < i
                invariant_except_break
                    pos <= i < self.items@.len(),
                    forall|k: int|
                        0 <= k < pos ==> lex_le(
                            (#[trigger] self.items@[k]).path@,
                            self.items@[i as int].path@,
                        ),
                ensures
                    pos <= i < self.items@.len(),
                    forall|k: int|
                        0 <= k < pos ==> lex_le(
                            (#[trigger] self.items@[k]).path@,
                            self.items@[i as int].path@,
                        ),
                    pos < i ==> !lex_le(
                        self.items@[pos as int].path@,
                        self.items@[i as int].path@,
                    ),
                decreases i - pos,
            {
                if !str_le(self.items[pos].path.as_str(), self.items[i].path.as_str()) {
                    break ;
                }
                pos = pos + 1;
            }
            let ghost before = self.items@;
            let moved = self.items.remove(i);
            self.items.insert(pos, moved);
            proof {
                broadcast use vstd::seq_lib::group_to_multiset_ensures;

                let after = self.items@;
                let key = before[i as int].path@;
                assert(after == before.remove(i as int).insert(pos as int, before[i as int]));
                // Multiset preservation: the paths after are the paths before
                // with one removed and reinserted.
                assert forall|k: int|
                    0 <= k < after.len() implies item_paths(after)[k] == after[k].path@ by {}
                assert forall|k: int|
                    0 <= k < before.len() implies item_paths(before)[k] == before[k].path@ by {}
                assert(item_paths(before).len() == before.len());
                assert(item_paths(after) =~= item_paths(before).remove(i as int).insert(
                    pos as int,
                    key,
                ));
                assert(item_paths(before).remove(i as int).to_multiset() =~= item_paths(
                    before,
                ).to_multiset().remove(key));
                assert(item_paths(after).to_multiset() =~= item_paths(before).remove(
                    i as int,
                ).to_multiset().insert(key));
                assert(item_paths(before)[i as int] == key);
                assert(item_paths(before).contains(key));
                assert(item_paths(before).to_multiset().contains(key));
                assert(item_paths(after).to_multiset() =~= item_paths(before).to_multiset());
                // Sortedness of the grown prefix.
                if pos < i {
                    lemma_lex_le_total(
                        before[pos as int].path@,
                        key,
                    );
                }
                assert forall|a: int, b: int|
                    0 <= a < b < i + 1 implies lex_le(
                    (#[trigger] after[a]).path@,
                    (#[trigger] after[b]).path@,
                ) by {
                    if a < pos {
                        assert(after[a] == before[a]);
                    } else if a == pos {
                        assert(after[a] == before[i as int]);
                    } else {
                        assert(after[a] == before[a - 1]);
                    }
                    if b < pos {
                        assert(after[b] == before[b]);
                    } else if b == pos {
                        assert(after[b] == before[i as int]);
                    } else {
                        assert(after[b] == before[b - 1]);
                    }
                    if b == pos {
                        // a < pos: the scan said everything before pos is at
                        // most the key.
                    } else if a == pos {
                        // key <= items[pos ..]: the scan stopped there, and
                        // the prefix was sorted.
                        if pos < i {
                            if b - 1 > pos {
                                assert(before.take(i as int)[pos as int] == before[pos as int]);
                                assert(before.take(i as int)[b - 1] == before[b - 1]);
                                assert(lex_le(before[pos as int].path@, before[b - 1].path@));
                                lemma_lex_le_trans(
                                    key,
                                    before[pos as int].path@,
                                    before[b - 1].path@,
                                );
                            }
                        }
                    } else if a < pos && b > pos {
                        // both from the old sorted prefix
                    }
                }
                assert(items_sorted(after.take(i + 1)));
            }
            i = i + 1;
        }
        proof {
            assert(self.items@.take(self.items@.len() as int) =~= self.items@);
        }
    }

    /// The item at an index.
    pub fn get(&self, idx: usize) -> (r: Option<&Item>)
        ensures
            idx < self.items@.len() ==> r == Some(&self.items@[idx as int]),
            idx >= self.items@.len() ==> r is None,
    {
        if idx < self.items.len() {
            Some(&self.items[idx])
        } else {
            None
        }
    }

    /// How many songs the playlist holds.
    pub fn len(&self) -> (r: usize)
        ensures
            r == self.items@.len(),
    {
        self.items.len()
    }

    /// The items, in playlist order.
    pub fn iter(&self) -> (r: &Vec<Item>)
        ensures
            r@ == self.items@,
    {
        &self.items
    }
}

/// The selection index one step forward, wrapping to the first song past the
/// end.
pub fn next_index(selected: usize, len: usize) -> (r: usize)
    requires
        len > 0,
    ensures
        r == if selected + 1 < len {
            (selected + 1) as usize
        } else {
            0usize
        },
{
    if selected < len - 1 {
        selected + 1
    } else {
        0
    }
}

/// The selection index one step back, wrapping to the last song before the
/// beginning.
pub fn prev_index(selected: usize, len: usize) -> (r: usize)
    requires
        len > 0,
    ensures
        r == if selected == 0 {
            (len - 1) as usize
        } else {
            (selected - 1) as usize
        },
{
    if selected == 0 {
        len - 1
    } else {
        selected - 1
    }
}

/// What the player should do when the current song ends.
#[derive(Clone, Copy, PartialEq, Eq, Debug, Structural)]
pub enum PlaylistBehavior {
    Stop,
    Continue,
    RepeatOne,
    RepeatPlaylist,
}

impl PlaylistBehavior {
    /// The label shown for the behavior.
    pub fn label(&self) -> (r: &'static str)
        ensures
            ({
                match self {
                    PlaylistBehavior::Stop => r@ == "Stop"@,
                    PlaylistBehavior::Continue => r@ == "Continue"@,
                    PlaylistBehavior::RepeatOne => r@ == "Repeat one"@,
                    PlaylistBehavior::RepeatPlaylist => r@ == "Repeat playlist"@,
                }
            }),
    {
        match self {
            PlaylistBehavior::Stop => "Stop",
            PlaylistBehavior::Continue => "Continue",
            PlaylistBehavior::RepeatOne => "Repeat one",
            PlaylistBehavior::RepeatPlaylist => "Repeat playlist",
        }
    }

    /// The song to play after the current one ended on its own: `None` to
    /// stay stopped, otherwise the next selection index.
    pub fn next_song_index(&self, selected: usize, len: usize) -> (r: Option<usize>)
        requires
            selected < len || len == 0,
        ensures
            self is Stop ==> r is None,
            self is Continue ==> r == if selected + 1 < len {
                Some((selected + 1) as usize)
            } else {
                None::<usize>
            },
            self is RepeatOne ==> r == Some(selected),
            self is RepeatPlaylist ==> r == if selected + 1 < len {
                Some((selected + 1) as usize)
            } else {
                Some(0usize)
            },
    {
        match self {
            PlaylistBehavior::Stop => None,
            PlaylistBehavior::Continue => {
                if len > 0 && selected < len - 1 {
                    Some(selected + 1)
                } else {
                    None
                }
            },
            PlaylistBehavior::RepeatOne => Some(selected),
            PlaylistBehavior::RepeatPlaylist => {
                if len > 0 && selected < len - 1 {
                    Some(selected + 1)
                } else {
                    Some(0)
                }
            },
        }
    }
}

} // verus!
