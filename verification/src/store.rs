//! The game record store: a persisted-style mapping from an initiator's
//! identity to a game record.
//!
//! Entries form a log: an insert appends, and the most recent entry for a key
//! is the one that counts. `remove` compacts the log, dropping every entry for
//! the key. The store's view is the map the log denotes.

use vstd::prelude::*;

use crate::game::{GameView, RPSGame};

verus! {

/// One log entry: a key and the record stored under it.
struct Entry {
    key: String,
    game: RPSGame,
}

/// The map a log denotes: later entries override earlier ones.
spec fn map_of(s: Seq<Entry>) -> Map<Seq<char>, GameView>
    decreases s.len(),
{
    if s.len() == 0 {
        Map::empty()
    } else {
        map_of(s.drop_last()).insert(s.last().key@, s.last().game@)
    }
}

/// Extending the log by one entry inserts that entry's binding into the map.
proof fn lemma_map_of_take_step(s: Seq<Entry>, i: int)
    requires
        0 <= i < s.len(),
    ensures
        map_of(s.take(i + 1)) == map_of(s.take(i)).insert(s[i].key@, s[i].game@),
{
    assert(s.take(i + 1).drop_last() =~= s.take(i));
    assert(s.take(i + 1).last() == s[i]);
}

/// A collection of game records, keyed by identity.
pub struct GameStore {
    entries: Vec<Entry>,
}

impl View for GameStore {
    type V = Map<Seq<char>, GameView>;

    closed spec fn view(&self) -> Map<Seq<char>, GameView> {
        map_of(self.entries@)
    }
}

impl GameStore {
    /// An empty store.
    pub fn new() -> (s: GameStore)
        ensures
            s@ == Map::<Seq<char>, GameView>::empty(),
    {
        let s = GameStore { entries: Vec::new() };
        proof {
            assert(s.entries@.len() == 0);
        }
        s
    }

    /// The record stored under `key`, if any.
    pub fn get<'a>(&'a self, key: &String) -> (r: Option<&'a RPSGame>)
        ensures
            match r {
                Some(g) => self@.contains_key(key@) && g@ == self@[key@],
                None => !self@.contains_key(key@),
            },
    {
        let ghost s = self.entries@;
        let mut i: usize = self.entries.len();
        proof {
            assert(s.take(s.len() as int) =~= s);
        }
        while i > 0
            invariant
                i <= s.len(),
                s == self.entries@,
                map_of(s.take(i as int)).contains_key(key@) == map_of(s).contains_key(key@),
                map_of(s.take(i as int)).contains_key(key@) ==> map_of(s.take(i as int))[key@]
                    == map_of(s)[key@],
            decreases i,
        {
            i = i - 1;
            proof {
                lemma_map_of_take_step(s, i as int);
            }
            let e = &self.entries[i];
            if e.key == *key {
                return Some(&e.game);
            }
        }
        proof {
            assert(s.take(0) =~= Seq::<Entry>::empty());
        }
        None
    }

    /// Whether any record is stored under `key`.
    pub fn contains_key(&self, key: &String) -> (b: bool)
        ensures
            b == self@.contains_key(key@),
    {
        self.get(key).is_some()
    }

    /// Stores `game` under `key`, replacing whatever was there.
    pub fn insert(&mut self, key: String, game: RPSGame)
        ensures
            final(self)@ == old(self)@.insert(key@, game@),
    {
        self.entries.push(Entry { key, game });
        proof {
            assert(self.entries@.drop_last() =~= old(self).entries@);
        }
    }

    /// Drops the record stored under `key`, if any.
    pub fn remove(&mut self, key: &String)
        ensures
            final(self)@ == old(self)@.remove(key@),
    {
        let ghost s = self.entries@;
        let n = self.entries.len();
        let mut kept: Vec<Entry> = Vec::new();
        let mut i: usize = 0;
        proof {
            assert(s.take(0) =~= Seq::<Entry>::empty());
            assert(map_of(kept@) =~= map_of(s.take(0)).remove(key@));
        }
        while i < n
            invariant
                i <= n,
                n == s.len(),
                s == self.entries@,
                map_of(kept@) == map_of(s.take(i as int)).remove(key@),
            decreases n - i,
        {
            proof {
                lemma_map_of_take_step(s, i as int);
            }
            let e = &self.entries[i];
            if e.key == *key {
                proof {
                    assert(map_of(s.take(i as int + 1)).remove(key@) =~= map_of(
                        s.take(i as int),
                    ).remove(key@));
                }
            } else {
                let ghost kept_before = kept@;
                let kept_entry = Entry { key: e.key.clone(), game: clone_game(&e.game) };
                kept.push(kept_entry);
                proof {
                    assert(kept@.drop_last() =~= kept_before);
                    assert(kept@.last().key@ == s[i as int].key@);
                    assert(kept@.last().game@ == s[i as int].game@);
                    assert(map_of(kept@) == map_of(kept_before).insert(
                        s[i as int].key@,
                        s[i as int].game@,
                    ));
                    assert(map_of(s.take(i as int + 1)).remove(key@) =~= map_of(
                        s.take(i as int),
                    ).remove(key@).insert(s[i as int].key@, s[i as int].game@));
                }
            }
            i = i + 1;
        }
        proof {
            assert(s.take(n as int) =~= s);
        }
        self.entries = kept;
    }
}

/// A byte-for-byte copy of a byte vector.
fn clone_bytes(v: &Vec<u8>) -> (r: Vec<u8>)
    ensures
        r@ == v@,
{
    let mut r: Vec<u8> = Vec::new();
    let n = v.len();
    let mut i: usize = 0;
    while i < n
        invariant
            i <= n,
            n == v@.len(),
            r@ == v@.take(i as int),
        decreases n - i,
    {
        r.push(v[i]);
        proof {
            assert(r@ =~= v@.take(i as int + 1));
        }
        i = i + 1;
    }
    proof {
        assert(v@.take(n as int) =~= v@);
    }
    r
}

/// A copy of a game record whose view is the original's.
pub(crate) fn clone_game(g: &RPSGame) -> (r: RPSGame)
    ensures
        r@ == g@,
{
    RPSGame {
        initiator_id: g.initiator_id.clone(),
        responder_id: match &g.responder_id {
            Some(id) => Some(id.clone()),
            None => None,
        },
        primary_commit: clone_bytes(&g.primary_commit),
        secondary_commit: match &g.secondary_commit {
            Some(c) => Some(clone_bytes(c)),
            None => None,
        },
        real_p1: g.real_p1,
        real_p2: g.real_p2,
        state: g.state,
        winner: match &g.winner {
            Some(id) => Some(id.clone()),
            None => None,
        },
    }
}

} // verus!
