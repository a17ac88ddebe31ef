//! The session registry: the one shared collection of in-progress
//! games. Mutual exclusion per game is provided by ownership
//! transfer: `checkout` atomically finds and removes a game, so no
//! two callers can hold the same game, and `checkin` appends it
//! back. A caller that wraps the registry in a lock therefore never
//! needs a per-game lock.

use vstd::prelude::*;

use crate::game::Game;
use crate::game::GameState;
use crate::game::Player;
use crate::game::initial_game;
use crate::game::spec_has_player;

verus! {

/// Why `start` was rejected: the named player already owns a
/// registry entry.
#[derive(Debug)]
pub enum StartError {
    PlayerAlreadyInGame(String),
}

impl StartError {
    /// The name of the player that was already in a game.
    pub fn player_name(&self) -> (r: &String)
        ensures
            self matches StartError::PlayerAlreadyInGame(n) && r == n,
    {
        match self {
            StartError::PlayerAlreadyInGame(n) => n,
        }
    }
}

/// True if some entry of `s` has a player named `name`.
pub open spec fn contains_player(s: Seq<Game>, name: Seq<char>) -> bool {
    exists|i: int| 0 <= i < s.len() && spec_has_player(s[i], name)
}

/// True if the two games have a player name in common.
pub open spec fn shares_player(a: Game, b: Game) -> bool {
    spec_has_player(a, b.player1.name@) || spec_has_player(a, b.player2.name@)
}

/// The registry invariant: every entry is a well-formed, unfinished
/// game, and no two entries have a player name in common.
pub open spec fn registry_wf(s: Seq<Game>) -> bool {
    &&& forall|i: int| 0 <= i < s.len() ==> (#[trigger] s[i]).wf() && !s[i].state.is_terminal()
    &&& forall|i: int, j: int| 0 <= i < j < s.len() ==> !shares_player(#[trigger] s[i], #[trigger] s[j])
}

/// The entry at index `i` is the first one with a player named
/// `name`; it was returned as `g` and removed, leaving `post`.
pub open spec fn checkout_removes(
    pre: Seq<Game>,
    post: Seq<Game>,
    g: Game,
    name: Seq<char>,
    i: int,
) -> bool {
    &&& 0 <= i < pre.len()
    &&& spec_has_player(pre[i], name)
    &&& forall|j: int| 0 <= j < i ==> !spec_has_player(#[trigger] pre[j], name)
    &&& g == pre[i]
    &&& post == pre.remove(i)
}

/// What a checkout (or an abandon) does to the collection: either
/// the first entry with a player named `name` is removed and handed
/// out, or no entry has such a player and nothing changes.
pub open spec fn checkout_post(pre: Seq<Game>, post: Seq<Game>, r: Option<Game>, name: Seq<char>) -> bool {
    match r {
        Some(g) => exists|i: int| checkout_removes(pre, post, g, name, i),
        None => post == pre && !contains_player(pre, name),
    }
}

/// What a successful `start` does: neither name was present, and the
/// collection grew by exactly one game, in its initial state, at the
/// end.
pub open spec fn start_ok_post(pre: Seq<Game>, post: Seq<Game>, player1: Player, player2: Player) -> bool {
    &&& !contains_player(pre, player1.name@)
    &&& !contains_player(pre, player2.name@)
    &&& post.len() == pre.len() + 1
    &&& post.subrange(0, pre.len() as int) == pre
    &&& initial_game(post.last(), player1, player2)
}

/// Removing one entry keeps the registry invariant.
proof fn lemma_wf_remove(s: Seq<Game>, i: int)
    requires
        registry_wf(s),
        0 <= i < s.len(),
    ensures
        registry_wf(s.remove(i)),
{
    let t = s.remove(i);
    assert forall|j: int| 0 <= j < t.len() implies (#[trigger] t[j]).wf()
        && !t[j].state.is_terminal() by {
        if j < i {
            assert(t[j] == s[j]);
        } else {
            assert(t[j] == s[j + 1]);
        }
    };
    assert forall|a: int, b: int| 0 <= a < b < t.len() implies !shares_player(
        #[trigger] t[a],
        #[trigger] t[b],
    ) by {
        let a0 = if a < i {
            a
        } else {
            a + 1
        };
        let b0 = if b < i {
            b
        } else {
            b + 1
        };
        assert(t[a] == s[a0]);
        assert(t[b] == s[b0]);
        assert(!shares_player(s[a0], s[b0]));
    };
}

/// Appending a well-formed, unfinished game whose player names are
/// not yet present keeps the registry invariant.
proof fn lemma_wf_push_fresh(s: Seq<Game>, g: Game)
    requires
        registry_wf(s),
        g.wf(),
        !g.state.is_terminal(),
        !contains_player(s, g.player1.name@),
        !contains_player(s, g.player2.name@),
    ensures
        registry_wf(s.push(g)),
{
    let t = s.push(g);
    assert forall|j: int| 0 <= j < t.len() implies (#[trigger] t[j]).wf()
        && !t[j].state.is_terminal() by {
        if j < s.len() {
            assert(t[j] == s[j]);
        } else {
            assert(t[j] == g);
        }
    };
    assert forall|a: int, b: int| 0 <= a < b < t.len() implies !shares_player(
        #[trigger] t[a],
        #[trigger] t[b],
    ) by {
        if b < s.len() {
            assert(t[a] == s[a]);
            assert(t[b] == s[b]);
            assert(!shares_player(s[a], s[b]));
        } else {
            assert(t[a] == s[a]);
            assert(t[b] == g);
            if spec_has_player(s[a], g.player1.name@) {
                assert(contains_player(s, g.player1.name@));
            }
            if spec_has_player(s[a], g.player2.name@) {
                assert(contains_player(s, g.player2.name@));
            }
        }
    };
}

/// Scan `vec` for the first game with a player named `player`; if
/// one is there, remove it and hand it out, transferring ownership
/// to the caller.
pub fn player_in_vec(player: &String, vec: &mut Vec<Game>) -> (r: Option<Game>)
    ensures
        checkout_post(old(vec)@, final(vec)@, r, player@),
        r is Some <==> contains_player(old(vec)@, player@),
        r is None ==> *final(vec) == *old(vec),
{
    let mut index: usize = 0;
    while index < vec.len()
        invariant
            *vec == *old(vec),
            index <= vec@.len(),
            forall|j: int| 0 <= j < index ==> !spec_has_player(#[trigger] vec@[j], player@),
        decreases vec@.len() - index,
    {
        if vec[index].has_player(player) {
            let g = vec.remove(index);
            proof {
                assert(checkout_removes(old(vec)@, vec@, g, player@, index as int));
            }
            return Some(g);
        }
        index = index + 1;
    }
    None
}

/// The ordered collection of in-progress games. It exclusively owns
/// every game it holds; a checked-out game is owned by the caller
/// alone and is unreachable from the registry until checked back in.
pub struct SessionRegistry {
    games: Vec<Game>,
}

impl View for SessionRegistry {
    type V = Seq<Game>;

    closed spec fn view(&self) -> Seq<Game> {
        self.games@
    }
}

impl SessionRegistry {
    /// A registry with no games, as at process startup.
    pub fn new() -> (r: SessionRegistry)
        ensures
            r@ == Seq::<Game>::empty(),
            registry_wf(r@),
    {
        SessionRegistry { games: Vec::new() }
    }

    /// How many games are registered.
    pub fn len(&self) -> (r: usize)
        ensures
            r == self@.len(),
    {
        self.games.len()
    }

    /// True if some entry has a player named `name`.
    fn contains(&self, name: &String) -> (r: bool)
        ensures
            r == contains_player(self@, name@),
    {
        let mut index: usize = 0;
        while index < self.games.len()
            invariant
                index <= self@.len(),
                forall|j: int| 0 <= j < index ==> !spec_has_player(#[trigger] self@[j], name@),
            decreases self@.len() - index,
        {
            if self.games[index].has_player(name) {
                return true;
            }
            index = index + 1;
        }
        false
    }

    /// Begin a game between the two players: rejected with
    /// `PlayerAlreadyInGame` naming the offending player if either
    /// name already has an entry (player 1 is checked first), and
    /// the registry is then unchanged; otherwise a game in its
    /// initial state is appended.
    pub fn start(&mut self, player1: Player, player2: Player) -> (r: Result<(), StartError>)
        requires
            registry_wf(old(self)@),
        ensures
            registry_wf(final(self)@),
            r is Err <==> (contains_player(old(self)@, player1.name@) || contains_player(
                old(self)@,
                player2.name@,
            )),
            match r {
                Ok(_) => start_ok_post(old(self)@, final(self)@, player1, player2),
                Err(e) => {
                    &&& *final(self) == *old(self)
                    &&& (e matches StartError::PlayerAlreadyInGame(n) ==> n@ == (
                    if contains_player(old(self)@, player1.name@) {
                        player1.name@
                    } else {
                        player2.name@
                    }))
                },
            },
    {
        if self.contains(&player1.name) {
            return Err(StartError::PlayerAlreadyInGame(player1.name));
        }
        if self.contains(&player2.name) {
            return Err(StartError::PlayerAlreadyInGame(player2.name));
        }
        let g = Game::new(player1, player2);
        self.games.push(g);
        proof {
            lemma_wf_push_fresh(old(self)@, g);
            assert(self@.subrange(0, old(self)@.len() as int) =~= old(self)@);
        }
        Ok(())
    }

    /// Atomically find and remove the game of the named player,
    /// transferring ownership to the caller; `None`, with the
    /// registry unchanged, if the player is in no game. While the
    /// game is out, no entry for either of its players remains, so a
    /// second checkout for the same name cannot succeed.
    pub fn checkout(&mut self, name: &String) -> (r: Option<Game>)
        requires
            registry_wf(old(self)@),
        ensures
            registry_wf(final(self)@),
            checkout_post(old(self)@, final(self)@, r, name@),
            r is Some <==> contains_player(old(self)@, name@),
            r matches Some(g) ==> g.wf() && !g.state.is_terminal() && spec_has_player(g, name@)
                && !contains_player(final(self)@, name@) && !contains_player(
                final(self)@,
                g.player1.name@,
            ) && !contains_player(final(self)@, g.player2.name@),
            r is None ==> *final(self) == *old(self),
    {
        match player_in_vec(name, &mut self.games) {
            Some(g) => {
                proof {
                    let i = choose|i: int| checkout_removes(old(self)@, self@, g, name@, i);
                    lemma_wf_remove(old(self)@, i);
                    assert forall|j: int| 0 <= j < self@.len() implies !spec_has_player(
                        #[trigger] self@[j],
                        name@,
                    ) && !spec_has_player(self@[j], g.player1.name@) && !spec_has_player(
                        self@[j],
                        g.player2.name@,
                    ) by {
                        let k = if j < i {
                            j
                        } else {
                            j + 1
                        };
                        assert(self@[j] == old(self)@[k]);
                        if k < i {
                            assert(!shares_player(old(self)@[k], old(self)@[i]));
                        } else {
                            assert(!shares_player(old(self)@[i], old(self)@[k]));
                        }
                        if spec_has_player(old(self)@[k], name@) {
                            assert(shares_player(old(self)@[k], old(self)@[i])
                                && shares_player(old(self)@[i], old(self)@[k]));
                        }
                    };
                }
                Some(g)
            },
            None => None,
        }
    }

    /// Publish a checked-out, unfinished game back into the
    /// registry. Finished games must be dropped instead, and a game
    /// whose players already have an entry cannot be checked in:
    /// both players' names must be absent, as they are after the
    /// checkout that produced the game.
    pub fn checkin(&mut self, game: Game)
        requires
            registry_wf(old(self)@),
            game.wf(),
            !game.state.is_terminal(),
            !contains_player(old(self)@, game.player1.name@),
            !contains_player(old(self)@, game.player2.name@),
        ensures
            registry_wf(final(self)@),
            final(self)@ == old(self)@.push(game),
    {
        proof {
            lemma_wf_push_fresh(self@, game);
        }
        self.games.push(game);
    }

    /// Give a checked-out game back to the registry the only legal
    /// way: an unfinished game is checked in, a finished one is
    /// dropped, so a terminal game can never sit in the collection
    /// and hold its players' slots.
    pub fn conclude(&mut self, game: Game)
        requires
            registry_wf(old(self)@),
            game.wf(),
            !contains_player(old(self)@, game.player1.name@),
            !contains_player(old(self)@, game.player2.name@),
        ensures
            registry_wf(final(self)@),
            game.state.is_terminal() ==> *final(self) == *old(self),
            !game.state.is_terminal() ==> final(self)@ == old(self)@.push(game),
    {
        match game.state {
            GameState::Player1Won | GameState::Player2Won | GameState::Draw => {},
            GameState::AwaitingPlayer1Move | GameState::AwaitingPlayer2Move => {
                self.checkin(game);
            },
        }
    }

    /// Find and drop the named player's game: checkout with no
    /// checkin. True if and only if a game was found and discarded.
    pub fn abandon(&mut self, name: &String) -> (r: bool)
        requires
            registry_wf(old(self)@),
        ensures
            registry_wf(final(self)@),
            r == contains_player(old(self)@, name@),
            !r ==> *final(self) == *old(self),
            r ==> !contains_player(final(self)@, name@) && (exists|i: int|
                #![auto]
                0 <= i < old(self)@.len() && spec_has_player(old(self)@[i], name@)
                    && final(self)@ == old(self)@.remove(i) && !contains_player(
                    final(self)@,
                    old(self)@[i].player1.name@,
                ) && !contains_player(final(self)@, old(self)@[i].player2.name@)),
    {
        match self.checkout(name) {
            Some(g) => {
                proof {
                    let i = choose|i: int| checkout_removes(old(self)@, self@, g, name@, i);
                    assert(0 <= i < old(self)@.len() && spec_has_player(old(self)@[i], name@)
                        && self@ == old(self)@.remove(i) && !contains_player(
                        self@,
                        old(self)@[i].player1.name@,
                    ) && !contains_player(self@, old(self)@[i].player2.name@));
                }
                true
            },
            None => false,
        }
    }
}

/// Checkout is exclusive: of two checkouts for the same player name,
/// one after the other on the same registry, at most the first can
/// hand a game out; the second finds nothing.
pub proof fn lemma_checkout_exclusive(
    pre: Seq<Game>,
    mid: Seq<Game>,
    post: Seq<Game>,
    name: Seq<char>,
    r1: Option<Game>,
    r2: Option<Game>,
)
    requires
        registry_wf(pre),
        checkout_post(pre, mid, r1, name),
        checkout_post(mid, post, r2, name),
        r1 is Some,
    ensures
        r2 is None,
{
    match r1 {
        Some(g1) => {
            let i1 = choose|i: int| checkout_removes(pre, mid, g1, name, i);
            assert forall|j: int| 0 <= j < mid.len() implies !spec_has_player(
                #[trigger] mid[j],
                name,
            ) by {
                let k = if j < i1 {
                    j
                } else {
                    j + 1
                };
                assert(mid[j] == pre[k]);
                if spec_has_player(pre[k], name) {
                    if k < i1 {
                        assert(shares_player(pre[k], pre[i1]));
                    } else {
                        assert(shares_player(pre[i1], pre[k]));
                    }
                }
            };
            match r2 {
                Some(g2) => {
                    let i2 = choose|i: int| checkout_removes(mid, post, g2, name, i);
                    assert(spec_has_player(mid[i2], name));
                    assert(false);
                },
                None => {},
            }
        },
        None => {},
    }
}

/// Round trip: once `start(player1, player2)` succeeds, a checkout
/// for player 1's name returns the very game that was created, with
/// both players and the initial state, and leaves the registry as it
/// was before the start.
pub proof fn lemma_start_then_checkout(
    pre: Seq<Game>,
    mid: Seq<Game>,
    post: Seq<Game>,
    player1: Player,
    player2: Player,
    r: Option<Game>,
)
    requires
        registry_wf(pre),
        start_ok_post(pre, mid, player1, player2),
        checkout_post(mid, post, r, player1.name@),
    ensures
        r is Some,
        r matches Some(g) ==> initial_game(g, player1, player2),
        post == pre,
{
    let n = pre.len() as int;
    assert(mid.last() == mid[n]);
    assert(spec_has_player(mid[n], player1.name@));
    assert(contains_player(mid, player1.name@));
    match r {
        Some(g) => {
            let i = choose|i: int| checkout_removes(mid, post, g, player1.name@, i);
            assert forall|j: int| 0 <= j < n implies mid[j] == pre[j] by {
                assert(mid.subrange(0, n)[j] == mid[j]);
            };
            if i < n {
                assert(spec_has_player(pre[i], player1.name@));
                assert(contains_player(pre, player1.name@));
            }
            assert(i == n);
            assert(g == mid[n]);
            assert(post =~= pre);
        },
        None => {},
    }
}

} // verus!
