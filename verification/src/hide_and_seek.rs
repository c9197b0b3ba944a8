//! Hide and seek, with explosions.
//!
//! You hide in a 5 x 5 forest, your sister hides too, and your little brother
//! blasts random spots of the forest. Every blast costs him one explosion; a
//! blast on your sister freezes him and costs him three more. Three hits on you
//! and he wins; out of explosions and you win.
use crate::text::chars_to_string;
use rand::Rng;
use vstd::prelude::*;

verus! {

pub const GRID_SIZE_X: usize = 5;

pub const GRID_SIZE_Y: usize = 5;

pub const START_HEALTH: i32 = 3;

pub const START_EXPLOSIONS: i32 = 36;

pub const EXPLOSIONS_LOST_ON_FREEZE: i32 = 3;

/// Game status.
#[derive(Clone, Copy, PartialEq, Eq, Debug, Structural)]
pub enum GameStatus {
    Running,
    YouWon,
    BrotherWon,
}

/// A position in the forest.
#[derive(Clone, Copy, PartialEq, Eq, Debug, Structural)]
pub struct Coord {
    pub x: usize,
    pub y: usize,
}

/// The position lies inside the forest.
pub open spec fn in_grid(c: Coord) -> bool {
    c.x < GRID_SIZE_X && c.y < GRID_SIZE_Y
}

/// Picks a number in `0..bound` with the thread-local generator of `rand`
/// (`rand::thread_rng().gen_range(0..bound)`, which panics on an empty range).
/// Only the range of the result is stated: its value is chance.
#[verifier::external_body]
pub(crate) fn random_below(bound: usize) -> (r: usize)
    requires
        bound > 0,
    ensures
        r < bound,
{
    rand::thread_rng().gen_range(0..bound)
}

impl Coord {
    /// A random position inside the forest.
    pub fn random() -> (c: Coord)
        ensures
            in_grid(c),
    {
        let x = random_below(GRID_SIZE_X);
        let y = random_below(GRID_SIZE_Y);
        Coord { x, y }
    }
}

/// The character drawn for one spot of the forest.
pub open spec fn spot_char(player: Coord, sister: Coord, pos: Coord) -> char {
    if pos == player {
        'P'
    } else if pos == sister {
        'S'
    } else {
        '_'
    }
}

/// One line of the forest picture: the spots of row `y`, then a line break.
pub open spec fn picture_row(player: Coord, sister: Coord, y: usize) -> Seq<char> {
    Seq::new(GRID_SIZE_X as nat, |x: int| spot_char(player, sister, Coord { x: x as usize, y }))
        .push('\n')
}

/// The first `n` lines of the forest picture.
pub open spec fn picture_rows(player: Coord, sister: Coord, n: nat) -> Seq<char>
    decreases n,
{
    if n == 0 {
        Seq::empty()
    } else {
        picture_rows(player, sister, (n - 1) as nat) + picture_row(player, sister, (n - 1) as usize)
    }
}

/// The forest: where you and your sister hide. Every other spot is a tree.
pub struct Forest {
    pub player_pos: Coord,
    pub sister_pos: Coord,
}

impl Forest {
    pub fn new(player_pos: Coord, sister_pos: Coord) -> (f: Forest)
        ensures
            f.player_pos == player_pos,
            f.sister_pos == sister_pos,
    {
        Forest { player_pos, sister_pos }
    }

    pub fn is_player_at(&self, pos: &Coord) -> (b: bool)
        ensures
            b == (*pos == self.player_pos),
    {
        *pos == self.player_pos
    }

    pub fn is_sister_at(&self, pos: &Coord) -> (b: bool)
        ensures
            b == (*pos == self.sister_pos),
    {
        *pos == self.sister_pos
    }

    pub fn is_tree_at(&self, pos: &Coord) -> (b: bool)
        ensures
            b == (*pos != self.player_pos && *pos != self.sister_pos),
    {
        (*pos != self.player_pos) && (*pos != self.sister_pos)
    }

    /// The forest as text: one line per row, `P` for you, `S` for your sister,
    /// `_` for a tree.
    pub fn render(&self) -> (s: String)
        ensures
            s@ == picture_rows(self.player_pos, self.sister_pos, GRID_SIZE_Y as nat),
    {
        let mut chars: Vec<char> = Vec::new();
        let mut y: usize = 0;
        while y < GRID_SIZE_Y
            invariant
                y <= GRID_SIZE_Y,
                chars@ == picture_rows(self.player_pos, self.sister_pos, y as nat),
            decreases GRID_SIZE_Y - y,
        {
            let ghost before = chars@;
            let mut x: usize = 0;
            while x < GRID_SIZE_X
                invariant
                    x <= GRID_SIZE_X,
                    y < GRID_SIZE_Y,
                    chars@ == before + Seq::new(
                        x as nat,
                        |i: int| spot_char(self.player_pos, self.sister_pos, Coord { x: i as usize, y }),
                    ),
                decreases GRID_SIZE_X - x,
            {
                let pos = Coord { x, y };
                let chr = if pos == self.player_pos {
                    'P'
                } else if pos == self.sister_pos {
                    'S'
                } else {
                    '_'
                };
                chars.push(chr);
                x = x + 1;
            }
            chars.push('\n');
            proof {
                assert(chars@ == picture_rows(self.player_pos, self.sister_pos, (y + 1) as nat));
            }
            y = y + 1;
        }
        chars_to_string(chars)
    }
}

/// What a blast hit.
#[derive(Clone, Copy, PartialEq, Eq, Debug, Structural)]
pub enum StepOutcome {
    HitPlayer,
    HitSister,
    Missed,
}

/// The status that follows from your health and your brother's explosions.
pub open spec fn status_of(health: int, explosions: int) -> GameStatus {
    if health <= 0 {
        GameStatus::BrotherWon
    } else if explosions <= 0 {
        GameStatus::YouWon
    } else {
        GameStatus::Running
    }
}

/// The state of a hide and seek game.
pub struct GameState {
    pub forest: Forest,
    pub your_health: i32,
    pub bro_expl_cnt: i32,
    /// The missed blasts since you were last hit.
    pub blast_history: Vec<Coord>,
    /// Your brother has found (and blasted) your sister.
    pub bombed_sis_pos: bool,
}

/// What one blast at `bomb` does to the game `pre`, with `new_pos` as the spot
/// you jump to if you are hit.
pub open spec fn step_taken(pre: GameState, bomb: Coord, new_pos: Coord, post: GameState) -> bool {
    &&& post.forest.sister_pos == pre.forest.sister_pos
    &&& if bomb == pre.forest.player_pos {
        &&& post.your_health == pre.your_health - 1
        &&& post.bro_expl_cnt == pre.bro_expl_cnt - 1
        &&& post.forest.player_pos == new_pos
        &&& post.blast_history@ == Seq::<Coord>::empty()
        &&& post.bombed_sis_pos == pre.bombed_sis_pos
    } else if bomb == pre.forest.sister_pos {
        &&& post.your_health == pre.your_health
        &&& post.bro_expl_cnt == pre.bro_expl_cnt - 1 - EXPLOSIONS_LOST_ON_FREEZE
        &&& post.forest.player_pos == pre.forest.player_pos
        &&& post.blast_history@ == pre.blast_history@
        &&& post.bombed_sis_pos
    } else {
        &&& post.your_health == pre.your_health
        &&& post.bro_expl_cnt == pre.bro_expl_cnt - 1
        &&& post.forest.player_pos == pre.forest.player_pos
        &&& post.blast_history@ == pre.blast_history@.push(bomb)
        &&& post.bombed_sis_pos == pre.bombed_sis_pos
    }
}

/// The outcome of a blast at `bomb` on the game `pre`.
pub open spec fn outcome_of(pre: GameState, bomb: Coord) -> StepOutcome {
    if bomb == pre.forest.player_pos {
        StepOutcome::HitPlayer
    } else if bomb == pre.forest.sister_pos {
        StepOutcome::HitSister
    } else {
        StepOutcome::Missed
    }
}

/// The blast cannot overflow the counters.
pub open spec fn step_in_range(pre: GameState, bomb: Coord) -> bool {
    &&& pre.bro_expl_cnt - 1 >= i32::MIN
    &&& bomb == pre.forest.player_pos ==> pre.your_health - 1 >= i32::MIN
    &&& (bomb != pre.forest.player_pos && bomb == pre.forest.sister_pos) ==> pre.bro_expl_cnt - 1
        - EXPLOSIONS_LOST_ON_FREEZE >= i32::MIN
}

/// The cells of the forest, row by row, that are neither `a` nor `b` and not in `avoid`.
pub open spec fn free_cell(a: Option<Coord>, b: Option<Coord>, avoid: Seq<Coord>, c: Coord) -> bool {
    &&& in_grid(c)
    &&& a != Some(c)
    &&& b != Some(c)
    &&& !avoid.contains(c)
}

/// The spot lies in `v`.
fn contains_coord(v: &Vec<Coord>, pos: &Coord) -> (b: bool)
    ensures
        b == v@.contains(*pos),
{
    let mut i: usize = 0;
    while i < v.len()
        invariant
            i <= v.len(),
            forall|j: int| 0 <= j < i ==> v@[j] != *pos,
        decreases v.len() - i,
    {
        if v[i] == *pos {
            return true;
        }
        i = i + 1;
    }
    false
}

/// The cells of the forest, row by row, that are neither `a` nor `b` and not in `avoid`.
fn free_cells(a: Option<Coord>, b: Option<Coord>, avoid: &Vec<Coord>) -> (v: Vec<Coord>)
    ensures
        forall|c: Coord| v@.contains(c) <==> free_cell(a, b, avoid@, c),
{
    let mut v: Vec<Coord> = Vec::new();
    let mut y: usize = 0;
    while y < GRID_SIZE_Y
        invariant
            y <= GRID_SIZE_Y,
            forall|c: Coord| v@.contains(c) <==> (free_cell(a, b, avoid@, c) && c.y < y),
        decreases GRID_SIZE_Y - y,
    {
        let mut x: usize = 0;
        while x < GRID_SIZE_X
            invariant
                x <= GRID_SIZE_X,
                y < GRID_SIZE_Y,
                forall|c: Coord|
                    v@.contains(c) <==> (free_cell(a, b, avoid@, c) && (c.y < y || (c.y == y
                        && c.x < x))),
            decreases GRID_SIZE_X - x,
        {
            let c = Coord { x, y };
            let ok = a != Some(c) && b != Some(c) && !contains_coord(avoid, &c);
            let ghost before = v@;
            if ok {
                v.push(c);
            }
            proof {
                assert forall|d: Coord|
                    v@.contains(d) <==> (free_cell(a, b, avoid@, d) && (d.y < y || (d.y == y
                        && d.x < x + 1))) by {
                    if ok {
                        assert(v@ == before.push(c));
                        if v@.contains(d) && d != c {
                            let k = choose|k: int| 0 <= k < v@.len() && v@[k] == d;
                            assert(before[k] == d);
                        }
                        if before.contains(d) {
                            let k = choose|k: int| 0 <= k < before.len() && before[k] == d;
                            assert(v@[k] == d);
                        }
                        if d == c {
                            assert(v@[before.len() as int] == d);
                        }
                    }
                }
            }
            x = x + 1;
        }
        y = y + 1;
    }
    v
}

/// A random element of a non-empty vector.
fn random_element(v: &Vec<Coord>) -> (c: Coord)
    requires
        v.len() > 0,
    ensures
        v@.contains(c),
{
    let i = random_below(v.len());
    v[i]
}

impl GameState {
    /// The invariant that every game started by [`GameState::new`] keeps:
    /// both of you are in the forest, on different spots, and the missed blasts
    /// hit neither of you.
    pub open spec fn inv(&self) -> bool {
        &&& in_grid(self.forest.player_pos)
        &&& in_grid(self.forest.sister_pos)
        &&& self.forest.player_pos != self.forest.sister_pos
        &&& forall|i: int|
            0 <= i < self.blast_history@.len() ==> self.blast_history@[i]
                != self.forest.player_pos && self.blast_history@[i] != self.forest.sister_pos
    }

    /// A spot your brother may still blast: not a spot he missed since he last
    /// hit you, and not your sister once he has found her.
    pub open spec fn good_to_blast(&self, pos: Coord) -> bool {
        &&& !(self.bombed_sis_pos && pos == self.forest.sister_pos)
        &&& !self.blast_history@.contains(pos)
    }

    /// Initializes the game, with you and your sister on two different random spots.
    pub fn new() -> (g: GameState)
        ensures
            g.inv(),
            g.your_health == START_HEALTH,
            g.bro_expl_cnt == START_EXPLOSIONS,
            g.blast_history@.len() == 0,
            !g.bombed_sis_pos,
    {
        let player_pos = Coord::random();
        let no_spots: Vec<Coord> = Vec::new();
        let spots = free_cells(Some(player_pos), None, &no_spots);
        let other = if player_pos.x == 0 { Coord { x: 1, y: 0 } } else { Coord { x: 0, y: 0 } };
        assert(free_cell(Some(player_pos), None, no_spots@, other));
        assert(spots@.contains(other));
        let sister_pos = random_element(&spots);
        Self::new_customized(player_pos, sister_pos)
    }

    pub fn status(&self) -> (s: GameStatus)
        ensures
            s == status_of(self.your_health as int, self.bro_expl_cnt as int),
    {
        if self.your_health <= 0 {
            GameStatus::BrotherWon
        } else if self.bro_expl_cnt <= 0 {
            GameStatus::YouWon
        } else {
            GameStatus::Running
        }
    }

    /// One round: your brother blasts a random spot he may still blast, and if
    /// he hits you, you jump to a random tree.
    pub fn perform_step(&mut self) -> (out: StepOutcome)
        requires
            old(self).inv(),
            old(self).your_health > i32::MIN,
            old(self).bro_expl_cnt > i32::MIN + 1 + EXPLOSIONS_LOST_ON_FREEZE,
        ensures
            final(self).inv(),
            exists|bomb: Coord, new_pos: Coord|
                {
                    &&& in_grid(bomb)
                    &&& old(self).good_to_blast(bomb)
                    &&& in_grid(new_pos)
                    &&& new_pos != old(self).forest.player_pos
                    &&& new_pos != old(self).forest.sister_pos
                    &&& step_taken(*old(self), bomb, new_pos, *final(self))
                    &&& out == outcome_of(*old(self), bomb)
                },
    {
        let bomb_pos = self.pick_position_to_blast();
        let new_player_pos = self.random_pos_in_forest();
        let ghost pre = *self;
        let out = self.perform_step_customized(bomb_pos, new_player_pos);
        proof {
            lemma_step_keeps_inv(pre, bomb_pos, new_player_pos, *self);
        }
        out
    }

    /// A game with you and your sister on the given spots.
    pub fn new_customized(player_pos: Coord, sister_pos: Coord) -> (g: GameState)
        ensures
            g.forest.player_pos == player_pos,
            g.forest.sister_pos == sister_pos,
            g.your_health == START_HEALTH,
            g.bro_expl_cnt == START_EXPLOSIONS,
            g.blast_history@.len() == 0,
            !g.bombed_sis_pos,
    {
        GameState {
            forest: Forest::new(player_pos, sister_pos),
            your_health: START_HEALTH,
            bro_expl_cnt: START_EXPLOSIONS,
            blast_history: Vec::new(),
            bombed_sis_pos: false,
        }
    }

    /// One round with a given blast: one explosion is spent; if you are hit you
    /// lose one health, jump to `new_player_pos` and the missed blasts are
    /// forgotten; if your sister is hit your brother loses three more explosions
    /// and remembers her; otherwise the missed spot is remembered.
    pub fn perform_step_customized(&mut self, bomb_pos: Coord, new_player_pos: Coord) -> (out:
        StepOutcome)
        requires
            step_in_range(*old(self), bomb_pos),
        ensures
            step_taken(*old(self), bomb_pos, new_player_pos, *final(self)),
            out == outcome_of(*old(self), bomb_pos),
    {
        self.bro_expl_cnt = self.bro_expl_cnt - 1;
        if self.forest.is_player_at(&bomb_pos) {
            self.brother_hit_player(new_player_pos);
            StepOutcome::HitPlayer
        } else if self.forest.is_sister_at(&bomb_pos) {
            self.brother_hit_sister();
            StepOutcome::HitSister
        } else {
            self.brother_hit_nothing(bomb_pos);
            StepOutcome::Missed
        }
    }

    fn brother_hit_player(&mut self, new_player_pos: Coord)
        requires
            old(self).your_health > i32::MIN,
        ensures
            final(self).your_health == old(self).your_health - 1,
            final(self).forest.player_pos == new_player_pos,
            final(self).forest.sister_pos == old(self).forest.sister_pos,
            final(self).blast_history@ == Seq::<Coord>::empty(),
            final(self).bro_expl_cnt == old(self).bro_expl_cnt,
            final(self).bombed_sis_pos == old(self).bombed_sis_pos,
    {
        self.your_health = self.your_health - 1;
        self.forest.player_pos = new_player_pos;
        self.blast_history.clear();
    }

    fn brother_hit_sister(&mut self)
        requires
            old(self).bro_expl_cnt - EXPLOSIONS_LOST_ON_FREEZE >= i32::MIN,
        ensures
            final(self).bro_expl_cnt == old(self).bro_expl_cnt - EXPLOSIONS_LOST_ON_FREEZE,
            final(self).bombed_sis_pos,
            final(self).your_health == old(self).your_health,
            final(self).forest == old(self).forest,
            final(self).blast_history@ == old(self).blast_history@,
    {
        self.bro_expl_cnt = self.bro_expl_cnt - EXPLOSIONS_LOST_ON_FREEZE;
        self.bombed_sis_pos = true;
    }

    fn brother_hit_nothing(&mut self, bomb_pos: Coord)
        ensures
            final(self).blast_history@ == old(self).blast_history@.push(bomb_pos),
            final(self).bro_expl_cnt == old(self).bro_expl_cnt,
            final(self).bombed_sis_pos == old(self).bombed_sis_pos,
            final(self).your_health == old(self).your_health,
            final(self).forest == old(self).forest,
    {
        self.blast_history.push(bomb_pos);
    }

    /// A random tree of the forest: a spot where neither you nor your sister hide.
    pub fn random_pos_in_forest(&self) -> (c: Coord)
        ensures
            in_grid(c),
            self.forest.is_tree(c),
    {
        let no_spots: Vec<Coord> = Vec::new();
        let p = self.forest.player_pos;
        let s = self.forest.sister_pos;
        let spots = free_cells(Some(p), Some(s), &no_spots);
        let c0 = Coord { x: 0, y: 0 };
        let c1 = Coord { x: 1, y: 0 };
        let c2 = Coord { x: 2, y: 0 };
        let witness = if c0 != p && c0 != s {
            c0
        } else if c1 != p && c1 != s {
            c1
        } else {
            c2
        };
        assert(free_cell(Some(p), Some(s), no_spots@, witness));
        assert(spots@.contains(witness));
        random_element(&spots)
    }

    /// A random spot that is good to blast.
    pub fn pick_position_to_blast(&self) -> (c: Coord)
        requires
            self.inv(),
        ensures
            in_grid(c),
            self.good_to_blast(c),
    {
        let avoid_sister = if self.bombed_sis_pos {
            Some(self.forest.sister_pos)
        } else {
            None
        };
        let spots = free_cells(None, avoid_sister, &self.blast_history);
        let p = self.forest.player_pos;
        proof {
            if self.blast_history@.contains(p) {
                let k = choose|k: int| 0 <= k < self.blast_history@.len() && self.blast_history@[k] == p;
                assert(self.blast_history@[k] != p);
            }
            assert(free_cell(None, avoid_sister, self.blast_history@, p));
            assert(spots@.contains(p));
        }
        random_element(&spots)
    }

    pub fn good_position_to_blast(&self, pos: &Coord) -> (b: bool)
        ensures
            b == self.good_to_blast(*pos),
    {
        if self.bombed_sis_pos && *pos == self.forest.sister_pos {
            return false;
        }
        !contains_coord(&self.blast_history, pos)
    }
}

impl Forest {
    /// A tree grows there: neither you nor your sister hide on that spot.
    pub open spec fn is_tree(&self, pos: Coord) -> bool {
        pos != self.player_pos && pos != self.sister_pos
    }
}

/// Every round keeps the invariant of the game, provided that you jump to a
/// spot of the forest where your sister is not.
pub proof fn lemma_step_keeps_inv(pre: GameState, bomb: Coord, new_pos: Coord, post: GameState)
    requires
        pre.inv(),
        step_taken(pre, bomb, new_pos, post),
        in_grid(new_pos),
        new_pos != pre.forest.sister_pos,
    ensures
        post.inv(),
{
    if bomb != pre.forest.player_pos && bomb != pre.forest.sister_pos {
        assert forall|i: int| 0 <= i < post.blast_history@.len() implies post.blast_history@[i]
            != post.forest.player_pos && post.blast_history@[i] != post.forest.sister_pos by {
            if i < pre.blast_history@.len() {
                assert(post.blast_history@[i] == pre.blast_history@[i]);
            }
        }
    }
}

/// Every round costs your brother at least one explosion, never heals you, and
/// once your sister has been found she stays found: the game ends after at most
/// `START_EXPLOSIONS` rounds.
pub proof fn lemma_step_progress(pre: GameState, bomb: Coord, new_pos: Coord, post: GameState)
    requires
        step_taken(pre, bomb, new_pos, post),
    ensures
        post.bro_expl_cnt <= pre.bro_expl_cnt - 1,
        post.your_health <= pre.your_health,
        pre.bombed_sis_pos ==> post.bombed_sis_pos,
        pre.bro_expl_cnt <= 1 ==> status_of(post.your_health as int, post.bro_expl_cnt as int)
            != GameStatus::Running,
{
}

/// A missed spot is not blasted again until you are hit, and your sister is
/// never blasted twice.
pub proof fn lemma_no_blast_repeats(pre: GameState, bomb: Coord, new_pos: Coord, post: GameState)
    requires
        step_taken(pre, bomb, new_pos, post),
    ensures
        bomb != pre.forest.player_pos ==> !post.good_to_blast(bomb),
        post.bombed_sis_pos ==> !post.good_to_blast(post.forest.sister_pos),
{
    if bomb != pre.forest.player_pos && bomb != pre.forest.sister_pos {
        assert(post.blast_history@[post.blast_history@.len() - 1] == bomb);
    }
}

} // verus!
