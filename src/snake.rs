use vstd::prelude::*;

use std::collections::VecDeque;

use crate::board::{in_board, interior, next_head, opposite_spec, Direction, Point};
use crate::laws::{law_food_respawns_free, law_length, law_two_food_respawns_free};
use crate::model::{
    advance, all_in_board, glyphs, hits_self, lemma_advance_in_board, lemma_single_tick_wf,
    lemma_step_in_board, lemma_two_tick_wf, snapshot_spec, start_spec, GameView, Glyph, DRAW,
    NO_WINNER, PLAYER_ONE, PLAYER_TWO,
};

verus! {

/// How many random cells are tried for food before the board is scanned.
pub const FOOD_ATTEMPTS: usize = 16;

/// Why a game cannot be made.
#[derive(Clone, Copy, Debug, PartialEq, Eq, Structural)]
pub enum GameError {
    /// The board is under five cells wide or high, or the players are neither one
    /// nor two.
    InvalidConfiguration,
}

/// A game of snake for one or two players on a fixed board.
pub struct SnakeGame {
    player1: VecDeque<Point>,
    player2: VecDeque<Point>,
    pub direction: Direction,
    pub direction2: Direction,
    growing: bool,
    growing2: bool,
    food: Point,
    height: u16,
    width: u16,
    score: u16,
    score2: u16,
    pub winner: u16,
    pub game_over: bool,
}

impl View for SnakeGame {
    type V = GameView;

    closed spec fn view(&self) -> GameView {
        GameView {
            body1: self.player1@,
            body2: self.player2@,
            direction: self.direction,
            direction2: self.direction2,
            growing: self.growing,
            growing2: self.growing2,
            food: self.food,
            width: self.width,
            height: self.height,
            score: self.score,
            score2: self.score2,
            winner: self.winner,
            game_over: self.game_over,
        }
    }
}

/// Relies on rand::Rng::gen_range on rand::thread_rng: a value in `low..high`; it
/// panics on an empty range.
#[verifier::external_body]
fn random_in(low: u16, high: u16) -> (r: u16)
    requires
        low < high,
    ensures
        low <= r < high,
{
    rand::Rng::gen_range(&mut rand::thread_rng(), low..high)
}

/// Whether `p` is one of the cells of `body` from index `from` on.
fn body_contains(body: &VecDeque<Point>, p: Point, from: usize) -> (r: bool)
    ensures
        r == (exists|i: int| from <= i < body@.len() && body@[i] == p),
{
    let mut i: usize = from;
    while i < body.len()
        invariant
            from <= i,
            forall|j: int| from <= j < i && j < body@.len() ==> body@[j] != p,
        decreases body@.len() - i,
    {
        if body[i] == p {
            assert(body@[i as int] == p);
            return true;
        }
        i = i + 1;
    }
    false
}

/// Moves the head of `body` to `head`, dropping the tail unless `grow` holds.
fn advance_body(body: &mut VecDeque<Point>, head: Point, grow: bool)
    requires
        old(body)@.len() >= 1,
    ensures
        final(body)@ == advance(old(body)@, head, grow),
{
    body.push_front(head);
    if !grow {
        let _ = body.pop_back();
        assert(body@ =~= seq![head] + old(body)@.drop_last());
    }
}

/// A deque holding the cells of `cells` in order.
fn deque_of(cells: &Vec<Point>) -> (r: VecDeque<Point>)
    ensures
        r@ == cells@,
{
    let mut r: VecDeque<Point> = VecDeque::new();
    let mut i: usize = 0;
    while i < cells.len()
        invariant
            i <= cells@.len(),
            r@ == cells@.subrange(0, i as int),
        decreases cells@.len() - i,
    {
        r.push_back(cells[i]);
        i = i + 1;
        assert(r@ =~= cells@.subrange(0, i as int));
    }
    assert(cells@.subrange(0, cells@.len() as int) =~= cells@);
    r
}

impl SnakeGame {
    /// Whether some snake lies on `p`.
    pub fn occupied(&self, p: Point) -> (r: bool)
        ensures
            r == self@.occupied(p),
    {
        body_contains(&self.player1, p, 0) || body_contains(&self.player2, p, 0)
    }

    /// Whether `p` may take food that a random pick proposed.
    fn fits_food(&self, p: Point) -> (r: bool)
        ensures
            r == self@.fits_food(p),
    {
        1 <= p.x && p.x < self.width && p.x + 1 < self.width && 1 <= p.y && p.y < self.height
            && p.y + 1 < self.height && !self.occupied(p)
    }

    /// The first cell of `picks` that fits food.
    fn first_fit(&self, picks: &Vec<Point>) -> (r: Option<Point>)
        ensures
            r == self@.first_fit(picks@),
    {
        let mut i: usize = 0;
        assert(picks@.subrange(0, picks@.len() as int) =~= picks@);
        while i < picks.len()
            invariant
                i <= picks@.len(),
                self@.first_fit(picks@) == self@.first_fit(
                    picks@.subrange(i as int, picks@.len() as int),
                ),
            decreases picks@.len() - i,
        {
            let p = picks[i];
            assert(picks@.subrange(i as int, picks@.len() as int).drop_first() =~= picks@.subrange(
                i + 1,
                picks@.len() as int,
            ));
            if self.fits_food(p) {
                return Some(p);
            }
            i = i + 1;
        }
        None
    }

    /// The first free cell of the board in row-major order.
    fn scan_free(&self) -> (r: Option<Point>)
        ensures
            r == self@.scan_from(0, 0),
    {
        let mut y: u16 = 0;
        while y < self.height
            invariant
                y <= self.height,
                self@.scan_from(0, 0) == self@.scan_from(y as int, 0),
            decreases self.height - y,
        {
            let mut x: u16 = 0;
            while x < self.width
                invariant
                    y < self.height,
                    x <= self.width,
                    self@.scan_from(0, 0) == self@.scan_from(y as int, x as int),
                decreases self.width - x,
            {
                let p = Point { x, y };
                if !self.occupied(p) {
                    return Some(p);
                }
                x = x + 1;
            }
            y = y + 1;
        }
        None
    }

    /// Where food goes: the first of `picks` that lies off the outermost ring and off
    /// every snake, else the first free cell in row-major order, else `None` when
    /// every cell is taken.
    pub fn choose_food(&self, picks: &Vec<Point>) -> (r: Option<Point>)
        ensures
            r == self@.food_choice(picks@),
    {
        match self.first_fit(picks) {
            Some(p) => Some(p),
            None => self.scan_free(),
        }
    }

    /// Moves the food where `choose_food` says; it stays where the board is full.
    fn gen_fruit(&mut self, picks: &Vec<Point>)
        ensures
            final(self)@ == old(self)@.respawned(picks@),
    {
        match self.choose_food(picks) {
            Some(p) => {
                self.food = p;
            },
            None => {},
        }
    }

    /// Moves the first snake one step along `direction`. In bounded mode (`border`) a
    /// step across an edge ends the game and leaves the snake where it is.
    fn move_snake(&mut self, border: bool)
        requires
            old(self)@.wf(),
        ensures
            final(self)@ == old(self)@.moved1(border),
    {
        let head = self.player1[0];
        match next_head(head, self.direction, border, self.width, self.height) {
            Some(h) => {
                advance_body(&mut self.player1, h, self.growing);
                self.growing = false;
            },
            None => {
                self.game_over = true;
            },
        }
    }


    /// Whether the first snake's head lies on one of its other cells.
    fn bites_itself(&self) -> (r: bool)
        requires
            self@.body1.len() >= 1,
        ensures
            r == hits_self(self@.body1),
    {
        body_contains(&self.player1, self.player1[0], 1)
    }

    /// Whether the second snake's head lies on one of its other cells.
    fn bites_itself2(&self) -> (r: bool)
        requires
            self@.body2.len() >= 1,
        ensures
            r == hits_self(self@.body2),
    {
        body_contains(&self.player2, self.player2[0], 1)
    }

    /// The first snake eats when its head is on the food: its score rises, it grows on
    /// the next tick, and the food moves.
    fn eat(&mut self, picks: &Vec<Point>)
        requires
            old(self)@.body1.len() >= 1,
            old(self)@.score < u16::MAX,
        ensures
            final(self)@ == old(self)@.fed(picks@),
    {
        if self.player1[0] == self.food {
            self.score = self.score + 1;
            self.growing = true;
            self.gen_fruit(picks);
        }
    }

    /// The second snake eats when its head is on the food.
    fn eat2(&mut self, picks: &Vec<Point>)
        requires
            old(self)@.body2.len() >= 1,
            old(self)@.score2 < u16::MAX,
        ensures
            final(self)@ == old(self)@.fed2(picks@),
    {
        if self.player2[0] == self.food {
            self.score2 = self.score2 + 1;
            self.growing2 = true;
            self.gen_fruit(picks);
        }
    }

    /// Ends the game once a score equals the number of cells of the board.
    fn check_board_filled(&mut self, two: bool)
        ensures
            final(self)@ == old(self)@.board_checked(two),
    {
        let w: u32 = self.width as u32;
        let h: u32 = self.height as u32;
        proof {
            vstd::arithmetic::mul::lemma_mul_upper_bound(w as int, 0xFFFF, h as int, 0xFFFF);
        }
        let cells: u32 = w * h;
        if self.score as u32 == cells || (two && self.score2 as u32 == cells) {
            self.game_over = true;
        }
    }


    /// One tick of a game of one player, with `picks` as the random cells that food
    /// may go to. The snake moves; in bounded mode a wall ends the game and nothing
    /// else happens. Otherwise the game ends when the head lies on the body; when the
    /// head reaches the food the score rises by one, the snake grows on the next
    /// tick and the food moves (see `choose_food`); a score equal to the number of
    /// cells ends the game.
    pub fn tick_with(&mut self, border: bool, picks: &Vec<Point>)
        requires
            old(self)@.wf(),
            !old(self)@.game_over,
            old(self)@.score < u16::MAX,
        ensures
            final(self)@ == old(self)@.single_tick(border, picks@),
            final(self)@.wf(),
            in_board(final(self)@.body1[0], final(self)@.width, final(self)@.height),
            old(self)@.body1.len() <= final(self)@.body1.len() <= old(self)@.body1.len() + 1,
            forall|q: Point|
                old(self)@.step1(border) == Some(old(self)@.food) && #[trigger] final(self)@.free_cell(q) ==> final(self)@.free_cell(final(self)@.food),
    {
        proof {
            law_length(self@, border, picks@);
            assert forall|q: Point|
                old(self)@.step1(border) == Some(old(self)@.food) && #[trigger] old(self)@.single_tick(border, picks@).free_cell(q) implies old(self)@.single_tick(
                border,
                picks@,
            ).free_cell(old(self)@.single_tick(border, picks@).food) by {
                law_food_respawns_free(old(self)@, border, picks@, q);
            }
        }
        proof {
            lemma_single_tick_wf(self@, border, picks@);
            lemma_step_in_board(self@.body1[0], self@.direction, border, self@.width, self@.height);
        }
        self.move_snake(border);
        if self.game_over {
            return;
        }
        proof {
            let h = old(self)@.step1(border)->Some_0;
            lemma_advance_in_board(old(self)@.body1, h, old(self)@.growing, self@.width, self@.height);
        }
        self.game_over = self.bites_itself();
        self.eat(picks);
        self.check_board_filled(false);
    }

    /// One tick of a game of two players, with `picks` as the random cells that food
    /// may go to. The first snake moves, then the second. In bounded mode a wall ends
    /// the game and the other player wins; when the second snake hits it, the first
    /// has moved and still eats. Otherwise the two are judged (see `collision`), each
    /// eats in turn as in `tick_with`, and a score equal to the number of cells ends
    /// the game.
    pub fn multiplayer_tick_with(&mut self, border: bool, picks: &Vec<Point>)
        requires
            old(self)@.wf(),
            old(self)@.two_players(),
            !old(self)@.game_over,
            old(self)@.score < u16::MAX,
            old(self)@.score2 < u16::MAX,
        ensures
            final(self)@ == old(self)@.two_tick(border, picks@),
            final(self)@.wf(),
            final(self)@.two_players(),
            in_board(final(self)@.body1[0], final(self)@.width, final(self)@.height),
            in_board(final(self)@.body2[0], final(self)@.width, final(self)@.height),
            forall|q: Point|
                (old(self)@.step1(border) == Some(old(self)@.food) || (old(self)@.step1(border) is Some
                    && old(self)@.moved1(border).step2(border) == Some(old(self)@.food)))
                    && #[trigger] final(self)@.free_cell(q) ==> final(self)@.free_cell(
                    final(self)@.food,
                ),
    {
        proof {
            assert forall|q: Point|
                (old(self)@.step1(border) == Some(old(self)@.food) || (old(self)@.step1(border) is Some
                    && old(self)@.moved1(border).step2(border) == Some(old(self)@.food)))
                    && #[trigger] old(self)@.two_tick(border, picks@).free_cell(q) implies old(self)@.two_tick(border, picks@).free_cell(old(self)@.two_tick(border, picks@).food) by {
                law_two_food_respawns_free(old(self)@, border, picks@, q);
            }
        }
        proof {
            lemma_two_tick_wf(self@, border, picks@);
            lemma_step_in_board(self@.body1[0], self@.direction, border, self@.width, self@.height);
        }
        self.move_snake(border);
        if self.game_over {
            self.winner = PLAYER_TWO;
            return;
        }
        proof {
            let h = old(self)@.step1(border)->Some_0;
            lemma_advance_in_board(old(self)@.body1, h, old(self)@.growing, self@.width, self@.height);
            lemma_step_in_board(self@.body2[0], self@.direction2, border, self@.width, self@.height);
        }
        let ghost a = self@;
        self.multiplayer_move_snake(border);
        if self.game_over {
            // The first snake moved before the second reached the wall, so it still
            // eats; the game ends after that.
            self.game_over = false;
            self.eat(picks);
            self.check_board_filled(true);
            self.game_over = true;
            self.winner = PLAYER_ONE;
            return;
        }
        proof {
            let h2 = a.step2(border)->Some_0;
            lemma_advance_in_board(a.body2, h2, a.growing2, self@.width, self@.height);
        }
        self.collision();
        self.eat(picks);
        self.eat2(picks);
        self.check_board_filled(true);
    }

    /// `FOOD_ATTEMPTS` random cells off the outermost ring of the board.
    pub fn food_picks(&self) -> (r: Vec<Point>)
        requires
            self@.wf(),
        ensures
            r@.len() == FOOD_ATTEMPTS,
            forall|i: int| 0 <= i < r@.len() ==> interior(#[trigger] r@[i], self@.width, self@.height),
    {
        let mut r: Vec<Point> = Vec::new();
        let mut i: usize = 0;
        while i < FOOD_ATTEMPTS
            invariant
                self@.wf(),
                i <= FOOD_ATTEMPTS,
                r@.len() == i,
                forall|j: int| 0 <= j < r@.len() ==> interior(#[trigger] r@[j], self@.width, self@.height),
            decreases FOOD_ATTEMPTS - i,
        {
            let x = random_in(1, self.width - 1);
            let y = random_in(1, self.height - 1);
            r.push(Point { x, y });
            i = i + 1;
        }
        r
    }

    /// One tick of a game of one player, with food placed at random: `tick_with` on
    /// `FOOD_ATTEMPTS` random cells off the outermost ring.
    pub fn update(&mut self, border: bool)
        requires
            old(self)@.wf(),
            !old(self)@.game_over,
            old(self)@.score < u16::MAX,
        ensures
            final(self)@.wf(),
            in_board(final(self)@.body1[0], final(self)@.width, final(self)@.height),
            old(self)@.body1.len() <= final(self)@.body1.len() <= old(self)@.body1.len() + 1,
            forall|q: Point|
                old(self)@.step1(border) == Some(old(self)@.food) && #[trigger] final(self)@.free_cell(q) ==> final(self)@.free_cell(final(self)@.food),
            exists|picks: Seq<Point>|
                {
                    &&& picks.len() == FOOD_ATTEMPTS
                    &&& forall|i: int|
                        0 <= i < picks.len() ==> interior(
                            #[trigger] picks[i],
                            old(self)@.width,
                            old(self)@.height,
                        )
                    &&& final(self)@ == old(self)@.single_tick(border, picks)
                },
    {
        let picks = self.food_picks();
        self.tick_with(border, &picks);
    }


    /// A game with the given bodies (head first; an empty `player2` for one player)
    /// and food. Both snakes head `Left`, nothing is pending, scores are zero and the
    /// game is running.
    pub fn from_parts(width: u16, height: u16, player1: Vec<Point>, player2: Vec<Point>, food: Point) -> (g: Self)
        requires
            width >= 5,
            height >= 5,
            player1@.len() >= 1,
            all_in_board(player1@, width, height),
            all_in_board(player2@, width, height),
            in_board(food, width, height),
        ensures
            g@ == (GameView {
                body1: player1@,
                body2: player2@,
                direction: Direction::Left,
                direction2: Direction::Left,
                growing: false,
                growing2: false,
                food,
                width,
                height,
                score: 0,
                score2: 0,
                winner: NO_WINNER,
                game_over: false,
            }),
            g@.wf(),
    {
        SnakeGame {
            player1: deque_of(&player1),
            player2: deque_of(&player2),
            direction: Direction::Left,
            direction2: Direction::Left,
            growing: false,
            growing2: false,
            food,
            height,
            width,
            score: 0,
            score2: 0,
            winner: NO_WINNER,
            game_over: false,
        }
    }

    /// Puts the food on a free cell, drawn at random off the outermost ring where one
    /// of `FOOD_ATTEMPTS` draws fits, else the first free cell.
    fn place_first_food(&mut self)
        requires
            old(self)@.wf(),
            old(self)@.free_cell(Point { x: 0, y: 0 }),
        ensures
            final(self)@ == (GameView { food: final(self)@.food, ..old(self)@ }),
            final(self)@.wf(),
            final(self)@.free_cell(final(self)@.food),
            exists|picks: Seq<Point>|
                {
                    &&& picks.len() == FOOD_ATTEMPTS
                    &&& forall|i: int|
                        0 <= i < picks.len() ==> interior(#[trigger] picks[i], old(self)@.width, old(self)@.height)
                    &&& old(self)@.food_choice(picks) == Some(final(self)@.food)
                },
    {
        let picks = self.food_picks();
        proof {
            crate::model::lemma_food_choice(self@, picks@);
        }
        match self.choose_food(&picks) {
            Some(p) => {
                self.food = p;
            },
            None => {},
        }
    }

    /// A game of one player on a `width` x `height` board: a snake of three cells in
    /// the middle row from the middle column rightwards, heading `Left`, and food where
    /// `choose_food` puts it for `FOOD_ATTEMPTS` random cells off the outermost ring.
    pub fn new(width: u16, height: u16) -> (g: Self)
        requires
            width >= 5,
            height >= 5,
        ensures
            g@ == (GameView { food: g@.food, ..start_spec(width, height, false) }),
            g@.wf(),
            g@.free_cell(g@.food),
            exists|picks: Seq<Point>|
                {
                    &&& picks.len() == FOOD_ATTEMPTS
                    &&& forall|i: int|
                        0 <= i < picks.len() ==> interior(#[trigger] picks[i], width, height)
                    &&& start_spec(width, height, false).food_choice(picks) == Some(g@.food)
                },
    {
        let row = height / 2;
        let col = width / 2;
        let mut player1: Vec<Point> = Vec::new();
        player1.push(Point { x: col, y: row });
        player1.push(Point { x: col + 1, y: row });
        player1.push(Point { x: col + 2, y: row });
        let player2: Vec<Point> = Vec::new();
        let mut g = SnakeGame::from_parts(width, height, player1, player2, Point { x: 0, y: 0 });
        assert(g@.body1 =~= seq![
            Point { x: col, y: row },
            Point { x: (col + 1) as u16, y: row },
            Point { x: (col + 2) as u16, y: row },
        ]);
        assert(!g@.occupied(Point { x: 0, y: 0 }));
        g.place_first_food();
        g
    }


    /// Turns player `player` (1 or 2) towards `requested`, unless that is the
    /// opposite of its current heading, which is ignored.
    pub fn set_direction(&mut self, player: u8, requested: Direction)
        requires
            player == 1 || player == 2,
        ensures
            player == 1 ==> final(self)@ == (GameView {
                direction: if requested == opposite_spec(old(self)@.direction) {
                    old(self)@.direction
                } else {
                    requested
                },
                ..old(self)@
            }),
            player == 2 ==> final(self)@ == (GameView {
                direction2: if requested == opposite_spec(old(self)@.direction2) {
                    old(self)@.direction2
                } else {
                    requested
                },
                ..old(self)@
            }),
    {
        if player == 1 {
            if requested != self.direction.opposite() {
                self.direction = requested;
            }
        } else {
            if requested != self.direction2.opposite() {
                self.direction2 = requested;
            }
        }
    }

    /// Sets the two scores, leaving everything else.
    pub fn set_scores(&mut self, score: u16, score2: u16)
        ensures
            final(self)@ == (GameView { score, score2, ..old(self)@ }),
    {
        self.score = score;
        self.score2 = score2;
    }

    /// Whether the game has ended.
    pub fn is_terminal(&self) -> (r: bool)
        ensures
            r == self@.game_over,
    {
        self.game_over
    }

    /// The outcome: `NO_WINNER`, `PLAYER_ONE`, `PLAYER_TWO` or `DRAW`.
    pub fn winner(&self) -> (r: u16)
        ensures
            r == self@.winner,
    {
        self.winner
    }

    /// The score announced with the outcome of a game of two players: the first
    /// player's when the first player won, else the second player's.
    pub fn winner_score(&self) -> (r: u16)
        ensures
            r == if self@.winner == PLAYER_ONE {
                self@.score
            } else {
                self@.score2
            },
    {
        if self.winner == PLAYER_ONE {
            self.score
        } else {
            self.score2
        }
    }

    /// The score of player `player` (1 or 2).
    pub fn score(&self, player: u8) -> (r: u16)
        ensures
            r == if player == 2 {
                self@.score2
            } else {
                self@.score
            },
    {
        if player == 2 {
            self.score2
        } else {
            self.score
        }
    }

    /// The cell that holds the food.
    pub fn food(&self) -> (r: Point)
        ensures
            r == self@.food,
    {
        self.food
    }

    /// The board's width.
    pub fn width(&self) -> (r: u16)
        ensures
            r == self@.width,
    {
        self.width
    }

    /// The board's height.
    pub fn height(&self) -> (r: u16)
        ensures
            r == self@.height,
    {
        self.height
    }

    /// Whether player `player` (1 or 2) grows on the next tick.
    pub fn is_growing(&self, player: u8) -> (r: bool)
        ensures
            r == if player == 2 {
                self@.growing2
            } else {
                self@.growing
            },
    {
        if player == 2 {
            self.growing2
        } else {
            self.growing
        }
    }

    /// The cells of player `player` (1 or 2), head first.
    pub fn body(&self, player: u8) -> (r: Vec<Point>)
        ensures
            r@ == if player == 2 {
                self@.body2
            } else {
                self@.body1
            },
    {
        let b = if player == 2 {
            &self.player2
        } else {
            &self.player1
        };
        let mut r: Vec<Point> = Vec::new();
        let mut i: usize = 0;
        while i < b.len()
            invariant
                i <= b@.len(),
                r@ == b@.subrange(0, i as int),
            decreases b@.len() - i,
        {
            r.push(b[i]);
            i = i + 1;
            assert(r@ =~= b@.subrange(0, i as int));
        }
        assert(b@.subrange(0, b@.len() as int) =~= b@);
        r
    }

    /// What a screen shows: each cell of the first snake, then of the second, then
    /// the food, each with its glyph.
    pub fn render_snapshot(&self) -> (r: Vec<(Point, Glyph)>)
        ensures
            r@ == snapshot_spec(self@),
    {
        let mut r: Vec<(Point, Glyph)> = Vec::new();
        let mut i: usize = 0;
        while i < self.player1.len()
            invariant
                i <= self@.body1.len(),
                r@ == glyphs(self@.body1, Glyph::Head1, Glyph::Body1).subrange(0, i as int),
            decreases self@.body1.len() - i,
        {
            let g = if i == 0 {
                Glyph::Head1
            } else {
                Glyph::Body1
            };
            r.push((self.player1[i], g));
            i = i + 1;
            assert(r@ =~= glyphs(self@.body1, Glyph::Head1, Glyph::Body1).subrange(0, i as int));
        }
        let ghost first = r@;
        assert(first =~= glyphs(self@.body1, Glyph::Head1, Glyph::Body1));
        let mut j: usize = 0;
        while j < self.player2.len()
            invariant
                j <= self@.body2.len(),
                first == glyphs(self@.body1, Glyph::Head1, Glyph::Body1),
                r@ == first + glyphs(self@.body2, Glyph::Head2, Glyph::Body2).subrange(0, j as int),
            decreases self@.body2.len() - j,
        {
            let g = if j == 0 {
                Glyph::Head2
            } else {
                Glyph::Body2
            };
            r.push((self.player2[j], g));
            j = j + 1;
            assert(r@ =~= first + glyphs(self@.body2, Glyph::Head2, Glyph::Body2).subrange(0, j as int));
        }
        assert(glyphs(self@.body2, Glyph::Head2, Glyph::Body2).subrange(0, self@.body2.len() as int)
            =~= glyphs(self@.body2, Glyph::Head2, Glyph::Body2));
        r.push((self.food, Glyph::Food));
        r
    }
}

/// The game of two players.
pub trait Multiplayer: Sized {
    /// The game's state as the contracts see it.
    spec fn state(&self) -> GameView;

    /// Moves the second snake one step along `direction2`, as `move_snake` does the
    /// first.
    fn multiplayer_move_snake(&mut self, border: bool)
        requires
            old(self).state().wf(),
            old(self).state().two_players(),
        ensures
            final(self).state() == old(self).state().moved2(border),
    ;

    /// Judges the two snakes after both moved: sets `game_over` and `winner` when a
    /// head lies inside a body (see `GameView::judged`).
    fn collision(&mut self)
        requires
            old(self).state().body1.len() >= 1,
            old(self).state().body2.len() >= 1,
        ensures
            final(self).state() == old(self).state().judged(),
    ;

    /// One tick of a game of two players, with food placed at random:
    /// `multiplayer_tick_with` on `FOOD_ATTEMPTS` random cells off the outermost ring.
    fn multiplayer_update(&mut self, border: bool)
        requires
            old(self).state().wf(),
            old(self).state().two_players(),
            !old(self).state().game_over,
            old(self).state().score < u16::MAX,
            old(self).state().score2 < u16::MAX,
        ensures
            final(self).state().wf(),
            final(self).state().two_players(),
            in_board(final(self).state().body1[0], final(self).state().width, final(self).state().height),
            in_board(final(self).state().body2[0], final(self).state().width, final(self).state().height),
            forall|q: Point|
                (old(self).state().step1(border) == Some(old(self).state().food) || (old(self).state().step1(border) is Some
                    && old(self).state().moved1(border).step2(border) == Some(old(self).state().food)))
                    && #[trigger] final(self).state().free_cell(q) ==> final(self).state().free_cell(
                    final(self).state().food,
                ),
            exists|picks: Seq<Point>|
                {
                    &&& picks.len() == FOOD_ATTEMPTS
                    &&& forall|i: int|
                        0 <= i < picks.len() ==> interior(
                            #[trigger] picks[i],
                            old(self).state().width,
                            old(self).state().height,
                        )
                    &&& final(self).state() == old(self).state().two_tick(border, picks)
                },
    ;

    /// A game of two players on a `width` x `height` board: two snakes of three cells
    /// from the middle column rightwards, the first in the row above the middle one
    /// and the second in the row below it, both heading `Left`, and food where
    /// `choose_food` puts it for `FOOD_ATTEMPTS` random cells off the outermost ring.
    fn multiplayer_new(width: u16, height: u16) -> (g: Self)
        requires
            width >= 5,
            height >= 5,
        ensures
            g.state() == (GameView { food: g.state().food, ..start_spec(width, height, true) }),
            g.state().wf(),
            g.state().two_players(),
            g.state().free_cell(g.state().food),
            exists|picks: Seq<Point>|
                {
                    &&& picks.len() == FOOD_ATTEMPTS
                    &&& forall|i: int|
                        0 <= i < picks.len() ==> interior(#[trigger] picks[i], width, height)
                    &&& start_spec(width, height, true).food_choice(picks) == Some(g.state().food)
                },
    ;
}

impl Multiplayer for SnakeGame {
    open spec fn state(&self) -> GameView {
        self@
    }

    fn multiplayer_move_snake(&mut self, border: bool) {
        let head = self.player2[0];
        match next_head(head, self.direction2, border, self.width, self.height) {
            Some(h) => {
                advance_body(&mut self.player2, h, self.growing2);
                self.growing2 = false;
            },
            None => {
                self.game_over = true;
            },
        }
    }

    fn collision(&mut self) {
        let head1 = self.player1[0];
        let head2 = self.player2[0];
        let self1 = self.bites_itself();
        let self2 = self.bites_itself2();
        let into2 = body_contains(&self.player2, head1, 0);
        let into1 = body_contains(&self.player1, head2, 0);
        proof {
            if into2 {
                let i = choose|i: int| 0 <= i < self@.body2.len() && self@.body2[i] == head1;
                assert(self@.body2[i] == head1);
            }
            if into1 {
                let i = choose|i: int| 0 <= i < self@.body1.len() && self@.body1[i] == head2;
                assert(self@.body1[i] == head2);
            }
        }
        if self1 && self2 {
            self.game_over = true;
            self.winner = DRAW;
        } else if self1 {
            self.game_over = true;
            self.winner = PLAYER_TWO;
        } else if self2 {
            self.game_over = true;
            self.winner = PLAYER_ONE;
        } else if head1 == head2 {
            self.game_over = true;
            self.winner = if self.score > self.score2 {
                PLAYER_ONE
            } else if self.score2 > self.score {
                PLAYER_TWO
            } else {
                DRAW
            };
        } else if into2 && into1 {
            self.game_over = true;
            self.winner = DRAW;
        } else if into2 {
            self.game_over = true;
            self.winner = PLAYER_TWO;
        } else if into1 {
            self.game_over = true;
            self.winner = PLAYER_ONE;
        }
    }

    fn multiplayer_update(&mut self, border: bool) {
        let picks = self.food_picks();
        self.multiplayer_tick_with(border, &picks);
    }

    fn multiplayer_new(width: u16, height: u16) -> (g: Self) {
        let top = height / 2 - 1;
        let bottom = height / 2 + 1;
        let col = width / 2;
        let mut player1: Vec<Point> = Vec::new();
        player1.push(Point { x: col, y: top });
        player1.push(Point { x: col + 1, y: top });
        player1.push(Point { x: col + 2, y: top });
        let mut player2: Vec<Point> = Vec::new();
        player2.push(Point { x: col, y: bottom });
        player2.push(Point { x: col + 1, y: bottom });
        player2.push(Point { x: col + 2, y: bottom });
        let mut g = SnakeGame::from_parts(width, height, player1, player2, Point { x: 0, y: 0 });
        assert(g@.body1 =~= seq![
            Point { x: col, y: top },
            Point { x: (col + 1) as u16, y: top },
            Point { x: (col + 2) as u16, y: top },
        ]);
        assert(g@.body2 =~= seq![
            Point { x: col, y: bottom },
            Point { x: (col + 1) as u16, y: bottom },
            Point { x: (col + 2) as u16, y: bottom },
        ]);
        assert(!g@.occupied(Point { x: 0, y: 0 }));
        g.place_first_food();
        g
    }
}

/// A new game of `players` players on a `width` x `height` board (see
/// `SnakeGame::new` and `Multiplayer::multiplayer_new`); a board under five cells
/// wide or high, or a count of players other than one or two, is refused.
pub fn create(width: u16, height: u16, players: u8) -> (r: Result<SnakeGame, GameError>)
    ensures
        r is Err <==> (width < 5 || height < 5 || (players != 1 && players != 2)),
        r matches Err(e) ==> e == GameError::InvalidConfiguration,
        r matches Ok(g) ==> {
            &&& g@ == (GameView { food: g@.food, ..start_spec(width, height, players == 2) })
            &&& g@.wf()
            &&& g@.free_cell(g@.food)
        },
{
    if width < 5 || height < 5 || (players != 1 && players != 2) {
        Err(GameError::InvalidConfiguration)
    } else if players == 2 {
        Ok(SnakeGame::multiplayer_new(width, height))
    } else {
        Ok(SnakeGame::new(width, height))
    }
}

} // verus!
