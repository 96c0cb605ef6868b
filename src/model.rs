use vstd::prelude::*;

use crate::board::{in_board, interior, step_spec, Direction, Point};

verus! {

/// `winner` before any outcome.
pub const NO_WINNER: u16 = 0;

/// `winner` when the first player won.
pub const PLAYER_ONE: u16 = 1;

/// `winner` when the second player won.
pub const PLAYER_TWO: u16 = 2;

/// `winner` when neither player won.
pub const DRAW: u16 = 3;

/// What a cell shows on screen.
#[derive(Clone, Copy, Debug, PartialEq, Eq, Structural)]
pub enum Glyph {
    Head1,
    Body1,
    Head2,
    Body2,
    Food,
}

/// The cells of `body`, the first tagged `head` and the others `rest`.
pub open spec fn glyphs(body: Seq<Point>, head: Glyph, rest: Glyph) -> Seq<(Point, Glyph)> {
    body.map(|i: int, p: Point| (p, if i == 0 { head } else { rest }))
}

/// Everything a screen shows of `g`, in drawing order.
pub open spec fn snapshot_spec(g: GameView) -> Seq<(Point, Glyph)> {
    glyphs(g.body1, Glyph::Head1, Glyph::Body1) + glyphs(g.body2, Glyph::Head2, Glyph::Body2)
        + seq![(g.food, Glyph::Food)]
}

/// The mathematical state of a game. A body lists its cells head first; the second
/// body is empty in a game of one player.
pub struct GameView {
    pub body1: Seq<Point>,
    pub body2: Seq<Point>,
    pub direction: Direction,
    pub direction2: Direction,
    pub growing: bool,
    pub growing2: bool,
    pub food: Point,
    pub width: u16,
    pub height: u16,
    pub score: u16,
    pub score2: u16,
    pub winner: u16,
    pub game_over: bool,
}

/// Every cell of `body` lies on the board.
pub open spec fn all_in_board(body: Seq<Point>, width: u16, height: u16) -> bool {
    forall|i: int| 0 <= i < body.len() ==> in_board(#[trigger] body[i], width, height)
}

/// `body` after its head moved to `head`: the tail stays where `grow` holds.
pub open spec fn advance(body: Seq<Point>, head: Point, grow: bool) -> Seq<Point> {
    if grow {
        seq![head] + body
    } else {
        seq![head] + body.drop_last()
    }
}

/// The head of `body` lies on one of its other cells.
pub open spec fn hits_self(body: Seq<Point>) -> bool {
    exists|i: int| 1 <= i < body.len() && #[trigger] body[i] == body[0]
}

/// The winner of a head-on meeting: the higher score, or a draw.
pub open spec fn by_score(score: u16, score2: u16) -> u16 {
    if score > score2 {
        PLAYER_ONE
    } else if score2 > score {
        PLAYER_TWO
    } else {
        DRAW
    }
}

/// Three cells in row `y`, from the middle column rightwards.
pub open spec fn start_line(width: u16, y: int) -> Seq<Point> {
    seq![
        Point { x: width / 2, y: y as u16 },
        Point { x: (width / 2 + 1) as u16, y: y as u16 },
        Point { x: (width / 2 + 2) as u16, y: y as u16 },
    ]
}

/// A new game but for its food. One snake lies in the middle row; two lie in the
/// rows above and below it. All head `Left`; nothing is pending, scores are zero and
/// the game is running.
pub open spec fn start_spec(width: u16, height: u16, two: bool) -> GameView {
    GameView {
        body1: if two {
            start_line(width, height as int / 2 - 1)
        } else {
            start_line(width, height as int / 2)
        },
        body2: if two {
            start_line(width, height as int / 2 + 1)
        } else {
            Seq::empty()
        },
        direction: Direction::Left,
        direction2: Direction::Left,
        growing: false,
        growing2: false,
        food: Point { x: 0, y: 0 },
        width,
        height,
        score: 0,
        score2: 0,
        winner: NO_WINNER,
        game_over: false,
    }
}

impl GameView {
    /// The invariant of every game: a board of at least five by five cells, a first
    /// snake of at least one cell, and all cells on the board.
    pub open spec fn wf(self) -> bool {
        &&& self.width >= 5
        &&& self.height >= 5
        &&& self.body1.len() >= 1
        &&& all_in_board(self.body1, self.width, self.height)
        &&& all_in_board(self.body2, self.width, self.height)
        &&& in_board(self.food, self.width, self.height)
    }

    pub open spec fn two_players(self) -> bool {
        self.body2.len() > 0
    }

    /// Some snake lies on `p`.
    pub open spec fn occupied(self, p: Point) -> bool {
        self.body1.contains(p) || self.body2.contains(p)
    }

    /// `p` is a cell of the board that no snake lies on.
    pub open spec fn free_cell(self, p: Point) -> bool {
        in_board(p, self.width, self.height) && !self.occupied(p)
    }

    /// `p` is a free cell off the outermost ring: where a random pick may put food.
    pub open spec fn fits_food(self, p: Point) -> bool {
        interior(p, self.width, self.height) && !self.occupied(p)
    }

    /// The first of `picks` that fits food.
    pub open spec fn first_fit(self, picks: Seq<Point>) -> Option<Point>
        decreases picks.len(),
    {
        if picks.len() == 0 {
            None
        } else if self.fits_food(picks[0]) {
            Some(picks[0])
        } else {
            self.first_fit(picks.drop_first())
        }
    }

    /// The first free cell in row-major order, from column `x` of row `y` on.
    pub open spec fn scan_from(self, y: int, x: int) -> Option<Point>
        decreases self.height - y, self.width - x,
    {
        if y < 0 || x < 0 || y >= self.height {
            None
        } else if x >= self.width {
            self.scan_from(y + 1, 0)
        } else if self.free_cell(Point { x: x as u16, y: y as u16 }) {
            Some(Point { x: x as u16, y: y as u16 })
        } else {
            self.scan_from(y, x + 1)
        }
    }

    /// Where food goes: the first pick that fits, else the first free cell, else
    /// nowhere (the board is full).
    pub open spec fn food_choice(self, picks: Seq<Point>) -> Option<Point> {
        match self.first_fit(picks) {
            Some(p) => Some(p),
            None => self.scan_from(0, 0),
        }
    }

    /// The state with its food moved as `food_choice` says.
    pub open spec fn respawned(self, picks: Seq<Point>) -> GameView {
        match self.food_choice(picks) {
            Some(p) => GameView { food: p, ..self },
            None => self,
        }
    }

    /// The first snake eats when its head reaches the food.
    pub open spec fn fed(self, picks: Seq<Point>) -> GameView {
        if self.body1[0] == self.food {
            GameView { score: (self.score + 1) as u16, growing: true, ..self }.respawned(picks)
        } else {
            self
        }
    }

    /// The second snake eats when its head reaches the food.
    pub open spec fn fed2(self, picks: Seq<Point>) -> GameView {
        if self.body2[0] == self.food {
            GameView { score2: (self.score2 + 1) as u16, growing2: true, ..self }.respawned(picks)
        } else {
            self
        }
    }

    /// A score that equals the number of cells ends the game: the first player's,
    /// and with `two` the second player's too.
    pub open spec fn board_checked(self, two: bool) -> GameView {
        if self.score as int == self.width as int * self.height as int || (two && self.score2 as int
            == self.width as int * self.height as int) {
            GameView { game_over: true, ..self }
        } else {
            self
        }
    }

    /// The first snake's move: `None` where it would cross a wall.
    pub open spec fn step1(self, border: bool) -> Option<Point> {
        step_spec(self.body1[0], self.direction, border, self.width, self.height)
    }

    /// The second snake's move: `None` where it would cross a wall.
    pub open spec fn step2(self, border: bool) -> Option<Point> {
        step_spec(self.body2[0], self.direction2, border, self.width, self.height)
    }

    /// The first snake after its move; at a wall the game ends and it stays.
    pub open spec fn moved1(self, border: bool) -> GameView {
        match self.step1(border) {
            Some(head) => GameView {
                body1: advance(self.body1, head, self.growing),
                growing: false,
                ..self
            },
            None => GameView { game_over: true, ..self },
        }
    }

    /// The second snake after its move; at a wall the game ends and it stays.
    pub open spec fn moved2(self, border: bool) -> GameView {
        match self.step2(border) {
            Some(head) => GameView {
                body2: advance(self.body2, head, self.growing2),
                growing2: false,
                ..self
            },
            None => GameView { game_over: true, ..self },
        }
    }

    /// The outcome of the two snakes' positions after both moved. A snake inside its
    /// own body loses; else heads on one cell go by score; else a head inside the
    /// other snake loses; a fault on both sides is a draw.
    pub open spec fn judged(self) -> GameView {
        let self1 = hits_self(self.body1);
        let self2 = hits_self(self.body2);
        let head_on = self.body1[0] == self.body2[0];
        let into2 = self.body2.contains(self.body1[0]);
        let into1 = self.body1.contains(self.body2[0]);
        if self1 && self2 {
            GameView { game_over: true, winner: DRAW, ..self }
        } else if self1 {
            GameView { game_over: true, winner: PLAYER_TWO, ..self }
        } else if self2 {
            GameView { game_over: true, winner: PLAYER_ONE, ..self }
        } else if head_on {
            GameView { game_over: true, winner: by_score(self.score, self.score2), ..self }
        } else if into2 && into1 {
            GameView { game_over: true, winner: DRAW, ..self }
        } else if into2 {
            GameView { game_over: true, winner: PLAYER_TWO, ..self }
        } else if into1 {
            GameView { game_over: true, winner: PLAYER_ONE, ..self }
        } else {
            self
        }
    }

    /// One tick of a game of one player, with `picks` as the random food cells.
    pub open spec fn single_tick(self, border: bool, picks: Seq<Point>) -> GameView {
        let m = self.moved1(border);
        if self.step1(border) is None {
            m
        } else {
            GameView { game_over: hits_self(m.body1), ..m }.fed(picks).board_checked(false)
        }
    }

    /// One tick of a game of two players, with `picks` as the random food cells.
    pub open spec fn two_tick(self, border: bool, picks: Seq<Point>) -> GameView {
        let a = self.moved1(border);
        if self.step1(border) is None {
            GameView { winner: PLAYER_TWO, ..a }
        } else if a.step2(border) is None {
            GameView { game_over: true, winner: PLAYER_ONE, ..a.fed(picks).board_checked(true) }
        } else {
            a.moved2(border).judged().fed(picks).fed2(picks).board_checked(true)
        }
    }
}

/// A step from a cell of the board stays on the board; without walls it always
/// succeeds.
pub proof fn lemma_step_in_board(p: Point, d: Direction, border: bool, width: u16, height: u16)
    requires
        in_board(p, width, height),
    ensures
        step_spec(p, d, border, width, height) matches Some(q) ==> in_board(q, width, height),
        !border ==> step_spec(p, d, border, width, height) is Some,
{
}

/// Moving a body whose cells lie on the board to a head on the board keeps every
/// cell on the board.
pub proof fn lemma_advance_in_board(body: Seq<Point>, head: Point, grow: bool, width: u16, height: u16)
    requires
        all_in_board(body, width, height),
        in_board(head, width, height),
        body.len() >= 1,
    ensures
        all_in_board(advance(body, head, grow), width, height),
        advance(body, head, grow).len() == body.len() + if grow { 1int } else { 0int },
        advance(body, head, grow)[0] == head,
{
    let b = advance(body, head, grow);
    assert forall|i: int| 0 <= i < b.len() implies in_board(#[trigger] b[i], width, height) by {
        if i > 0 {
            assert(b[i] == body[i - 1]);
        }
    }
}

/// A cell that `first_fit` returns fits food.
pub proof fn lemma_first_fit(g: GameView, picks: Seq<Point>)
    ensures
        g.first_fit(picks) matches Some(p) ==> g.fits_food(p),
    decreases picks.len(),
{
    if picks.len() > 0 && !g.fits_food(picks[0]) {
        lemma_first_fit(g, picks.drop_first());
    }
}

/// A cell that the scan returns is free.
pub proof fn lemma_scan_some(g: GameView, y: int, x: int)
    ensures
        g.scan_from(y, x) matches Some(p) ==> g.free_cell(p),
    decreases g.height - y, g.width - x,
{
    if y < 0 || x < 0 || y >= g.height {
    } else if x >= g.width {
        lemma_scan_some(g, y + 1, 0);
    } else if g.free_cell(Point { x: x as u16, y: y as u16 }) {
    } else {
        lemma_scan_some(g, y, x + 1);
    }
}

/// The scan finds nothing only where every cell from column `x` of row `y` on is
/// taken.
pub proof fn lemma_scan_none(g: GameView, y: int, x: int, q: Point)
    requires
        0 <= y,
        0 <= x,
        g.scan_from(y, x) is None,
        in_board(q, g.width, g.height),
        q.y > y || (q.y == y && q.x >= x),
    ensures
        g.occupied(q),
    decreases g.height - y, g.width - x,
{
    if y >= g.height {
    } else if x >= g.width {
        lemma_scan_none(g, y + 1, 0, q);
    } else if q.y == y && q.x == x {
    } else {
        lemma_scan_none(g, y, x + 1, q);
    }
}

/// Where food goes lies on the board and off every snake; it is missing only when
/// no free cell is left.
pub proof fn lemma_food_choice(g: GameView, picks: Seq<Point>)
    ensures
        g.food_choice(picks) matches Some(p) ==> g.free_cell(p),
        g.food_choice(picks) is None ==> forall|q: Point|
            in_board(q, g.width, g.height) ==> #[trigger] g.occupied(q),
{
    lemma_first_fit(g, picks);
    lemma_scan_some(g, 0, 0);
    if g.food_choice(picks) is None {
        assert forall|q: Point| in_board(q, g.width, g.height) implies #[trigger] g.occupied(
            q,
        ) by {
            lemma_scan_none(g, 0, 0, q);
        }
    }
}

/// Moving the food keeps the invariant.
pub proof fn lemma_respawned_wf(g: GameView, picks: Seq<Point>)
    requires
        g.wf(),
    ensures
        g.respawned(picks).wf(),
        g.respawned(picks).body1 == g.body1,
        g.respawned(picks).body2 == g.body2,
{
    lemma_food_choice(g, picks);
}

/// A tick of one player keeps the invariant and a head on the board.
pub proof fn lemma_single_tick_wf(g: GameView, border: bool, picks: Seq<Point>)
    requires
        g.wf(),
    ensures
        g.single_tick(border, picks).wf(),
{
    lemma_step_in_board(g.body1[0], g.direction, border, g.width, g.height);
    if let Some(h) = g.step1(border) {
        lemma_advance_in_board(g.body1, h, g.growing, g.width, g.height);
        let m = g.moved1(border);
        let m2 = GameView { game_over: hits_self(m.body1), ..m };
        let e = GameView { score: (m2.score + 1) as u16, growing: true, ..m2 };
        lemma_respawned_wf(e, picks);
    }
}

/// A tick of two players keeps the invariant.
pub proof fn lemma_two_tick_wf(g: GameView, border: bool, picks: Seq<Point>)
    requires
        g.wf(),
        g.two_players(),
    ensures
        g.two_tick(border, picks).wf(),
        g.two_tick(border, picks).two_players(),
{
    lemma_step_in_board(g.body1[0], g.direction, border, g.width, g.height);
    if let Some(h) = g.step1(border) {
        lemma_advance_in_board(g.body1, h, g.growing, g.width, g.height);
        let a = g.moved1(border);
        lemma_step_in_board(a.body2[0], a.direction2, border, a.width, a.height);
        let ea = GameView { score: (a.score + 1) as u16, growing: true, ..a };
        lemma_respawned_wf(ea, picks);
        if let Some(h2) = a.step2(border) {
            lemma_advance_in_board(a.body2, h2, a.growing2, a.width, a.height);
            let v = a.moved2(border).judged();
            let e = GameView { score: (v.score + 1) as u16, growing: true, ..v };
            lemma_respawned_wf(e, picks);
            let f = v.fed(picks);
            let e2 = GameView { score2: (f.score2 + 1) as u16, growing2: true, ..f };
            lemma_respawned_wf(e2, picks);
        }
    }
}

} // verus!
