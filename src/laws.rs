use vstd::prelude::*;

use crate::board::{in_board, opposite_spec, Direction, Point};
use crate::model::{
    hits_self, lemma_advance_in_board, lemma_food_choice, lemma_single_tick_wf,
    lemma_step_in_board, lemma_two_tick_wf, GameView,
};

verus! {

/// What the players do before one tick: an optional turn for each snake, and the
/// random cells that food may go to.
pub struct TickInput {
    pub turn: Option<Direction>,
    pub turn2: Option<Direction>,
    pub picks: Seq<Point>,
}

/// `g` after a request to turn the first snake towards `d` (see
/// `SnakeGame::set_direction`).
pub open spec fn turned(g: GameView, d: Option<Direction>) -> GameView {
    match d {
        Some(d) => if d == opposite_spec(g.direction) {
            g
        } else {
            GameView { direction: d, ..g }
        },
        None => g,
    }
}

/// `g` after a request to turn the second snake towards `d`.
pub open spec fn turned2(g: GameView, d: Option<Direction>) -> GameView {
    match d {
        Some(d) => if d == opposite_spec(g.direction2) {
            g
        } else {
            GameView { direction2: d, ..g }
        },
        None => g,
    }
}

/// One tick after the turns of `input`, for one or two players.
pub open spec fn play(g: GameView, border: bool, input: TickInput) -> GameView {
    let t = turned2(turned(g, input.turn), input.turn2);
    if g.two_players() {
        t.two_tick(border, input.picks)
    } else {
        t.single_tick(border, input.picks)
    }
}

/// The game after the ticks of `inputs`, stopping once it has ended.
pub open spec fn run(g: GameView, border: bool, inputs: Seq<TickInput>) -> GameView
    decreases inputs.len(),
{
    if inputs.len() == 0 || g.game_over {
        g
    } else {
        run(play(g, border, inputs[0]), border, inputs.drop_first())
    }
}

/// Every tick keeps the invariant, and with it every cell on the board.
pub proof fn law_play_keeps_board(g: GameView, border: bool, input: TickInput)
    requires
        g.wf(),
    ensures
        play(g, border, input).wf(),
        play(g, border, input).two_players() == g.two_players(),
{
    let t = turned2(turned(g, input.turn), input.turn2);
    if g.two_players() {
        lemma_two_tick_wf(t, border, input.picks);
    } else {
        lemma_single_tick_wf(t, border, input.picks);
    }
}

/// In wrapped mode, after any number of ticks, each snake's head lies on the board.
pub proof fn law_wrapped_heads_on_board(g: GameView, inputs: Seq<TickInput>)
    requires
        g.wf(),
    ensures
        run(g, false, inputs).wf(),
        in_board(run(g, false, inputs).body1[0], g.width, g.height),
        g.two_players() ==> in_board(run(g, false, inputs).body2[0], g.width, g.height),
    decreases inputs.len(),
{
    if inputs.len() > 0 && !g.game_over {
        let n = play(g, false, inputs[0]);
        law_play_keeps_board(g, false, inputs[0]);
        law_wrapped_heads_on_board(n, inputs.drop_first());
    }
}

/// A tick never shortens the snake: it grows by one cell exactly when it moved with
/// a meal pending, and after a move a meal is pending exactly when the head moved
/// onto the food of the state before it.
pub proof fn law_length(g: GameView, border: bool, picks: Seq<Point>)
    requires
        g.wf(),
        !g.game_over,
    ensures
        g.single_tick(border, picks).body1.len() >= g.body1.len(),
        g.single_tick(border, picks).body1.len() == g.body1.len() + if g.growing
            && g.step1(border) is Some {
            1int
        } else {
            0int
        },
        g.step1(border) is Some ==> g.single_tick(border, picks).growing == (g.step1(border)
            == Some(g.food)),
{
    lemma_step_in_board(g.body1[0], g.direction, border, g.width, g.height);
    if let Some(h) = g.step1(border) {
        lemma_advance_in_board(g.body1, h, g.growing, g.width, g.height);
    }
}

/// A snake that reaches the food is one cell longer after its next move.
pub proof fn law_meal_then_growth(g: GameView, border: bool, picks: Seq<Point>, next: Seq<Point>)
    requires
        g.wf(),
        !g.game_over,
        g.step1(border) == Some(g.food),
        !g.single_tick(border, picks).game_over,
        g.single_tick(border, picks).step1(border) is Some,
    ensures
        g.single_tick(border, picks).single_tick(border, next).body1.len() == g.single_tick(
            border,
            picks,
        ).body1.len() + 1,
{
    let n = g.single_tick(border, picks);
    law_length(g, border, picks);
    lemma_single_tick_wf(g, border, picks);
    law_length(n, border, next);
}

/// Food that moves after a meal lands on a free cell whenever one is left.
pub proof fn law_food_respawns_free(g: GameView, border: bool, picks: Seq<Point>, q: Point)
    requires
        g.wf(),
        !g.game_over,
        g.step1(border) == Some(g.food),
        g.single_tick(border, picks).free_cell(q),
    ensures
        g.single_tick(border, picks).free_cell(g.single_tick(border, picks).food),
{
    let h = g.food;
    let m = g.moved1(border);
    let m2 = GameView { game_over: hits_self(m.body1), ..m };
    let e = GameView { score: (m2.score + 1) as u16, growing: true, ..m2 };
    lemma_food_choice(e, picks);
    if e.food_choice(picks) is None {
        assert(e.occupied(q));
    }
}

/// Moving the food puts it on a free cell whenever one is left.
pub proof fn law_respawn_free(g: GameView, picks: Seq<Point>, q: Point)
    requires
        g.free_cell(q),
    ensures
        g.respawned(picks).free_cell(g.respawned(picks).food),
{
    lemma_food_choice(g, picks);
    if g.food_choice(picks) is None {
        assert(g.occupied(q));
    }
}

/// In a game of two players, food that moves after a meal lands on a free cell
/// whenever one is left.
pub proof fn law_two_food_respawns_free(g: GameView, border: bool, picks: Seq<Point>, q: Point)
    requires
        g.wf(),
        g.two_players(),
        !g.game_over,
        g.step1(border) == Some(g.food) || (g.step1(border) is Some && g.moved1(border).step2(
            border,
        ) == Some(g.food)),
        g.two_tick(border, picks).free_cell(q),
    ensures
        g.two_tick(border, picks).free_cell(g.two_tick(border, picks).food),
{
    let a = g.moved1(border);
    let ea = GameView { score: (a.score + 1) as u16, growing: true, ..a };
    lemma_food_choice(ea, picks);
    if let Some(h2) = a.step2(border) {
        let v = a.moved2(border).judged();
        let e = GameView { score: (v.score + 1) as u16, growing: true, ..v };
        lemma_food_choice(e, picks);
        let f = v.fed(picks);
        let e2 = GameView { score2: (f.score2 + 1) as u16, growing2: true, ..f };
        lemma_food_choice(e2, picks);
        if e2.food_choice(picks) is None {
            assert(e2.occupied(q));
        }
        if e.food_choice(picks) is None {
            assert(e.occupied(q));
        }
    } else {
        if ea.food_choice(picks) is None {
            assert(ea.occupied(q));
        }
    }
}

} // verus!
