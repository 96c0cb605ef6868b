use scuffed_snake::{create, Direction, GameError, GameMode, Glyph, Multiplayer, Point, SnakeGame, DRAW, FOOD_ATTEMPTS, NO_WINNER, PLAYER_ONE, PLAYER_TWO};

fn p(x: u16, y: u16) -> Point {
    Point { x, y }
}

fn row(cells: &[(u16, u16)]) -> Vec<Point> {
    cells.iter().map(|&(x, y)| p(x, y)).collect()
}

#[test]
fn new_places_three_cells_heading_left() {
    let g = SnakeGame::new(7, 7);
    assert_eq!(g.body(1), row(&[(3, 3), (4, 3), (5, 3)]));
    assert!(g.body(2).is_empty());
    assert_eq!(g.direction, Direction::Left);
    assert_eq!(g.score(1), 0);
    assert!(!g.is_terminal());
    assert_eq!(g.winner(), NO_WINNER);
    let f = g.food();
    assert!(f.x < 7 && f.y < 7);
    assert!(!g.body(1).contains(&f));
}

#[test]
fn one_tick_moves_left_and_drops_tail() {
    let mut g = SnakeGame::new(7, 7);
    g.update(true);
    assert_eq!(g.body(1)[0], p(2, 3));
    assert_eq!(g.body(1).len(), 3);
    assert!(!g.body(1).contains(&p(5, 3)));
    assert_eq!(g.body(1), row(&[(2, 3), (3, 3), (4, 3)]));
}

#[test]
fn left_wall_ends_bounded_game() {
    let mut g = SnakeGame::from_parts(7, 7, row(&[(0, 3), (1, 3), (2, 3)]), vec![], p(5, 5));
    g.tick_with(true, &vec![]);
    assert!(g.is_terminal());
    assert_eq!(g.body(1), row(&[(0, 3), (1, 3), (2, 3)]));
}

#[test]
fn left_edge_wraps_without_walls() {
    let mut g = SnakeGame::from_parts(7, 7, row(&[(0, 3), (1, 3), (2, 3)]), vec![], p(5, 5));
    g.tick_with(false, &vec![]);
    assert!(!g.is_terminal());
    assert_eq!(g.body(1)[0], p(6, 3));
    assert_eq!(g.body(1), row(&[(6, 3), (0, 3), (1, 3)]));
}

#[test]
fn every_edge_wraps() {
    let mut g = SnakeGame::from_parts(5, 5, row(&[(4, 0), (3, 0), (2, 0)]), vec![], p(2, 2));
    g.direction = Direction::Right;
    g.tick_with(false, &vec![]);
    assert_eq!(g.body(1)[0], p(0, 0));
    g.set_direction(1, Direction::Up);
    g.tick_with(false, &vec![]);
    assert_eq!(g.body(1)[0], p(0, 4));
    g.set_direction(1, Direction::Left);
    g.tick_with(false, &vec![]);
    assert_eq!(g.body(1)[0], p(4, 4));
    g.set_direction(1, Direction::Down);
    g.tick_with(false, &vec![]);
    assert_eq!(g.body(1)[0], p(4, 0));
    assert!(!g.is_terminal());
}

#[test]
fn wrapped_heads_stay_on_board() {
    let mut g = SnakeGame::new(9, 6);
    let turns = [Direction::Up, Direction::Left, Direction::Down, Direction::Right];
    for i in 0..200 {
        if g.is_terminal() {
            break;
        }
        if i % 7 == 0 {
            g.set_direction(1, turns[(i / 7) % 4]);
        }
        g.update(false);
        let h = g.body(1)[0];
        assert!(h.x < 9 && h.y < 6);
    }
}

#[test]
fn opposite_turn_is_ignored() {
    let mut g = SnakeGame::new(7, 7);
    g.set_direction(1, Direction::Up);
    g.set_direction(1, Direction::Right);
    assert_eq!(g.direction, Direction::Right);
    g.set_direction(1, Direction::Left);
    assert_eq!(g.direction, Direction::Right);
}

#[test]
fn last_turn_wins_and_second_player_turns_alone() {
    let mut g = SnakeGame::multiplayer_new(9, 9);
    g.set_direction(2, Direction::Up);
    g.set_direction(2, Direction::Right);
    assert_eq!(g.direction2, Direction::Right);
    assert_eq!(g.direction, Direction::Left);
    g.set_direction(2, Direction::Left);
    assert_eq!(g.direction2, Direction::Right);
}

#[test]
fn opposite_of_each_direction() {
    assert_eq!(Direction::Up.opposite(), Direction::Down);
    assert_eq!(Direction::Down.opposite(), Direction::Up);
    assert_eq!(Direction::Left.opposite(), Direction::Right);
    assert_eq!(Direction::Right.opposite(), Direction::Left);
}

#[test]
fn meal_grows_snake_on_next_tick() {
    let mut g = SnakeGame::from_parts(9, 9, row(&[(4, 4), (5, 4), (6, 4)]), vec![], p(3, 4));
    g.tick_with(true, &vec![p(1, 1)]);
    assert_eq!(g.score(1), 1);
    assert_eq!(g.body(1).len(), 3);
    assert!(g.is_growing(1));
    assert_eq!(g.food(), p(1, 1));
    g.tick_with(true, &vec![]);
    assert_eq!(g.body(1), row(&[(2, 4), (3, 4), (4, 4), (5, 4)]));
    assert!(!g.is_growing(1));
    g.tick_with(true, &vec![]);
    assert_eq!(g.body(1).len(), 4);
}

#[test]
fn length_never_shrinks() {
    let mut g = SnakeGame::new(12, 10);
    let mut len = g.body(1).len();
    for i in 0..150 {
        if g.is_terminal() {
            break;
        }
        if i % 5 == 0 {
            let d = [Direction::Up, Direction::Right, Direction::Down, Direction::Left][(i / 5) % 4];
            g.set_direction(1, d);
        }
        g.update(false);
        let n = g.body(1).len();
        assert!(n == len || n == len + 1);
        len = n;
    }
}

#[test]
fn food_skips_picks_on_the_snake() {
    let mut g = SnakeGame::from_parts(9, 9, row(&[(4, 4), (5, 4), (6, 4)]), vec![], p(3, 4));
    g.tick_with(true, &vec![p(3, 4), p(4, 4), p(0, 0), p(2, 2)]);
    assert_eq!(g.food(), p(2, 2));
}

#[test]
fn food_falls_back_to_first_free_cell() {
    let mut g = SnakeGame::from_parts(9, 9, row(&[(1, 0), (2, 0), (3, 0)]), vec![], p(0, 0));
    g.tick_with(true, &vec![p(1, 0), p(8, 8)]);
    assert_eq!(g.score(1), 1);
    assert_eq!(g.food(), p(3, 0));
    assert!(!g.body(1).contains(&g.food()));
}

#[test]
fn choose_food_on_full_board_is_none() {
    let mut cells = Vec::new();
    for y in 0..5u16 {
        for x in 0..5u16 {
            cells.push(p(x, y));
        }
    }
    let g = SnakeGame::from_parts(5, 5, cells, vec![], p(0, 0));
    assert_eq!(g.choose_food(&vec![p(2, 2)]), None);
    let h = SnakeGame::from_parts(5, 5, row(&[(0, 0)]), vec![], p(4, 4));
    assert_eq!(h.choose_food(&vec![p(0, 0), p(2, 3)]), Some(p(2, 3)));
    assert_eq!(h.choose_food(&vec![p(4, 4)]), Some(p(1, 0)));
}

#[test]
fn food_avoids_second_snake() {
    let g = SnakeGame::from_parts(7, 7, row(&[(0, 0)]), row(&[(1, 1), (2, 1)]), p(6, 6));
    assert_eq!(g.choose_food(&vec![p(1, 1), p(2, 1), p(3, 1)]), Some(p(3, 1)));
}

#[test]
fn food_picks_lie_inside_the_ring() {
    let g = SnakeGame::new(6, 5);
    for _ in 0..20 {
        let picks = g.food_picks();
        assert_eq!(picks.len(), FOOD_ATTEMPTS);
        for q in picks {
            assert!(q.x >= 1 && q.x <= 4);
            assert!(q.y >= 1 && q.y <= 3);
        }
    }
}

#[test]
fn self_bite_ends_game() {
    let body = row(&[(3, 3), (3, 4), (4, 4), (4, 3), (4, 2)]);
    let mut g = SnakeGame::from_parts(9, 9, body, vec![], p(0, 0));
    g.direction = Direction::Right;
    g.tick_with(false, &vec![]);
    assert!(g.is_terminal());
}

#[test]
fn filling_the_board_ends_game() {
    let mut g = SnakeGame::from_parts(5, 5, row(&[(2, 2), (3, 2), (4, 2)]), vec![], p(1, 2));
    g.set_scores(24, 0);
    g.tick_with(true, &vec![]);
    assert_eq!(g.score(1), 25);
    assert!(g.is_terminal());
}

#[test]
fn multiplayer_new_places_two_snakes() {
    let g = SnakeGame::multiplayer_new(7, 7);
    assert_eq!(g.body(1), row(&[(3, 2), (4, 2), (5, 2)]));
    assert_eq!(g.body(2), row(&[(3, 4), (4, 4), (5, 4)]));
    let f = g.food();
    assert!(!g.body(1).contains(&f) && !g.body(2).contains(&f));
}

#[test]
fn running_into_other_body_loses() {
    let a = row(&[(3, 2), (3, 1), (3, 0)]);
    let b = row(&[(3, 3), (4, 3), (5, 3)]);
    let mut g = SnakeGame::from_parts(7, 7, a, b, p(6, 6));
    g.set_direction(1, Direction::Down);
    g.multiplayer_tick_with(true, &vec![]);
    assert!(g.is_terminal());
    assert_eq!(g.winner(), PLAYER_TWO);
}

#[test]
fn second_running_into_first_loses() {
    let a = row(&[(3, 3), (4, 3), (5, 3)]);
    let b = row(&[(3, 2), (3, 1), (3, 0)]);
    let mut g = SnakeGame::from_parts(7, 7, a, b, p(6, 6));
    g.set_direction(2, Direction::Down);
    g.multiplayer_tick_with(true, &vec![]);
    assert!(g.is_terminal());
    assert_eq!(g.winner(), PLAYER_ONE);
}

fn head_on(score: u16, score2: u16) -> SnakeGame {
    let a = row(&[(2, 2), (2, 1), (2, 0)]);
    let b = row(&[(3, 3), (4, 3), (5, 3)]);
    let mut g = SnakeGame::from_parts(7, 7, a, b, p(6, 6));
    g.set_scores(score, score2);
    g.set_direction(1, Direction::Down);
    g.multiplayer_tick_with(true, &vec![]);
    g
}

#[test]
fn head_on_higher_score_wins() {
    let g = head_on(3, 5);
    assert!(g.is_terminal());
    assert_eq!(g.winner(), PLAYER_TWO);
    assert_eq!(g.winner_score(), 5);
    let h = head_on(5, 3);
    assert_eq!(h.winner(), PLAYER_ONE);
    assert_eq!(h.winner_score(), 5);
}

#[test]
fn head_on_equal_scores_draw() {
    let g = head_on(4, 4);
    assert!(g.is_terminal());
    assert_eq!(g.winner(), DRAW);
}

#[test]
fn wall_in_multiplayer_gives_other_the_win() {
    let a = row(&[(0, 1), (1, 1), (2, 1)]);
    let b = row(&[(3, 4), (4, 4), (5, 4)]);
    let mut g = SnakeGame::from_parts(7, 7, a, b, p(6, 6));
    g.multiplayer_tick_with(true, &vec![]);
    assert!(g.is_terminal());
    assert_eq!(g.winner(), PLAYER_TWO);
    assert_eq!(g.body(2), row(&[(3, 4), (4, 4), (5, 4)]));

    let a = row(&[(3, 1), (4, 1), (5, 1)]);
    let b = row(&[(0, 4), (1, 4), (2, 4)]);
    let mut g = SnakeGame::from_parts(7, 7, a, b, p(6, 6));
    g.multiplayer_tick_with(true, &vec![]);
    assert!(g.is_terminal());
    assert_eq!(g.winner(), PLAYER_ONE);
    assert_eq!(g.body(1)[0], p(2, 1));
}

#[test]
fn multiplayer_quiet_tick_moves_both() {
    let mut g = SnakeGame::multiplayer_new(9, 9);
    g.multiplayer_update(true);
    assert_eq!(g.body(1)[0], p(3, 3));
    assert_eq!(g.body(2)[0], p(3, 5));
    assert!(!g.is_terminal());
}

#[test]
fn second_player_eats() {
    let a = row(&[(3, 1), (4, 1), (5, 1)]);
    let b = row(&[(3, 4), (4, 4), (5, 4)]);
    let mut g = SnakeGame::from_parts(7, 7, a, b, p(2, 4));
    g.multiplayer_tick_with(true, &vec![p(5, 5)]);
    assert_eq!(g.score(2), 1);
    assert_eq!(g.score(1), 0);
    assert!(g.is_growing(2));
    assert_eq!(g.food(), p(5, 5));
}

fn replay(seed: u64) -> SnakeGame {
    let mut g = SnakeGame::from_parts(10, 8, row(&[(5, 4), (6, 4), (7, 4)]), vec![], p(2, 4));
    let mut state = seed;
    let turns = [Direction::Up, Direction::Left, Direction::Down, Direction::Right];
    for i in 0..60u64 {
        if g.is_terminal() {
            break;
        }
        state = state.wrapping_mul(6364136223846793005).wrapping_add(1442695040888963407);
        let picks: Vec<Point> = (0..4u64)
            .map(|k| {
                let v = state.rotate_left((k * 13) as u32);
                p(1 + (v % 8) as u16, 1 + ((v >> 8) % 6) as u16)
            })
            .collect();
        if i % 3 == 0 {
            g.set_direction(1, turns[((state >> 20) % 4) as usize]);
        }
        g.tick_with(false, &picks);
    }
    g
}

#[test]
fn same_inputs_same_result() {
    let a = replay(42);
    let b = replay(42);
    assert_eq!(a.body(1), b.body(1));
    assert_eq!(a.food(), b.food());
    assert_eq!(a.score(1), b.score(1));
    assert_eq!(a.direction, b.direction);
    assert_eq!(a.is_growing(1), b.is_growing(1));
    assert_eq!(a.is_terminal(), b.is_terminal());
    assert_eq!(a.render_snapshot(), b.render_snapshot());
}

#[test]
fn snapshot_lists_heads_bodies_and_food() {
    let a = row(&[(3, 1), (4, 1)]);
    let b = row(&[(3, 4), (4, 4), (5, 4)]);
    let g = SnakeGame::from_parts(7, 7, a, b, p(6, 6));
    assert_eq!(
        g.render_snapshot(),
        vec![
            (p(3, 1), Glyph::Head1),
            (p(4, 1), Glyph::Body1),
            (p(3, 4), Glyph::Head2),
            (p(4, 4), Glyph::Body2),
            (p(5, 4), Glyph::Body2),
            (p(6, 6), Glyph::Food),
        ]
    );
}

#[test]
fn game_mode_defaults_and_menu_keys() {
    let mut m = GameMode::new();
    assert_eq!(m.players, 1);
    assert!(!m.borders);
    assert!(!m.choose_players('x'));
    assert_eq!(m.players, 1);
    assert!(m.choose_players('2'));
    assert_eq!(m.players, 2);
    assert!(m.choose_borders('2'));
    assert!(m.borders);
    assert!(m.choose_borders('1'));
    assert!(!m.borders);
    assert!(m.choose_borders('Q'));
    assert_eq!(m.players, 0);
    assert!(m.choose_players('q'));
    assert_eq!(m.players, 0);
}

#[test]
fn create_refuses_small_boards_and_bad_player_counts() {
    assert_eq!(create(4, 10, 1).err(), Some(GameError::InvalidConfiguration));
    assert_eq!(create(10, 4, 2).err(), Some(GameError::InvalidConfiguration));
    assert_eq!(create(10, 10, 0).err(), Some(GameError::InvalidConfiguration));
    assert_eq!(create(10, 10, 3).err(), Some(GameError::InvalidConfiguration));
}

#[test]
fn create_makes_one_or_two_player_games() {
    let one = create(5, 5, 1).ok().unwrap();
    assert_eq!(one.body(1), row(&[(2, 2), (3, 2), (4, 2)]));
    assert!(one.body(2).is_empty());
    let two = create(5, 5, 2).ok().unwrap();
    assert_eq!(two.body(1), row(&[(2, 1), (3, 1), (4, 1)]));
    assert_eq!(two.body(2), row(&[(2, 3), (3, 3), (4, 3)]));
    let f = two.food();
    assert!(!two.body(1).contains(&f) && !two.body(2).contains(&f));
}

#[test]
fn first_player_eats_before_second_hits_wall() {
    let a = row(&[(3, 1), (4, 1), (5, 1)]);
    let b = row(&[(0, 4), (1, 4), (2, 4)]);
    let mut g = SnakeGame::from_parts(7, 7, a, b, p(2, 1));
    g.multiplayer_tick_with(true, &vec![p(5, 5)]);
    assert!(g.is_terminal());
    assert_eq!(g.winner(), PLAYER_ONE);
    assert_eq!(g.score(1), 1);
    assert!(g.is_growing(1));
    assert_eq!(g.food(), p(5, 5));
    assert!(!g.body(1).contains(&g.food()));
}

#[test]
fn second_score_does_not_end_one_player_game() {
    let mut g = SnakeGame::from_parts(5, 5, row(&[(2, 2), (3, 2), (4, 2)]), vec![], p(1, 1));
    g.set_scores(0, 25);
    g.tick_with(true, &vec![]);
    assert!(!g.is_terminal());
    assert_eq!(g.body(1)[0], p(1, 2));
}
