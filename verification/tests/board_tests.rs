use grid_arena::board::{get_color_from_char, symbol_at_place, Board};
use grid_arena::user::{Color, Place, User};

fn count_marker(board: &Board, marker: char) -> u32 {
    let mut count: u32 = 0;
    for r in 0..board.rows() as usize {
        for c in 0..board.columns() as usize {
            if board.cell_at(r, c) == marker {
                count += 1;
            }
        }
    }
    count
}

fn two_players() -> Vec<User> {
    vec![
        User::new("Ann".to_string(), Color::Red, 'A', false),
        User::new("Ben".to_string(), Color::Blue, 'B', false),
    ]
}

#[test]
fn generate_places_exact_counts() {
    let board = Board::new(5, 5, 2, 1, '#', 'o').unwrap();
    assert_eq!(board.rows(), 5);
    assert_eq!(board.columns(), 5);
    assert_eq!(count_marker(&board, '#'), 2);
    assert_eq!(count_marker(&board, 'o'), 1);
    assert_eq!(count_marker(&board, ' '), 22);
    assert_eq!(board.boosts_left(), 1);
}

#[test]
fn generate_largest_board() {
    let board = Board::new(30, 30, 100, 50, '#', 'o').unwrap();
    assert_eq!(count_marker(&board, '#'), 100);
    assert_eq!(count_marker(&board, 'o'), 50);
    assert_eq!(count_marker(&board, ' '), 900 - 150);
    assert_eq!(board.boosts_left(), 50);
}

#[test]
fn generate_same_marker_for_both() {
    let board = Board::new(5, 5, 2, 2, 'x', 'x').unwrap();
    assert_eq!(count_marker(&board, 'x'), 4);
}

#[test]
fn generate_rejects_insufficient_margin() {
    // 4 x 4 leaves no room for the 20-cell margin even with nothing placed.
    assert!(Board::new(4, 4, 0, 0, '#', 'o').is_err());
    // 25 cells: 4 walls + 1 boost + 20 == 25 is exactly too much ...
    assert!(Board::new(5, 5, 4, 1, '#', 'o').is_err());
    // ... while 4 walls + 0 boosts + 20 == 24 still fits.
    assert!(Board::new(5, 5, 4, 0, '#', 'o').is_ok());
}

#[test]
fn generate_rejects_oversized_board() {
    assert!(Board::new(31, 5, 0, 0, '#', 'o').is_err());
    assert!(Board::new(5, 31, 0, 0, '#', 'o').is_err());
    assert!(Board::new(30, 30, 0, 0, '#', 'o').is_ok());
}

#[test]
fn players_start_in_corners() {
    let mut board = Board::new(5, 6, 0, 0, '#', 'o').unwrap();
    let mut users = vec![
        User::new("Ann".to_string(), Color::Red, 'A', false),
        User::new("Ben".to_string(), Color::Blue, 'B', false),
        User::new("Cid".to_string(), Color::Green, 'C', false),
        User::new("Dee".to_string(), Color::Yellow, 'D', false),
    ];
    board.add_players(&mut users);
    assert_eq!(users[0].place(), Place { row: 0, col: 0 });
    assert_eq!(users[1].place(), Place { row: 0, col: 5 });
    assert_eq!(users[2].place(), Place { row: 4, col: 0 });
    assert_eq!(users[3].place(), Place { row: 4, col: 5 });
    assert_eq!(board.cell_at(0, 0), 'A');
    assert_eq!(board.cell_at(0, 5), 'B');
    assert_eq!(board.cell_at(4, 0), 'C');
    assert_eq!(board.cell_at(4, 5), 'D');
}

#[test]
fn corner_moves_in_fixed_order() {
    let mut board = Board::new(5, 5, 0, 0, '#', 'o').unwrap();
    let mut users = vec![
        User::new("Ann".to_string(), Color::Red, 'A', false),
        User::new("Ben".to_string(), Color::Blue, 'B', false),
        User::new("Cid".to_string(), Color::Green, 'C', false),
        User::new("Dee".to_string(), Color::Yellow, 'D', false),
    ];
    board.add_players(&mut users);

    let (dirs, display) = board.get_directions(&users[0]);
    assert_eq!(dirs, vec!["Down".to_string(), "Right".to_string()]);
    assert_eq!(display, "Down Right");

    let (dirs, display) = board.get_directions(&users[1]);
    assert_eq!(dirs, vec!["Down".to_string(), "Left".to_string()]);
    assert_eq!(display, "Down Left");

    let (dirs, display) = board.get_directions(&users[2]);
    assert_eq!(dirs, vec!["Up".to_string(), "Right".to_string()]);
    assert_eq!(display, "Up Right");

    let (dirs, display) = board.get_directions(&users[3]);
    assert_eq!(dirs, vec!["Up".to_string(), "Left".to_string()]);
    assert_eq!(display, "Up Left");
}

#[test]
fn moves_collect_boosts_and_pay_walls() {
    // A lone walker snakes over every cell, so every placed marker is
    // stepped on; the expected boost arithmetic is mirrored alongside.
    let mut board = Board::new(5, 5, 2, 2, '#', 'o').unwrap();
    let mut users = vec![User::new("Ann".to_string(), Color::Red, 'A', false)];
    board.add_players(&mut users);
    let mut user = users.pop().unwrap();

    let path = [
        "Right", "Right", "Right", "Right", "Down", "Left", "Left", "Left", "Left", "Down",
        "Right", "Right", "Right", "Right", "Down", "Left", "Left", "Left", "Left", "Down",
        "Right", "Right", "Right", "Right",
    ];
    let mut row: usize = 0;
    let mut col: usize = 0;
    let mut expected: u8 = 0;
    for dir in path {
        let (nr, nc) = match dir {
            "Right" => (row, col + 1),
            "Left" => (row, col - 1),
            "Down" => (row + 1, col),
            _ => (row - 1, col),
        };
        let dest = board.cell_at(nr, nc);
        let left_before = board.boosts_left();
        let hits_boost = dest == 'o';
        let hits_wall = dest == '#';

        board.move_user(&mut user, dir);

        if hits_boost {
            expected += 1;
        }
        if hits_wall {
            expected = if expected > 0 { expected - 1 } else { 0 };
        }
        assert_eq!(user.boosts(), expected);
        assert_eq!(
            board.boosts_left(),
            left_before - if hits_boost { 1 } else { 0 }
        );
        assert_eq!(board.cell_at(nr, nc), 'A');
        assert_eq!(user.place(), Place { row: nr, col: nc });
        row = nr;
        col = nc;
    }
}

#[test]
fn wall_penalty_clamps_at_zero() {
    // Only walls on the board: the walker's boost count can never rise, and
    // wall hits must leave it at zero rather than underflow.
    let mut board = Board::new(5, 5, 4, 0, '#', 'o').unwrap();
    let mut users = vec![User::new("Ann".to_string(), Color::Red, 'A', false)];
    board.add_players(&mut users);
    let mut user = users.pop().unwrap();

    let path = [
        "Right", "Right", "Right", "Right", "Down", "Left", "Left", "Left", "Left", "Down",
        "Right", "Right", "Right", "Right", "Down", "Left", "Left", "Left", "Left", "Down",
        "Right", "Right", "Right", "Right",
    ];
    let mut row: usize = 0;
    let mut col: usize = 0;
    for dir in path {
        let (nr, nc) = match dir {
            "Right" => (row, col + 1),
            "Left" => (row, col - 1),
            "Down" => (row + 1, col),
            _ => (row - 1, col),
        };
        board.move_user(&mut user, dir);
        assert_eq!(user.boosts(), 0);
        row = nr;
        col = nc;
    }
    assert_eq!(board.boosts_left(), 0);
}

#[test]
fn game_ends_when_one_remains() {
    let board = Board::new(5, 5, 0, 0, '#', 'o').unwrap();

    let mut two = two_players();
    assert!(!board.is_game_ended(&two));
    two[1].set_has_lost(true);
    assert!(board.is_game_ended(&two));

    let mut three = vec![
        User::new("Ann".to_string(), Color::Red, 'A', false),
        User::new("Ben".to_string(), Color::Blue, 'B', false),
        User::new("Cid".to_string(), Color::Green, 'C', false),
    ];
    assert!(!board.is_game_ended(&three));
    three[0].set_has_lost(true);
    assert!(!board.is_game_ended(&three));
    three[2].set_has_lost(true);
    assert!(board.is_game_ended(&three));

    let mut four = vec![
        User::new("Ann".to_string(), Color::Red, 'A', false),
        User::new("Ben".to_string(), Color::Blue, 'B', false),
        User::new("Cid".to_string(), Color::Green, 'C', false),
        User::new("Dee".to_string(), Color::Yellow, 'D', false),
    ];
    four[1].set_has_lost(true);
    four[2].set_has_lost(true);
    assert!(!board.is_game_ended(&four));
    four[3].set_has_lost(true);
    assert!(board.is_game_ended(&four));
}

#[test]
fn remaining_players_excludes_and_orders() {
    let board = Board::new(5, 5, 0, 0, '#', 'o').unwrap();
    let mut users = vec![
        User::new("A".to_string(), Color::Red, 'a', false),
        User::new("B".to_string(), Color::Blue, 'b', false),
        User::new("C".to_string(), Color::Green, 'c', false),
    ];
    assert_eq!(board.remaining_players(&users, None), "A, B, C");
    users[1].set_has_lost(true);
    assert_eq!(board.remaining_players(&users, None), "A, C");
    assert_eq!(board.remaining_players(&users, Some("A".to_string())), "C");
    users[0].set_has_lost(true);
    users[2].set_has_lost(true);
    assert_eq!(board.remaining_players(&users, None), "");
}

#[test]
fn blocked_by_other_player() {
    // Two players on one row: walking toward the other player is legal only
    // until the destination cell would be the other player's.
    let mut board = Board::new(5, 5, 0, 0, '#', 'o').unwrap();
    let mut users = two_players();
    board.add_players(&mut users);
    let mut ann = users.remove(0);
    let ben = users.remove(0);
    assert_eq!(ben.place(), Place { row: 0, col: 4 });

    board.move_user(&mut ann, "Right");
    board.move_user(&mut ann, "Right");
    board.move_user(&mut ann, "Right");
    assert_eq!(ann.place(), Place { row: 0, col: 3 });

    let (dirs, display) = board.get_directions(&ann);
    assert!(!dirs.contains(&"Right".to_string()));
    // The cells Ann walked through keep her stale symbol, so going back is
    // not offered either: only Down remains.
    assert_eq!(dirs, vec!["Down".to_string()]);
    assert_eq!(display, "Down");
    assert_eq!(board.cell_at(0, 4), 'B');
}

#[test]
fn color_lookup_by_symbol() {
    let users = two_players();
    assert_eq!(get_color_from_char(&'A', &users), Some(Color::Red));
    assert_eq!(get_color_from_char(&'B', &users), Some(Color::Blue));
    assert_eq!(get_color_from_char(&'z', &users), None);
}

#[test]
fn symbol_lookup_by_place() {
    let mut users = two_players();
    users[0].set_place(Place { row: 2, col: 3 });
    users[1].set_place(Place { row: 0, col: 1 });
    assert_eq!(symbol_at_place(&users, 2, 3), (true, 'A'));
    assert_eq!(symbol_at_place(&users, 0, 1), (true, 'B'));
    assert_eq!(symbol_at_place(&users, 4, 4), (false, ' '));
}
