use grid_arena::user::{
    get_color, is_color_taken, is_symbol_taken, is_username_taken, Color, Place, User,
};

#[test]
fn new_user_starts_fresh() {
    let u = User::new("Ann".to_string(), Color::Magenta, 'A', true);
    assert_eq!(u.username(), "Ann");
    assert_eq!(u.color(), Color::Magenta);
    assert_eq!(u.symbol(), 'A');
    assert!(u.is_bot());
    assert_eq!(u.place(), Place { row: 0, col: 0 });
    assert_eq!(u.boosts(), 0);
    assert!(!u.has_lost());
}

#[test]
fn place_and_loss_are_recorded() {
    let mut u = User::new("Ann".to_string(), Color::Red, 'A', false);
    u.set_place(Place { row: 3, col: 4 });
    assert_eq!(u.place(), Place { row: 3, col: 4 });
    u.set_has_lost(true);
    assert!(u.has_lost());
}

#[test]
fn boosts_rise_and_fall_clamped() {
    let mut u = User::new("Ann".to_string(), Color::Red, 'A', false);
    u.add_boost();
    u.add_boost();
    assert_eq!(u.boosts(), 2);
    u.remove_boost();
    assert_eq!(u.boosts(), 1);
    u.remove_boost();
    assert_eq!(u.boosts(), 0);
    // The wall penalty never pushes the count below zero.
    u.remove_boost();
    assert_eq!(u.boosts(), 0);
}

#[test]
fn color_menu_mapping() {
    assert_eq!(get_color(1), Color::Black);
    assert_eq!(get_color(2), Color::White);
    assert_eq!(get_color(3), Color::Blue);
    assert_eq!(get_color(4), Color::Red);
    assert_eq!(get_color(5), Color::Green);
    assert_eq!(get_color(6), Color::Yellow);
    assert_eq!(get_color(7), Color::Magenta);
    assert_eq!(get_color(8), Color::Cyan);
}

#[test]
fn taken_checks_scan_the_roster() {
    let users = vec![
        User::new("Ann".to_string(), Color::Red, 'A', false),
        User::new("Ben".to_string(), Color::Blue, 'B', false),
    ];
    assert!(is_username_taken("Ann", &users));
    assert!(is_username_taken("Ben", &users));
    assert!(!is_username_taken("Cid", &users));
    assert!(is_color_taken(&Color::Red, &users));
    assert!(!is_color_taken(&Color::Green, &users));
    assert!(is_symbol_taken('A', &users));
    assert!(!is_symbol_taken('c', &users));
    assert!(!is_username_taken("Ann", &Vec::new()));
}
