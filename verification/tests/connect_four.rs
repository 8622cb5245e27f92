use numworks_games::eadk::State;
use numworks_games::puissance4::game_p4::{
    ai_depth, check, column_playable, new_board, place_coin_nodraw, table_is_full, Selection, SelectionEvent,
};
use numworks_games::puissance4::ia_p4::{evaluate_table, find_best_move, get_valid_moves, look_for_aligned_coins};

type Board = heapless::Vec<heapless::Vec<u8, 6>, 8>;

fn drop_coins(t: &mut Board, moves: &[(u8, u8)]) {
    for &(x, player) in moves {
        place_coin_nodraw(x, player, t);
    }
}

#[test]
fn new_board_is_empty() {
    let t = new_board();
    assert_eq!(t.len(), 8);
    for col in t.iter() {
        assert_eq!(col.len(), 6);
        assert!(col.iter().all(|&c| c == 255));
    }
}

#[test]
fn coins_stack_up() {
    let mut t = new_board();
    assert_eq!(place_coin_nodraw(3, 0, &mut t), 0);
    assert_eq!(place_coin_nodraw(3, 1, &mut t), 1);
    assert_eq!(t[3][0], 0);
    assert_eq!(t[3][1], 1);
    for _ in 0..4 {
        place_coin_nodraw(3, 0, &mut t);
    }
    assert!(!column_playable(&t, 3));
    // A full column takes no more coins.
    assert_eq!(place_coin_nodraw(3, 1, &mut t), 6);
    assert!(column_playable(&t, 2));
}

#[test]
fn vertical_win() {
    let mut t = new_board();
    drop_coins(&mut t, &[(2, 1), (2, 1), (2, 1), (2, 1)]);
    let a = check(&t, 2).expect("a winner");
    assert_eq!((a.0, a.1, a.2), (1, (2, 0), (2, 3)));
}

#[test]
fn horizontal_win_is_lengthened() {
    let mut t = new_board();
    drop_coins(&mut t, &[(0, 0), (1, 0), (2, 0), (3, 0)]);
    let a = check(&t, 2).expect("a winner");
    assert_eq!((a.0, a.1, a.2), (0, (0, 0), (3, 0)));
    place_coin_nodraw(4, 0, &mut t);
    let a = check(&t, 2).expect("a winner");
    assert_eq!((a.1, a.2), ((0, 0), (4, 0)));
}

#[test]
fn diagonal_win() {
    let mut t = new_board();
    // Player 1 on (1,5), (2,4), (3,3), (4,2): a down-right diagonal from the
    // top row; the cells below hold players 0 and 2 in a checkerboard.
    for x in 1..=4u8 {
        for y in 0..(5 - x + 1) {
            place_coin_nodraw(x, if (x + y) % 2 == 0 { 0 } else { 2 }, &mut t);
        }
        place_coin_nodraw(x, 1, &mut t);
    }
    let a = check(&t, 3).expect("a winner");
    assert_eq!((a.0, a.1, a.2), (1, (1, 5), (4, 2)));
}

#[test]
fn no_winner_yet() {
    let mut t = new_board();
    drop_coins(&mut t, &[(0, 0), (1, 0), (2, 0), (3, 1)]);
    assert!(check(&t, 2).is_none());
}

#[test]
fn aligned_counts() {
    let mut t = new_board();
    drop_coins(&mut t, &[(0, 0), (1, 0), (2, 0), (3, 0)]);
    let (count, first, last) = look_for_aligned_coins(&t, 0, 2, 7);
    assert_eq!(count, 2);
    assert_eq!((first, last), ((0, 0), (1, 0)));
    assert_eq!(look_for_aligned_coins(&t, 0, 4, 7).0, 1);
    assert_eq!(look_for_aligned_coins(&t, 1, 2, 7), (0, (0, 0), (0, 0)));
}

#[test]
fn full_board() {
    let mut t = new_board();
    assert!(!table_is_full(&t, 2));
    for x in 0..7u8 {
        for y in 0..6u8 {
            place_coin_nodraw(x, (x + y) % 2, &mut t);
        }
    }
    // With two players only seven columns are in play.
    assert!(table_is_full(&t, 2));
    assert!(!table_is_full(&t, 3));
}

#[test]
fn valid_moves() {
    let mut t = new_board();
    assert_eq!(get_valid_moves(&t).as_slice(), &[0, 1, 2, 3, 4, 5, 6, 7]);
    for _ in 0..6 {
        place_coin_nodraw(0, 1, &mut t);
    }
    assert_eq!(get_valid_moves(&t).as_slice(), &[1, 2, 3, 4, 5, 6, 7]);
}

#[test]
fn evaluation() {
    let mut t = new_board();
    assert_eq!(evaluate_table(&t, 0, 2), 0);
    drop_coins(&mut t, &[(4, 1), (4, 1), (4, 1)]);
    // Three in a column: one pair and one triple.
    assert_eq!(evaluate_table(&t, 1, 2), 150);
    assert_eq!(evaluate_table(&t, 0, 2), -80);
}

#[test]
fn computer_completes_its_line() {
    let mut t = new_board();
    drop_coins(&mut t, &[(4, 1), (4, 1), (4, 1), (0, 0), (6, 0)]);
    let always_first = || 0u32;
    assert_eq!(find_best_move(&t, 1, 2, 1, &always_first), 4);
}

#[test]
fn depth_and_cursor() {
    assert_eq!(ai_depth(2, 6), 2);
    assert_eq!(ai_depth(10, 6), 6);
    let right = State::new(1 << 3);
    let mut s = Selection::new(3, 1000);
    assert_eq!(s.step(&right, 1100, 2), SelectionEvent::Idle);
    assert_eq!(s.step(&right, 1250, 2), SelectionEvent::Moved { from: 3 });
    assert_eq!(s.pos, 4);
    // With two players the cursor stops at column 6.
    s.pos = 6;
    s.last_action = 0;
    assert_eq!(s.step(&right, 1500, 2), SelectionEvent::Idle);
    assert_eq!(s.pos, 6);
    assert_eq!(s.step(&State::new(1 << 4), 1600, 2), SelectionEvent::Confirmed);
}

#[test]
fn best_move_at_depth_one_whatever_the_draws() {
    let mut t = new_board();
    drop_coins(&mut t, &[(4, 1), (4, 1), (4, 1), (0, 0), (6, 0)]);
    let last = || 7u32;
    let three = || 3u32;
    assert_eq!(find_best_move(&t, 1, 2, 1, &last), 4);
    assert_eq!(find_best_move(&t, 1, 2, 1, &three), 4);
}

#[test]
fn computer_blocks_a_line_looking_further_ahead() {
    let mut t = new_board();
    drop_coins(&mut t, &[(0, 0), (0, 0), (0, 0), (5, 1), (6, 1)]);
    let first = || 0u32;
    let last = || 7u32;
    assert_eq!(find_best_move(&t, 1, 2, 2, &first), 0);
    assert_eq!(find_best_move(&t, 1, 2, 2, &last), 0);
    assert_eq!(find_best_move(&t, 1, 2, 4, &last), 0);
}
