use bucket_game::board::GameBoard;
use bucket_game::player::{Player, Players};
use bucket_game::winners::Winners;

const X: Player = Player('X');
const O: Player = Player('O');
const Y: Player = Player('Y');

fn winners_of(board: &GameBoard) -> Option<Vec<Player>> {
    board.winners().map(|w| w.players().clone())
}

/// A board of buckets of capacity one on which each move locks the next bucket.
fn locked_in_turn(buckets: usize, buffer: u16, players: Vec<Player>, moves: &[&str]) -> GameBoard {
    let mut board = GameBoard::new(vec![1; buckets], buffer);
    board.set_players(Players::new(players));
    for m in moves {
        board.eval(m, 100).unwrap();
    }
    board
}

#[test]
fn three_buckets_against_two_win() {
    let board = locked_in_turn(5, 0, vec![X, O], &["+", ">+", ">+", ">+", ">+"]);
    assert_eq!(board.locked_buckets(), 5);
    assert_eq!(winners_of(&board), Some(vec![X]));
}

#[test]
fn three_players_with_two_buckets_each_tie() {
    let board = locked_in_turn(6, 0, vec![X, O, Y], &["+", ">+", ">+", ">+", ">+", ">+"]);
    assert_eq!(winners_of(&board), Some(vec![X, O, Y]));
}

#[test]
fn two_players_tie_while_the_third_owns_nothing() {
    let board = locked_in_turn(
        6,
        0,
        vec![X, O, Y],
        &["+", ">+", "", ">+", ">+", "", ">+", ">+"],
    );
    assert_eq!(winners_of(&board), Some(vec![X, O]));
    let winners = board.winners().unwrap();
    assert!(winners.contains(X));
    assert!(winners.contains(O));
    assert!(!winners.contains(Y));
    assert_eq!(winners.winner_count(), 2);
}

#[test]
fn there_is_no_winner_while_too_few_buckets_are_locked() {
    let mut board = GameBoard::new(vec![1, 1, 1], 0);
    assert_eq!(winners_of(&board), None);
    board.eval("+", 10).unwrap();
    assert_eq!(winners_of(&board), None);
    board.eval(">+", 10).unwrap();
    assert_eq!(board.locked_buckets(), 2);
    assert_eq!(winners_of(&board), None);
    board.eval(">+", 10).unwrap();
    assert_eq!(winners_of(&board), Some(vec![X]));
}

#[test]
fn buffer_buckets_may_stay_unlocked() {
    let mut board = GameBoard::new(vec![1, 1, 5], 1);
    assert_eq!(board.win_bucket_count(), 2);
    board.eval("+", 10).unwrap();
    assert_eq!(winners_of(&board), None);
    board.eval(">+", 10).unwrap();
    assert_eq!(winners_of(&board), Some(vec![X, O]));
}

#[test]
fn an_unlocked_bucket_counts_for_its_first_counter() {
    let mut board = GameBoard::new(vec![1, 1, 5], 1);
    board.eval("+", 10).unwrap();
    board.eval(">+", 10).unwrap();
    // `X` puts the first counter into the buffer bucket, `O` the second.
    board.eval(">+", 10).unwrap();
    board.eval("+", 10).unwrap();
    assert_eq!(board.locked_buckets(), 2);
    assert_eq!(winners_of(&board), Some(vec![X]));
}

#[test]
fn an_empty_bucket_counts_for_nobody() {
    let board = GameBoard::new(vec![2, 2], 2);
    assert_eq!(board.win_bucket_count(), 0);
    assert_eq!(winners_of(&board), Some(vec![]));
    let mut one = GameBoard::new(vec![2, 2], 5);
    one.eval(">", 10).unwrap();
    one.eval("+", 10).unwrap();
    assert_eq!(winners_of(&one), Some(vec![O]));
}

#[test]
fn winners_come_in_the_order_of_their_first_bucket() {
    let board = locked_in_turn(4, 0, vec![X, O], &[">", "<+", ">+", ">+", ">+"]);
    // From the left: O, X, O, X.
    assert_eq!(winners_of(&board), Some(vec![O, X]));
}

#[test]
fn an_owner_who_left_the_game_still_counts() {
    let mut board = locked_in_turn(3, 0, vec![X, O], &["+", ">+", ">+"]);
    board.set_players(Players::new(vec![Player('a'), Player('b')]));
    assert_eq!(winners_of(&board), Some(vec![X]));
}

#[test]
fn win_bucket_count_is_all_but_the_buffer_buckets() {
    assert_eq!(GameBoard::new(vec![1; 5], 0).win_bucket_count(), 5);
    assert_eq!(GameBoard::new(vec![1; 5], 2).win_bucket_count(), 3);
    assert_eq!(GameBoard::new(vec![1; 5], 5).win_bucket_count(), 0);
    assert_eq!(GameBoard::default().win_bucket_count(), 5);
}

#[test]
fn locked_buckets_counts_the_locks() {
    let mut board = GameBoard::new(vec![1, 2, 1], 0);
    assert_eq!(board.locked_buckets(), 0);
    board.eval("+", 10).unwrap();
    assert_eq!(board.locked_buckets(), 1);
    board.eval(">+", 10).unwrap();
    assert_eq!(board.locked_buckets(), 1);
    board.eval(">+", 10).unwrap();
    assert_eq!(board.locked_buckets(), 2);
}

#[test]
fn winners_can_be_built_and_read() {
    let mut winners = Winners::default();
    assert_eq!(winners.winner_count(), 0);
    assert_eq!(winners.last(), None);
    winners.push(X);
    winners.push(Y);
    assert_eq!(winners.winner_count(), 2);
    assert_eq!(winners[0], X);
    assert_eq!(winners[1], Y);
    assert_eq!(winners.last(), Some(Y));
    assert_eq!(Winners::single(O).players().clone(), vec![O]);
    assert_eq!(Winners::new(vec![O, X]).players().clone(), vec![O, X]);
}

#[test]
fn winners_are_announced() {
    assert_eq!(Winners::single(X).render(), "Player X won!");
    assert_eq!(Winners::new(vec![X, O]).render(), "Players X and O tied!");
    assert_eq!(Winners::new(vec![X, O, Y]).render(), "Players X, O, and Y tied!");
    assert_eq!(
        Winners::new(vec![Player('a'), Player('b'), Player('c'), Player('d')]).render(),
        "Players a, b, c, and d tied!"
    );
}
