use bucket_game::board::GameBoard;
use bucket_game::error::EvalError;
use bucket_game::player::{Player, Players};
use bucket_game::program::Brainfuck;

const X: Player = Player('X');
const O: Player = Player('O');

/// Everything that can be seen of a board.
fn snapshot(board: &GameBoard) -> (Vec<(Vec<Player>, usize, bool)>, usize, usize, Vec<Player>, u16) {
    let buckets = board
        .buckets()
        .iter()
        .map(|b| (b.counters().clone(), b.capacity(), b.locked()))
        .collect();
    let players = (0..board.player_count()).map(|i| board.players()[i]).collect();
    (buckets, board.position(), board.turn(), players, board.buffer_buckets())
}

fn counters(board: &GameBoard, index: usize) -> Vec<Player> {
    board.buckets()[index].counters().clone()
}

/// Plays empty moves until `turn` moves have been made.
fn pass_until(board: &mut GameBoard, turn: usize) {
    while board.turn() < turn {
        board.eval("", 10).unwrap();
    }
}

#[test]
fn a_new_board_is_at_the_start() {
    let board = GameBoard::new(vec![3, 1, 4], 2);
    assert_eq!(
        snapshot(&board),
        (
            vec![(vec![], 3, false), (vec![], 1, false), (vec![], 4, false)],
            0,
            0,
            vec![X, O],
            2
        )
    );
    assert_eq!(board.bucket_count(), 3);
    assert_eq!(board.player_count(), 2);
    assert_eq!(board.player_idx(), 0);
    assert_eq!(board.player(), X);
    assert_eq!(board.bucket().capacity(), 3);
}

#[test]
fn the_default_board_has_five_buckets_of_ten() {
    let board = GameBoard::default();
    assert_eq!(board.bucket_count(), 5);
    assert!(board.buckets().iter().all(|b| b.capacity() == 10 && b.is_empty()));
    assert_eq!(board.buffer_buckets(), 0);
    assert_eq!(board.turn(), 0);
    assert_eq!(board.position(), 0);
}

#[test]
fn a_committed_move_passes_the_turn() {
    let mut board = GameBoard::new(vec![3, 3], 0);
    assert_eq!(board.eval("+", 100), Ok(()));
    assert_eq!(board.turn(), 1);
    assert_eq!(board.player(), O);
    assert_eq!(counters(&board, 0), vec![X]);
    assert_eq!(board.eval(">+", 100), Ok(()));
    assert_eq!(board.turn(), 2);
    assert_eq!(board.player(), X);
    assert_eq!(board.position(), 1);
    assert_eq!(counters(&board, 1), vec![O]);
    assert_eq!(board.eval("<-", 100), Ok(()));
    assert_eq!(board.position(), 0);
    assert_eq!(counters(&board, 0), vec![]);
    assert_eq!(board.turn(), 3);
    assert_eq!(board.player_idx(), 1);
}

#[test]
fn the_players_move_in_a_cycle() {
    let mut board = GameBoard::new(vec![9], 0);
    board.set_players(Players::new(vec![Player('a'), Player('b'), Player('c')]));
    let mut seen = Vec::new();
    for _ in 0..7 {
        seen.push(board.player());
        board.eval("", 1).unwrap();
    }
    let expected: Vec<Player> = "abcabca".chars().map(Player::new).collect();
    assert_eq!(seen, expected);
    assert_eq!(board.player_idx(), 1);
}

#[test]
fn the_position_is_kept_between_moves() {
    let mut board = GameBoard::new(vec![2, 2, 2], 0);
    board.eval(">", 10).unwrap();
    board.eval(">", 10).unwrap();
    assert_eq!(board.position(), 2);
    board.eval("+", 10).unwrap();
    assert_eq!(counters(&board, 2), vec![X]);
}

#[test]
fn a_program_longer_than_the_turn_allows_is_rejected() {
    let mut board = GameBoard::new(vec![9], 0);
    let before = snapshot(&board);
    assert_eq!(board.eval("++", 100), Err(EvalError::Length { len: 2, turn: 1 }));
    assert_eq!(snapshot(&board), before);
    assert_eq!(board.eval("+", 100), Ok(()));
    assert_eq!(board.eval("+++", 100), Err(EvalError::Length { len: 3, turn: 2 }));
    assert_eq!(board.eval("++", 100), Ok(()));
    assert_eq!(board.eval("+ + +", 100), Ok(()));
    assert_eq!(board.eval("+-+-+", 100), Err(EvalError::Length { len: 5, turn: 4 }));
    assert_eq!(board.turn(), 3);
}

#[test]
fn the_length_is_checked_before_anything_runs() {
    let mut board = GameBoard::new(vec![5], 0);
    assert_eq!(board.eval("<<", 100), Err(EvalError::Length { len: 2, turn: 1 }));
    assert_eq!(board.eval("<<", 0), Err(EvalError::Length { len: 2, turn: 1 }));
}

#[test]
fn a_tokenizer_error_comes_before_the_length_check() {
    let mut board = GameBoard::new(vec![5], 0);
    let before = snapshot(&board);
    assert_eq!(
        board.eval("hello", 100),
        Err(EvalError::InvalidChar { c: 'h', idx: 0 })
    );
    assert_eq!(board.eval("[++", 100), Err(EvalError::MismatchedLeft { idx: 0 }));
    assert_eq!(board.eval("++]", 100), Err(EvalError::MismatchedRight { idx: 2 }));
    assert_eq!(snapshot(&board), before);
}

#[test]
fn moving_right_on_a_single_bucket_goes_over_bounds() {
    let mut board = GameBoard::new(vec![4], 0);
    let before = snapshot(&board);
    assert_eq!(board.eval(">", 100), Err(EvalError::OverBounds));
    assert_eq!(snapshot(&board), before);
    assert_eq!(board.position(), 0);
}

#[test]
fn moving_left_from_the_first_bucket_goes_under_bounds() {
    let mut board = GameBoard::new(vec![4, 4, 4], 0);
    let before = snapshot(&board);
    assert_eq!(board.eval("<", 100), Err(EvalError::UnderBounds));
    assert_eq!(snapshot(&board), before);
    let mut single = GameBoard::new(vec![1], 3);
    assert_eq!(single.eval("<", 1), Err(EvalError::UnderBounds));
}

#[test]
fn moving_right_past_the_last_bucket_goes_over_bounds() {
    let mut board = GameBoard::new(vec![1, 1], 0);
    board.eval(">", 10).unwrap();
    let before = snapshot(&board);
    assert_eq!(board.eval(">", 10), Err(EvalError::OverBounds));
    assert_eq!(snapshot(&board), before);
    assert_eq!(board.eval("<", 10), Ok(()));
    assert_eq!(board.position(), 0);
}

#[test]
fn a_failed_move_undoes_what_it_did() {
    let mut board = GameBoard::new(vec![3, 3], 1);
    pass_until(&mut board, 5);
    board.eval("+>+", 100).unwrap();
    let before = snapshot(&board);
    // Adds two counters, moves left, then removes one counter too many.
    assert_eq!(
        board.eval("++<--", 100),
        Err(EvalError::Underflow { position: 0 })
    );
    assert_eq!(snapshot(&board), before);
    assert_eq!(board.eval("+>>", 100), Err(EvalError::OverBounds));
    assert_eq!(snapshot(&board), before);
    assert_eq!(board.eval("<+++", 100), Err(EvalError::Overflow { position: 0 }));
    assert_eq!(snapshot(&board), before);
    assert_eq!(board.eval("<<", 100), Err(EvalError::UnderBounds));
    assert_eq!(snapshot(&board), before);
    assert_eq!(board.eval("+[]", 50), Err(EvalError::MaxSteps));
    assert_eq!(snapshot(&board), before);
}

#[test]
fn a_failed_move_does_not_pass_the_turn() {
    let mut board = GameBoard::new(vec![3], 0);
    assert_eq!(board.eval("-", 10), Err(EvalError::Underflow { position: 0 }));
    assert_eq!(board.turn(), 0);
    assert_eq!(board.player(), X);
    assert_eq!(board.eval("+", 10), Ok(()));
    assert_eq!(board.player(), O);
}

#[test]
fn the_board_stays_usable_after_an_error() {
    let mut board = GameBoard::new(vec![2, 2], 0);
    assert!(board.eval("?", 10).is_err());
    assert!(board.eval(">>", 10).is_err());
    assert!(board.eval("-", 10).is_err());
    assert_eq!(board.eval("+", 10), Ok(()));
    assert_eq!(counters(&board, 0), vec![X]);
    assert_eq!(board.turn(), 1);
}

#[test]
fn errors_report_the_bucket_they_happened_in() {
    let mut board = GameBoard::new(vec![1, 1, 0], 0);
    pass_until(&mut board, 4);
    assert_eq!(board.eval(">-", 10), Err(EvalError::Underflow { position: 1 }));
    assert_eq!(board.eval(">>+", 10), Err(EvalError::Overflow { position: 2 }));
    board.eval(">+", 10).unwrap();
    assert_eq!(board.eval("+", 10), Err(EvalError::LockedIncr { position: 1 }));
    assert_eq!(board.eval("-", 10), Err(EvalError::LockedDecr { position: 1 }));
}

#[test]
fn a_loop_runs_while_the_active_bucket_holds_counters() {
    let mut board = GameBoard::new(vec![5, 5], 0);
    pass_until(&mut board, 10);
    board.eval("+++", 100).unwrap();
    // Empties the first bucket, one counter in each round.
    assert_eq!(board.eval("[-]", 100), Ok(()));
    assert_eq!(counters(&board, 0), vec![]);
    // On an empty bucket the loop is skipped.
    assert_eq!(board.eval("[+]>+", 100), Ok(()));
    assert_eq!(counters(&board, 0), vec![]);
    assert_eq!(board.position(), 1);
    assert_eq!(counters(&board, 1).len(), 1);
}

#[test]
fn a_loop_that_adds_counters_ends_in_overflow() {
    let mut board = GameBoard::new(vec![3], 0);
    pass_until(&mut board, 4);
    board.eval("+", 10).unwrap();
    let before = snapshot(&board);
    // The player on move is not the owner, so the bucket fills up without locking.
    assert_eq!(board.player(), O);
    assert_eq!(board.eval("[+]", 1000), Err(EvalError::Overflow { position: 0 }));
    assert_eq!(snapshot(&board), before);
}

#[test]
fn a_loop_that_locks_the_bucket_ends_in_a_locked_increment() {
    let mut board = GameBoard::new(vec![3], 0);
    pass_until(&mut board, 4);
    assert_eq!(board.player(), X);
    assert_eq!(board.eval("+[+]", 1000), Err(EvalError::LockedIncr { position: 0 }));
    assert_eq!(counters(&board, 0), vec![]);
}

#[test]
fn each_instruction_costs_one_step() {
    let mut board = GameBoard::new(vec![9], 0);
    pass_until(&mut board, 3);
    assert_eq!(board.eval("+++", 2), Err(EvalError::MaxSteps));
    assert_eq!(board.eval("+++", 1), Err(EvalError::MaxSteps));
    assert_eq!(board.eval("+++", 0), Err(EvalError::MaxSteps));
    assert_eq!(counters(&board, 0), vec![]);
    assert_eq!(board.eval("+++", 3), Ok(()));
    assert_eq!(counters(&board, 0).len(), 3);
}

#[test]
fn a_jump_costs_one_step_whichever_way_it_goes() {
    let mut board = GameBoard::new(vec![9], 0);
    pass_until(&mut board, 3);
    // Empty bucket: `[` jumps to `]`, which falls through.
    assert_eq!(board.eval("[]", 1), Err(EvalError::MaxSteps));
    assert_eq!(board.eval("[]", 2), Ok(()));
    // One counter: `+`, `[` falls through, `-`, `]` falls through.
    assert_eq!(board.eval("+[-]", 3), Err(EvalError::MaxSteps));
    assert_eq!(board.eval("+[-]", 4), Ok(()));
}

#[test]
fn the_empty_move_needs_no_step() {
    let mut board = GameBoard::new(vec![1], 0);
    assert_eq!(board.eval("", 0), Ok(()));
    assert_eq!(board.eval("  \n", 0), Ok(()));
    assert_eq!(board.turn(), 2);
}

#[test]
fn an_endless_loop_fails_with_every_budget() {
    let mut board = GameBoard::new(vec![9], 0);
    board.eval("+", 10).unwrap();
    let before = snapshot(&board);
    for budget in [0u32, 1, 2, 3, 10, 11, 1000, 1001] {
        assert_eq!(board.eval("[]", budget), Err(EvalError::MaxSteps));
        assert_eq!(snapshot(&board), before);
    }
}

#[test]
fn run_takes_exactly_as_many_steps_as_the_budget() {
    // `[+]` on a bucket that holds a counter: three steps a round, one counter a round.
    for (budget, expected) in [(0u32, 1usize), (1, 1), (2, 2), (3, 2), (4, 2), (5, 3), (7, 3), (8, 4)] {
        let mut board = GameBoard::new(vec![100, 5], 0);
        pass_until(&mut board, 4);
        board.eval("+", 10).unwrap();
        let program = Brainfuck::new("[+]").unwrap();
        assert_eq!(board.run(program, budget), Err(EvalError::MaxSteps));
        assert_eq!(counters(&board, 0).len(), expected);
        assert_eq!(board.turn(), 5);
    }
}

#[test]
fn run_leaves_the_board_as_the_failing_instruction_left_it() {
    let mut board = GameBoard::new(vec![3, 3], 0);
    pass_until(&mut board, 6);
    let program = Brainfuck::new("+>+>+").unwrap();
    assert_eq!(board.run(program, 100), Err(EvalError::OverBounds));
    assert_eq!(counters(&board, 0), vec![X]);
    assert_eq!(counters(&board, 1), vec![X]);
    assert_eq!(board.position(), 2);
    assert_eq!(board.turn(), 6);
}

#[test]
fn run_does_not_pass_the_turn() {
    let mut board = GameBoard::new(vec![3, 3], 0);
    let program = Brainfuck::new("+").unwrap();
    assert_eq!(board.run(program, 5), Ok(()));
    assert_eq!(board.turn(), 0);
    assert_eq!(counters(&board, 0), vec![X]);
}

#[test]
fn run_checks_the_length_of_the_program() {
    let mut board = GameBoard::new(vec![3, 3], 0);
    let program = Brainfuck::new("+>").unwrap();
    assert_eq!(board.run(program, 5), Err(EvalError::Length { len: 2, turn: 1 }));
    assert_eq!(counters(&board, 0), vec![]);
    assert_eq!(board.position(), 0);
}

#[test]
fn run_starts_at_the_pointer_of_the_program() {
    let mut board = GameBoard::new(vec![3, 3], 0);
    pass_until(&mut board, 2);
    let mut program = Brainfuck::new("+>+").unwrap();
    program.jump(1);
    assert_eq!(board.run(program, 5), Ok(()));
    assert_eq!(counters(&board, 0), vec![]);
    assert_eq!(counters(&board, 1), vec![X]);
}

#[test]
fn eval_symbols_plays_the_symbols_given() {
    let mut board = GameBoard::new(vec![3, 3], 0);
    assert_eq!(board.eval_symbols(&vec!['+'], 5), Ok(()));
    assert_eq!(counters(&board, 0), vec![X]);
    assert_eq!(
        board.eval_symbols(&vec![' ', '+'], 5),
        Err(EvalError::InvalidChar { c: ' ', idx: 0 })
    );
    assert_eq!(
        board.eval_symbols(&vec!['>', '+', '<'], 5),
        Err(EvalError::Length { len: 3, turn: 2 })
    );
    assert_eq!(board.eval_symbols(&vec!['>', '+'], 5), Ok(()));
    assert_eq!(counters(&board, 1), vec![O]);
    assert_eq!(board.turn(), 2);
}

#[test]
fn reset_empties_the_buckets_and_starts_over() {
    let mut board = GameBoard::new(vec![1, 2], 1);
    board.set_players(Players::new(vec![Player('a'), Player('b'), Player('c')]));
    board.eval("+", 10).unwrap();
    board.eval(">+", 10).unwrap();
    assert!(board.buckets()[0].locked());
    board.reset();
    assert_eq!(
        snapshot(&board),
        (
            vec![(vec![], 1, false), (vec![], 2, false)],
            0,
            0,
            vec![Player('a'), Player('b'), Player('c')],
            1
        )
    );
}

#[test]
fn reset_with_replaces_the_buckets() {
    let mut board = GameBoard::new(vec![1, 2], 4);
    board.eval("+", 10).unwrap();
    board.eval(">", 10).unwrap();
    board.reset_with(vec![7, 8, 9]);
    assert_eq!(
        snapshot(&board),
        (
            vec![(vec![], 7, false), (vec![], 8, false), (vec![], 9, false)],
            0,
            0,
            vec![X, O],
            4
        )
    );
}

#[test]
fn reconfiguration_keeps_the_rest_of_the_board() {
    let mut board = GameBoard::new(vec![2, 2], 0);
    board.eval("+", 10).unwrap();
    board.eval(">", 10).unwrap();
    board.set_buffer_buckets(7);
    board.set_players(Players::new(vec![Player('p'), Player('q')]));
    assert_eq!(
        snapshot(&board),
        (
            vec![(vec![X], 2, false), (vec![], 2, false)],
            1,
            2,
            vec![Player('p'), Player('q')],
            7
        )
    );
    assert_eq!(board.player(), Player('p'));
}

#[test]
fn a_clone_is_a_board_of_its_own() {
    let mut board = GameBoard::new(vec![2, 2], 3);
    board.eval("+", 10).unwrap();
    let copy = board.clone();
    board.eval(">+", 10).unwrap();
    assert_eq!(
        snapshot(&copy),
        (vec![(vec![X], 2, false), (vec![], 2, false)], 0, 1, vec![X, O], 3)
    );
}
