use bucket_game::error::EvalError;
use bucket_game::program::{Brainfuck, BrainfuckToken, Command};
use bucket_game::symbols::symbols;

fn tokens_of(text: &str) -> Vec<BrainfuckToken> {
    Brainfuck::new(text).unwrap().tokens().clone()
}

#[test]
fn commands_map_one_to_one() {
    assert_eq!(
        tokens_of("+-<>"),
        vec![
            BrainfuckToken::Command { cmd: Command::Increment },
            BrainfuckToken::Command { cmd: Command::Decrement },
            BrainfuckToken::Command { cmd: Command::MoveLeft },
            BrainfuckToken::Command { cmd: Command::MoveRight },
        ]
    );
}

#[test]
fn empty_text_is_the_empty_program() {
    let program = Brainfuck::new("").unwrap();
    assert_eq!(program.len(), 0);
    assert_eq!(program.pointer(), 0);
    assert_eq!(program.read(), None);
}

#[test]
fn a_fresh_program_points_at_its_first_instruction() {
    let program = Brainfuck::new("-+").unwrap();
    assert_eq!(program.pointer(), 0);
    assert_eq!(
        program.read(),
        Some(BrainfuckToken::Command { cmd: Command::Decrement })
    );
}

#[test]
fn advance_and_jump_move_the_pointer() {
    let mut program = Brainfuck::new("+-<").unwrap();
    program.advance();
    assert_eq!(program.pointer(), 1);
    assert_eq!(
        program.read(),
        Some(BrainfuckToken::Command { cmd: Command::Decrement })
    );
    program.jump(2);
    assert_eq!(
        program.read(),
        Some(BrainfuckToken::Command { cmd: Command::MoveLeft })
    );
    program.jump(3);
    assert_eq!(program.read(), None);
}

#[test]
fn brackets_point_at_each_other() {
    assert_eq!(
        tokens_of("[+]"),
        vec![
            BrainfuckToken::JumpIfZero { target: 2 },
            BrainfuckToken::Command { cmd: Command::Increment },
            BrainfuckToken::JumpIfNonzero { target: 0 },
        ]
    );
}

#[test]
fn nested_and_adjacent_brackets_are_paired() {
    assert_eq!(
        tokens_of("[[-]>[]]"),
        vec![
            BrainfuckToken::JumpIfZero { target: 7 },
            BrainfuckToken::JumpIfZero { target: 3 },
            BrainfuckToken::Command { cmd: Command::Decrement },
            BrainfuckToken::JumpIfNonzero { target: 1 },
            BrainfuckToken::Command { cmd: Command::MoveRight },
            BrainfuckToken::JumpIfZero { target: 6 },
            BrainfuckToken::JumpIfNonzero { target: 5 },
            BrainfuckToken::JumpIfNonzero { target: 0 },
        ]
    );
}

#[test]
fn every_jump_is_answered_by_its_target() {
    let tokens = tokens_of("+[>[-]<[[+]>]-]<[]");
    for (i, token) in tokens.iter().enumerate() {
        match *token {
            BrainfuckToken::JumpIfZero { target } => {
                assert_eq!(tokens[target], BrainfuckToken::JumpIfNonzero { target: i });
            }
            BrainfuckToken::JumpIfNonzero { target } => {
                assert_eq!(tokens[target], BrainfuckToken::JumpIfZero { target: i });
            }
            BrainfuckToken::Command { .. } => {}
        }
    }
}

#[test]
fn unclosed_left_bracket_is_reported_at_its_index() {
    assert_eq!(
        Brainfuck::new("[++").unwrap_err(),
        EvalError::MismatchedLeft { idx: 0 }
    );
}

#[test]
fn unopened_right_bracket_is_reported_at_its_index() {
    assert_eq!(
        Brainfuck::new("++]").unwrap_err(),
        EvalError::MismatchedRight { idx: 2 }
    );
}

#[test]
fn the_oldest_unclosed_bracket_is_reported() {
    assert_eq!(
        Brainfuck::new("[[+").unwrap_err(),
        EvalError::MismatchedLeft { idx: 0 }
    );
    assert_eq!(
        Brainfuck::new("[]+[[-]").unwrap_err(),
        EvalError::MismatchedLeft { idx: 3 }
    );
    assert_eq!(
        Brainfuck::new("[[][").unwrap_err(),
        EvalError::MismatchedLeft { idx: 0 }
    );
}

#[test]
fn a_right_bracket_after_a_closed_pair_is_unopened() {
    assert_eq!(
        Brainfuck::new("[]]").unwrap_err(),
        EvalError::MismatchedRight { idx: 2 }
    );
}

#[test]
fn the_first_fault_decides_the_error() {
    assert_eq!(
        Brainfuck::new("]x").unwrap_err(),
        EvalError::MismatchedRight { idx: 0 }
    );
    assert_eq!(
        Brainfuck::new("x]").unwrap_err(),
        EvalError::InvalidChar { c: 'x', idx: 0 }
    );
    assert_eq!(
        Brainfuck::new("[a").unwrap_err(),
        EvalError::InvalidChar { c: 'a', idx: 1 }
    );
}

#[test]
fn other_characters_are_invalid() {
    assert_eq!(
        Brainfuck::new("+.").unwrap_err(),
        EvalError::InvalidChar { c: '.', idx: 1 }
    );
    assert_eq!(
        Brainfuck::new("hello").unwrap_err(),
        EvalError::InvalidChar { c: 'h', idx: 0 }
    );
}

#[test]
fn white_space_is_skipped_and_not_counted() {
    assert_eq!(symbols(" +\t-\n> "), vec!['+', '-', '>']);
    assert_eq!(symbols(""), Vec::<char>::new());
    assert_eq!(symbols(" \u{a0}\u{3000}\r\n"), Vec::<char>::new());
    assert_eq!(tokens_of(" + \n - "), tokens_of("+-"));
    assert_eq!(
        Brainfuck::new("+ +\tx").unwrap_err(),
        EvalError::InvalidChar { c: 'x', idx: 2 }
    );
    assert_eq!(
        Brainfuck::new("  + ]").unwrap_err(),
        EvalError::MismatchedRight { idx: 1 }
    );
    assert_eq!(
        Brainfuck::new(" \n[ +").unwrap_err(),
        EvalError::MismatchedLeft { idx: 0 }
    );
}

#[test]
fn parse_takes_symbols_as_they_are() {
    let program = Brainfuck::parse(&vec!['[', ']']).unwrap();
    assert_eq!(
        program.tokens().clone(),
        vec![
            BrainfuckToken::JumpIfZero { target: 1 },
            BrainfuckToken::JumpIfNonzero { target: 0 },
        ]
    );
    assert_eq!(
        Brainfuck::parse(&vec!['+', ' ']).unwrap_err(),
        EvalError::InvalidChar { c: ' ', idx: 1 }
    );
}

/// Tokenizes with an explicit stack of open brackets.
fn with_a_stack(symbols: &[char]) -> Result<Vec<BrainfuckToken>, EvalError> {
    let mut open: Vec<usize> = Vec::new();
    let mut tokens = Vec::new();
    for (idx, &c) in symbols.iter().enumerate() {
        match c {
            '+' => tokens.push(BrainfuckToken::Command { cmd: Command::Increment }),
            '-' => tokens.push(BrainfuckToken::Command { cmd: Command::Decrement }),
            '<' => tokens.push(BrainfuckToken::Command { cmd: Command::MoveLeft }),
            '>' => tokens.push(BrainfuckToken::Command { cmd: Command::MoveRight }),
            '[' => {
                tokens.push(BrainfuckToken::JumpIfZero { target: usize::MAX });
                open.push(idx);
            }
            ']' => match open.pop() {
                Some(partner) => {
                    tokens.push(BrainfuckToken::JumpIfNonzero { target: partner });
                    tokens[partner] = BrainfuckToken::JumpIfZero { target: idx };
                }
                None => return Err(EvalError::MismatchedRight { idx }),
            },
            _ => return Err(EvalError::InvalidChar { c, idx }),
        }
    }
    match open.first() {
        Some(&idx) => Err(EvalError::MismatchedLeft { idx }),
        None => Ok(tokens),
    }
}

#[test]
fn tokenizing_agrees_with_a_stack_of_open_brackets() {
    let alphabet = ['[', ']', '+', '>', 'x'];
    for len in 0..=7u32 {
        for code in 0..alphabet.len().pow(len) {
            let mut rest = code;
            let mut symbols = Vec::new();
            for _ in 0..len {
                symbols.push(alphabet[rest % alphabet.len()]);
                rest /= alphabet.len();
            }
            let expected = with_a_stack(&symbols);
            match Brainfuck::parse(&symbols) {
                Ok(program) => assert_eq!(Ok(program.tokens().clone()), expected),
                Err(e) => assert_eq!(Err(e), expected),
            }
        }
    }
}
