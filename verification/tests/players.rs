use bucket_game::player::{Player, Players};

fn roster(symbols: &str) -> Vec<Player> {
    symbols.chars().map(Player::new).collect()
}

#[test]
fn a_player_is_its_symbol() {
    assert_eq!(Player::new('X'), Player('X'));
    assert_ne!(Player::new('X'), Player::new('O'));
    assert_eq!(Player::new('q').symbol(), 'q');
    assert_eq!(Player::default(), Player('\0'));
}

#[test]
fn the_default_players_are_x_and_o() {
    let players = Players::default();
    assert_eq!(players.len(), 2);
    assert_eq!(players[0], Player('X'));
    assert_eq!(players[1], Player('O'));
}

#[test]
fn the_turn_picks_the_player_cyclically() {
    let players = Players::new(roster("abc"));
    assert_eq!(players.len(), 3);
    assert_eq!(players.idx(0), 0);
    assert_eq!(players.idx(1), 1);
    assert_eq!(players.idx(2), 2);
    assert_eq!(players.idx(3), 0);
    assert_eq!(players.idx(100), 1);
    assert_eq!(players.idx(usize::MAX), usize::MAX % 3);
    assert_eq!(players.symbol_at(0), Player('a'));
    assert_eq!(players.symbol_at(4), Player('b'));
    assert_eq!(players.symbol_at(5), Player('c'));
}

#[test]
fn a_clone_seats_the_same_players() {
    let players = Players::new(roster("xyz"));
    let copy = players.clone();
    assert_eq!(copy.len(), 3);
    assert_eq!(copy[2], Player('z'));
}

#[test]
fn a_roster_needs_two_different_players() {
    assert!(!Players::is_valid_roster(&roster("")));
    assert!(!Players::is_valid_roster(&roster("a")));
    assert!(Players::is_valid_roster(&roster("ab")));
    assert!(!Players::is_valid_roster(&roster("aa")));
    assert!(Players::is_valid_roster(&roster("abcdefgh")));
    assert!(!Players::is_valid_roster(&roster("abcdefga")));
}

#[test]
fn the_least_repeated_symbol_is_found() {
    assert_eq!(Players::repeated(&roster("")), None);
    assert_eq!(Players::repeated(&roster("a")), None);
    assert_eq!(Players::repeated(&roster("abc")), None);
    assert_eq!(Players::repeated(&roster("aba")), Some(Player('a')));
    assert_eq!(Players::repeated(&roster("zbzb")), Some(Player('b')));
    assert_eq!(Players::repeated(&roster("zzbbaa")), Some(Player('a')));
    assert_eq!(Players::repeated(&roster("abcb")), Some(Player('b')));
}
