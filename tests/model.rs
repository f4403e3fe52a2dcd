use hnqai::board::{Board, BoardMove, BoardState, Move, Player, Position};
use hnqai::terminate::{HnefataflTerminator, DEFAULT_MAX_GAME_LENGTH};
use hnqai::training::{opponent_uses_values, outcome, Outcome, Tally};
use std::collections::HashSet;

fn pos(x: u8, y: u8) -> Position {
    Position { x, y }
}

fn mv(a: (u8, u8), b: (u8, u8)) -> Move {
    Move { from: pos(a.0, a.1), to: pos(b.0, b.1) }
}

fn board(attackers: Vec<Position>, king: Option<Position>, escaped: bool) -> Board {
    Board {
        attackers,
        king,
        king_escaped: escaped,
        next: Player::Black,
        legal_moves: vec![mv((0, 5), (0, 4)), mv((5, 0), (4, 0))],
    }
}

fn state(b: Board, player: Player, num_moves: usize) -> BoardState {
    BoardState { board: b, player, num_moves }
}

#[test]
fn captured_king_rewards() {
    let b = board(vec![pos(0, 5), pos(3, 3)], None, false);
    assert_eq!(state(b.clone(), Player::Black, 17).reward_quarters(), 4000);
    assert_eq!(state(b, Player::White, 17).reward_quarters(), -4000);
}

#[test]
fn escaped_king_rewards() {
    let b = board(vec![pos(0, 5)], Some(pos(0, 0)), true);
    assert_eq!(state(b.clone(), Player::Black, 3).reward_quarters(), -4000);
    assert_eq!(state(b, Player::White, 3).reward_quarters(), 4000);
}

#[test]
fn running_game_rewards() {
    let b = board(vec![pos(0, 5), pos(5, 0), pos(10, 5)], Some(pos(5, 5)), false);
    // 3 + (3 * 10 - 15) * 2 - 3 / 4 points
    assert_eq!(state(b.clone(), Player::Black, 3).reward_quarters(), 129);
    // 0 * 10 - 3 - 3 / 4 points
    assert_eq!(state(b, Player::White, 3).reward_quarters(), -15);
}

#[test]
fn only_ten_nearest_attackers_count() {
    let mut attackers: Vec<Position> = (1..=10).map(|x| pos(x, 0)).collect();
    attackers.push(pos(10, 10));
    attackers.push(pos(0, 10));
    let b = board(attackers, Some(pos(0, 0)), false);
    // nearest ten: 1..=9 and one 10, sum 55
    assert_eq!(state(b.clone(), Player::Black, 0).reward_quarters(), 408);
    assert_eq!(state(b, Player::White, 0).reward_quarters(), 352);
}

#[test]
fn no_attackers_left() {
    let b = board(vec![], Some(pos(2, 5)), false);
    assert_eq!(state(b.clone(), Player::Black, 8).reward_quarters(), -8);
    assert_eq!(state(b, Player::White, 8).reward_quarters(), 112);
}

#[test]
fn actions_of_running_game_are_legal_moves() {
    let b = board(vec![pos(0, 5)], Some(pos(5, 5)), false);
    let acts = state(b, Player::White, 0).actions();
    assert_eq!(
        acts,
        vec![
            BoardMove { piece_move: mv((0, 5), (0, 4)) },
            BoardMove { piece_move: mv((5, 0), (4, 0)) }
        ]
    );
}

#[test]
fn finished_games_offer_the_sentinel() {
    for b in [
        board(vec![pos(0, 5)], None, false),
        board(vec![pos(0, 5)], Some(pos(0, 0)), true),
    ] {
        let acts = state(b, Player::Black, 4).actions();
        assert_eq!(acts, vec![BoardMove::sentinel()]);
        assert_eq!(acts[0].piece_move.from, acts[0].piece_move.to);
    }
}

#[test]
fn terminator_with_one_ply_stops_at_once() {
    let b = board(vec![pos(0, 5)], Some(pos(5, 5)), false);
    let mut t = HnefataflTerminator::new(1);
    assert!(t.should_stop(&state(b, Player::Black, 0)));
}

#[test]
fn terminator_counts_down() {
    let b = board(vec![pos(0, 5)], Some(pos(5, 5)), false);
    let s = state(b, Player::Black, 0);
    let mut t = HnefataflTerminator::new(3);
    assert!(!t.should_stop(&s));
    assert!(!t.should_stop(&s));
    assert!(t.should_stop(&s));
}

#[test]
fn terminator_stops_on_finished_or_stuck_games() {
    let mut t = HnefataflTerminator::default();
    assert!(t.should_stop(&state(board(vec![], None, false), Player::Black, 0)));
    let mut t = HnefataflTerminator::new(DEFAULT_MAX_GAME_LENGTH);
    assert!(t.should_stop(&state(board(vec![], Some(pos(0, 0)), true), Player::White, 0)));
    let mut stuck = board(vec![pos(0, 5)], Some(pos(5, 5)), false);
    stuck.legal_moves.clear();
    let mut t = HnefataflTerminator::new(100);
    assert!(t.should_stop(&state(stuck, Player::White, 0)));
}

#[test]
fn move_count_separates_states() {
    let b = board(vec![pos(0, 5)], Some(pos(5, 5)), false);
    let s0 = state(b.clone(), Player::Black, 0);
    let s1 = state(b, Player::Black, 1);
    assert_ne!(s0, s1);
    let mut keys = HashSet::new();
    keys.insert(s0.clone());
    keys.insert(s1);
    keys.insert(s0);
    assert_eq!(keys.len(), 2);
}

#[test]
fn hand_over_and_reply_count_plies() {
    let b = board(vec![pos(0, 5)], Some(pos(5, 5)), false);
    let mut s = BoardState::new(b);
    assert_eq!(s.player, Player::Black);
    s.hand_over();
    assert_eq!(s.player, Player::White);
    assert_eq!(s.num_moves, 1);
    s.count_reply();
    assert_eq!(s.player, Player::White);
    assert_eq!(s.num_moves, 2);
}

#[test]
fn outcomes_and_tally() {
    let captured = board(vec![], None, false);
    let escaped = board(vec![], Some(pos(0, 0)), true);
    let drawn = board(vec![pos(1, 1)], Some(pos(5, 5)), false);
    assert_eq!(outcome(&captured), Outcome::Capture);
    assert_eq!(outcome(&escaped), Outcome::Escape);
    assert_eq!(outcome(&drawn), Outcome::Draw);
    let mut t = Tally::new();
    t.record(&captured);
    t.record(&escaped);
    t.record(&escaped);
    t.record(&drawn);
    assert_eq!((t.capture_wins, t.escape_wins, t.draws), (1, 2, 1));
    assert_eq!(t.games(), 4);
}

#[test]
fn opponents_alternate() {
    assert!(opponent_uses_values(1));
    assert!(!opponent_uses_values(2));
    assert!(opponent_uses_values(49));
    assert!(!opponent_uses_values(50));
}

#[test]
fn terminator_reports_what_is_left() {
    let b = board(vec![pos(0, 5)], Some(pos(5, 5)), false);
    let mut t = HnefataflTerminator::new(5);
    assert_eq!(t.left(), 5);
    t.should_stop(&state(b, Player::Black, 0));
    assert_eq!(t.left(), 4);
    assert_eq!(HnefataflTerminator::default().left(), 1000);
}
