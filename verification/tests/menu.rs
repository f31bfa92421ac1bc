use snake::board::Board;
use snake::point::Point;
use snake::select_board::{Key, SelectBoardTui, SelectBoardTuiResult};

fn menu_of_two() -> SelectBoardTui {
    SelectBoardTui::new(
        vec![Board::default(), Board::new(2, vec![Point::new(1, 0)])],
        vec!["first".to_string(), "second".to_string()],
    )
}

#[test]
fn new_menu_points_at_the_first_board() {
    let menu = menu_of_two();
    assert_eq!(menu.cursor(), Some(0));
    assert!(!menu.is_done());
    assert!(menu.has_selection());
    assert_eq!(*menu.board_names(), vec!["first".to_string(), "second".to_string()]);
    assert_eq!(menu.selected_board().get_size(), 10);
}

#[test]
fn down_and_j_move_the_cursor_on() {
    let mut menu = menu_of_two();
    menu.key_event(Key::Down);
    assert_eq!(menu.cursor(), Some(1));
    assert!(menu.has_selection());
    assert_eq!(menu.selected_board().get_size(), 2);
    menu.key_event(Key::Char('j'));
    assert_eq!(menu.cursor(), Some(2));
    assert!(!menu.has_selection());
    assert!(!menu.is_done());
}

#[test]
fn up_and_k_move_the_cursor_back() {
    let mut menu = menu_of_two();
    menu.key_event(Key::Down);
    menu.key_event(Key::Down);
    menu.key_event(Key::Up);
    assert_eq!(menu.cursor(), Some(1));
    menu.key_event(Key::Char('k'));
    assert_eq!(menu.cursor(), Some(0));
    menu.key_event(Key::Up);
    assert_eq!(menu.cursor(), Some(0));
}

#[test]
fn select_next_and_previous_stop_at_the_ends() {
    let mut menu = menu_of_two();
    menu.list_state().select(None);
    assert_eq!(menu.cursor(), None);
    assert!(!menu.has_selection());
    menu.select_previous();
    assert_eq!(menu.cursor(), Some(usize::MAX));
    menu.select_next();
    assert_eq!(menu.cursor(), Some(usize::MAX));
    menu.select_previous();
    assert_eq!(menu.cursor(), Some(usize::MAX - 1));
    menu.list_state().select(None);
    menu.select_next();
    assert_eq!(menu.cursor(), Some(0));
}

#[test]
fn list_state_hands_the_cursor_to_the_widget() {
    let mut menu = menu_of_two();
    assert_eq!(menu.list_state().selected(), Some(0));
    menu.list_state().select(Some(1));
    assert_eq!(menu.cursor(), Some(1));
    assert!(!menu.is_done());
}

#[test]
fn other_keys_change_nothing() {
    let mut menu = menu_of_two();
    menu.key_event(Key::Other);
    menu.key_event(Key::Char('x'));
    menu.key_event(Key::Char('Q'));
    assert_eq!(menu.cursor(), Some(0));
    assert!(!menu.is_done());
}

#[test]
fn enter_hands_back_the_board_under_the_cursor() {
    let mut menu = menu_of_two();
    menu.key_event(Key::Down);
    menu.key_event(Key::Enter);
    assert!(menu.is_done());
    match menu.outcome() {
        SelectBoardTuiResult::Board(board) => {
            assert_eq!(board.get_size(), 2);
            assert_eq!(*board.walls(), vec![Point::new(1, 0)]);
        }
        _ => panic!("a board was chosen"),
    }
}

#[test]
fn q_leaves() {
    let mut menu = menu_of_two();
    menu.key_event(Key::Char('q'));
    assert!(menu.is_done());
    assert!(matches!(menu.outcome(), SelectBoardTuiResult::Exit));
}

#[test]
fn c_goes_to_the_creation_of_a_board() {
    let mut menu = menu_of_two();
    menu.key_event(Key::Char('c'));
    assert!(menu.is_done());
    assert!(matches!(menu.outcome(), SelectBoardTuiResult::CreateBoard));
}

#[test]
fn s_goes_to_the_scoreboards() {
    let mut menu = menu_of_two();
    menu.key_event(Key::Char('s'));
    assert!(menu.is_done());
    assert!(matches!(menu.outcome(), SelectBoardTuiResult::ScoreBoards));
}

#[test]
fn ways_out_come_before_the_board() {
    let mut menu = menu_of_two();
    menu.key_event(Key::Enter);
    menu.key_event(Key::Char('s'));
    assert!(matches!(menu.outcome(), SelectBoardTuiResult::ScoreBoards));
    menu.key_event(Key::Char('c'));
    assert!(matches!(menu.outcome(), SelectBoardTuiResult::CreateBoard));
    menu.key_event(Key::Char('q'));
    assert!(matches!(menu.outcome(), SelectBoardTuiResult::Exit));
}

#[test]
fn way_out_needs_no_board() {
    let mut menu = SelectBoardTui::new(Vec::new(), Vec::new());
    assert!(!menu.has_selection());
    menu.key_event(Key::Char('q'));
    assert!(matches!(menu.outcome(), SelectBoardTuiResult::Exit));
}

#[test]
fn selected_text_draws_the_board_under_the_cursor() {
    let mut menu = menu_of_two();
    menu.key_event(Key::Down);
    assert_eq!(menu.selected_text(), "┌──┐\n│  │\n│█ │\n└──┘");
}
