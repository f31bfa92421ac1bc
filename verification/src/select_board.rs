//! The menu from which a board is chosen: its state, what a key does to it,
//! and what it hands back once it is done.

use crate::board::{drawable, drawn_side, glyph, Board, BoardView};
use crate::text::{joined, row_texts, table_text, views};
use ratatui::widgets::ListState;
use vstd::prelude::*;

verus! {

/// The state of a list of `ratatui`: Verus sees nothing inside it.
#[verifier::external_type_specification]
#[verifier::external_body]
pub struct ExListState(ListState);

/// What `ListState::selected` returns for `state`: the index that the state
/// holds as selected, if it holds one.
pub uninterp spec fn selected_index(state: ListState) -> Option<usize>;

/// `ListState::selected` returns the index that the state holds.
pub assume_specification[ ListState::selected ](state: &ListState) -> (index: Option<usize>)
    ensures
        index == selected_index(*state),
;

/// `ListState::select_next` selects the index behind the selected one,
/// without passing the largest `usize`, and index 0 where none is selected.
pub assume_specification[ ListState::select_next ](state: &mut ListState)
    ensures
        selected_index(*final(state)) == next_index(selected_index(*old(state))),
;

/// `ListState::select_previous` selects the index before the selected one,
/// without passing 0, and the largest `usize` where none is selected.
pub assume_specification[ ListState::select_previous ](state: &mut ListState)
    ensures
        selected_index(*final(state)) == previous_index(selected_index(*old(state))),
;

/// `ListState::select_first` selects index 0.
pub assume_specification[ ListState::select_first ](state: &mut ListState)
    ensures
        selected_index(*final(state)) == Some(0usize),
;

/// A list state with nothing selected.
///
/// Trusted: the body calls `ListState::default`, which `ratatui` derives: an
/// offset of 0 and no selected index.
#[verifier::external_body]
fn empty_list_state() -> (state: ListState)
    ensures
        selected_index(state) == None::<usize>,
{
    ListState::default()
}

/// The index that follows `index` in a list.
pub open spec fn next_index(index: Option<usize>) -> Option<usize> {
    match index {
        Some(i) => if i == usize::MAX {
            Some(i)
        } else {
            Some((i + 1) as usize)
        },
        None => Some(0usize),
    }
}

/// The index that precedes `index` in a list.
pub open spec fn previous_index(index: Option<usize>) -> Option<usize> {
    match index {
        Some(i) => if i == 0 {
            Some(i)
        } else {
            Some((i - 1) as usize)
        },
        None => Some(usize::MAX),
    }
}

/// What the menu hands back when it is done.
pub enum SelectBoardTuiResult {
    /// The board that was chosen.
    Board(Board),
    /// Leave the game.
    Exit,
    /// Go on to create a board.
    CreateBoard,
    /// Go on to the scoreboards.
    ScoreBoards,
}

/// A key, as far as the menu tells keys apart.
#[derive(Clone, Copy, Debug, PartialEq, Eq, Structural)]
pub enum Key {
    Enter,
    Char(char),
    Down,
    Up,
    Other,
}

/// What the menu holds.
pub struct MenuState {
    pub exit: bool,
    pub selected: bool,
    pub create_board: bool,
    pub show_scoreboards: bool,
    pub boards: Seq<BoardView>,
    pub names: Seq<Seq<char>>,
    pub cursor: Option<usize>,
}

/// The menu from which a board is chosen.
pub struct SelectBoardTui {
    exit: bool,
    selected: bool,
    create_board: bool,
    show_scoreboards: bool,
    boards: Vec<Board>,
    board_names: Vec<String>,
    state: ListState,
}

impl View for SelectBoardTui {
    type V = MenuState;

    closed spec fn view(&self) -> MenuState {
        MenuState {
            exit: self.exit,
            selected: self.selected,
            create_board: self.create_board,
            show_scoreboards: self.show_scoreboards,
            boards: Seq::new(self.boards@.len(), |i: int| self.boards@[i]@),
            names: views(self.board_names@),
            cursor: selected_index(self.state),
        }
    }
}

/// The menu `s` after `key`: enter chooses the board under the cursor, `q`
/// leaves, `c` goes to the creation of a board, `s` to the scoreboards, `j`
/// and the down arrow move the cursor on, `k` and the up arrow move it back,
/// and every other key does nothing.
pub open spec fn after_key(s: MenuState, key: Key) -> MenuState {
    match key {
        Key::Enter => MenuState { selected: true, ..s },
        Key::Char(c) => if c == 'q' {
            MenuState { exit: true, ..s }
        } else if c == 'c' {
            MenuState { create_board: true, ..s }
        } else if c == 's' {
            MenuState { show_scoreboards: true, ..s }
        } else if c == 'j' {
            MenuState { cursor: next_index(s.cursor), ..s }
        } else if c == 'k' {
            MenuState { cursor: previous_index(s.cursor), ..s }
        } else {
            s
        },
        Key::Down => MenuState { cursor: next_index(s.cursor), ..s },
        Key::Up => MenuState { cursor: previous_index(s.cursor), ..s },
        Key::Other => s,
    }
}

/// Whether the menu is done: a key has chosen a board or a way out.
pub open spec fn done(s: MenuState) -> bool {
    s.exit || s.selected || s.create_board || s.show_scoreboards
}

/// Whether the cursor stands on a board.
pub open spec fn on_board(s: MenuState) -> bool {
    s.cursor is Some && s.cursor->Some_0 < s.boards.len()
}

impl SelectBoardTui {
    /// The menu over `boards` and their names, with the cursor on the first
    /// entry and nothing chosen.
    pub fn new(boards: Vec<Board>, board_names: Vec<String>) -> (menu: SelectBoardTui)
        ensures
            menu@ == (MenuState {
                exit: false,
                selected: false,
                create_board: false,
                show_scoreboards: false,
                boards: Seq::new(boards@.len(), |i: int| boards@[i]@),
                names: views(board_names@),
                cursor: Some(0usize),
            }),
    {
        let mut state = empty_list_state();
        state.select_first();
        SelectBoardTui {
            exit: false,
            selected: false,
            create_board: false,
            show_scoreboards: false,
            state,
            boards,
            board_names,
        }
    }

    /// Takes one key.
    pub fn key_event(&mut self, key: Key)
        ensures
            final(self)@ == after_key(old(self)@, key),
    {
        match key {
            Key::Enter => {
                self.selected = true;
            },
            Key::Char(c) => {
                if c == 'q' {
                    self.exit = true;
                } else if c == 'c' {
                    self.create_board = true;
                } else if c == 's' {
                    self.show_scoreboards = true;
                } else if c == 'j' {
                    self.select_next();
                } else if c == 'k' {
                    self.select_previous();
                }
            },
            Key::Down => {
                self.select_next();
            },
            Key::Up => {
                self.select_previous();
            },
            Key::Other => {},
        }
    }

    /// Moves the cursor on by one entry.
    pub fn select_next(&mut self)
        ensures
            final(self)@ == (MenuState { cursor: next_index(old(self)@.cursor), ..old(self)@ }),
    {
        self.state.select_next();
    }

    /// Moves the cursor back by one entry.
    pub fn select_previous(&mut self)
        ensures
            final(self)@ == (MenuState { cursor: previous_index(old(self)@.cursor), ..old(self)@ }),
    {
        self.state.select_previous();
    }

    /// Whether the menu is done.
    pub fn is_done(&self) -> (finished: bool)
        ensures
            finished == done(self@),
    {
        self.exit || self.selected || self.create_board || self.show_scoreboards
    }

    /// Whether the menu hands back a board: no way out was asked for.
    pub fn wants_board(&self) -> (wanted: bool)
        ensures
            wanted == takes_board(self@),
    {
        !self.exit && !self.create_board && !self.show_scoreboards
    }

    /// Whether the cursor stands on a board.
    pub fn has_selection(&self) -> (found: bool)
        ensures
            found == on_board(self@),
    {
        match self.state.selected() {
            Some(index) => index < self.boards.len(),
            None => false,
        }
    }

    /// The index under the cursor, if the cursor stands anywhere.
    pub fn cursor(&self) -> (index: Option<usize>)
        ensures
            index == self@.cursor,
    {
        self.state.selected()
    }

    /// The names of the boards, in the order of the list.
    pub fn board_names(&self) -> (names: &Vec<String>)
        ensures
            views(names@) == self@.names,
    {
        &self.board_names
    }

    /// The state of the list, for the widget that draws it. The widget may
    /// move the cursor; nothing else of the menu changes.
    pub fn list_state(&mut self) -> (state: &mut ListState)
        ensures
            selected_index(*state) == old(self)@.cursor,
            final(self)@ == (MenuState { cursor: selected_index(*final(state)), ..old(self)@ }),
    {
        &mut self.state
    }

    /// A copy of the board under the cursor.
    pub fn selected_board(&self) -> (board: Board)
        requires
            on_board(self@),
        ensures
            board@ == self@.boards[self@.cursor->Some_0 as int],
    {
        let index = self.state.selected().unwrap();
        self.boards[index].clone()
    }

    /// The drawn table of the board under the cursor, as one text.
    pub fn selected_text(&self) -> (text: String)
        requires
            on_board(self@),
            drawable(self@.boards[self@.cursor->Some_0 as int]),
        ensures
            text@ == board_text(self@.boards[self@.cursor->Some_0 as int]),
    {
        let board = self.selected_board();
        let table = board.get_table();
        proof {
            let b = board@;
            assert(row_texts(table@) =~= glyph_rows(b)) by {
                assert forall|i: int| 0 <= i < drawn_side(b) implies #[trigger] row_texts(table@)[i]
                    == glyph_rows(b)[i] by {
                    assert(views(table@[i]@) =~= Seq::new(
                        drawn_side(b) as nat,
                        |j: int| glyph(b, i, j),
                    ));
                }
            }
        }
        table_text(&table)
    }

    /// What the menu hands back: the way out that was asked for, leaving
    /// before the creation of a board and that before the scoreboards, and
    /// else the board under the cursor.
    pub fn outcome(&self) -> (result: SelectBoardTuiResult)
        requires
            takes_board(self@) ==> on_board(self@),
        ensures
            self@.exit ==> result is Exit,
            !self@.exit && self@.create_board ==> result is CreateBoard,
            !self@.exit && !self@.create_board && self@.show_scoreboards ==> result is ScoreBoards,
            takes_board(self@) ==> result is Board && result->Board_0@
                == self@.boards[self@.cursor->Some_0 as int],
    {
        if self.exit {
            SelectBoardTuiResult::Exit
        } else if self.create_board {
            SelectBoardTuiResult::CreateBoard
        } else if self.show_scoreboards {
            SelectBoardTuiResult::ScoreBoards
        } else {
            SelectBoardTuiResult::Board(self.selected_board())
        }
    }
}

/// Whether the menu hands back a board: no way out was asked for.
pub open spec fn takes_board(s: MenuState) -> bool {
    !s.exit && !s.create_board && !s.show_scoreboards
}

/// The rows of the drawn table of `b`, each as the glyphs one behind the
/// other.
pub open spec fn glyph_rows(b: BoardView) -> Seq<Seq<char>> {
    Seq::new(
        drawn_side(b) as nat,
        |i: int| joined(Seq::new(drawn_side(b) as nat, |j: int| glyph(b, i, j)), Seq::empty()),
    )
}

/// The drawn table of `b` as one text, a line feed between each two rows.
pub open spec fn board_text(b: BoardView) -> Seq<char> {
    joined(glyph_rows(b), seq!['\n'])
}

} // verus!
