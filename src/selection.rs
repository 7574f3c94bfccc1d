//! The games on offer and the menu that picks one.
use vstd::prelude::*;
use crate::common::Direction;
use crate::dot_screen::DotScreen;
use crate::joystick::JoyStickSignal;
use crate::snake::{SnakeGame, snake_title_columns};

verus! {

/// How many games the menu offers.
pub const NUMBER_OF_GAMES: usize = 1;

/// One of the games, each in a variant of its own.
pub enum DotGame {
    Snake(SnakeGame),
}

/// The column bytes of a game's title screen.
pub open spec fn title_columns(game: DotGame) -> Seq<u8> {
    match game {
        DotGame::Snake(_) => snake_title_columns(),
    }
}

impl DotGame {
    /// The game is in a consistent state.
    pub open spec fn wf(&self) -> bool {
        match self {
            DotGame::Snake(g) => g.wf(),
        }
    }

    /// The game is at the start of a round.
    pub open spec fn is_initial(&self) -> bool {
        match self {
            DotGame::Snake(g) => g.is_initial(),
        }
    }

    /// The title screen of the game.
    pub fn title_screen(&self) -> (r: DotScreen)
        ensures
            r.columns@ == title_columns(*self),
    {
        match self {
            DotGame::Snake(g) => g.title_screen(),
        }
    }

    /// Puts the game back at the start of a round.
    pub fn reset(&mut self)
        ensures
            final(self).wf(),
            final(self).is_initial(),
    {
        match self {
            DotGame::Snake(g) => g.reset(),
        }
    }
}

/// What the menu did with a signal.
#[derive(Clone, Copy, Debug, PartialEq, Eq, Structural)]
pub enum MenuAction {
    /// The button was pressed: the current game is chosen.
    Select,
    /// The selection moved to the previous game.
    Previous,
    /// The selection moved to the next game.
    Next,
    /// Nothing changed.
    Stay,
}

/// The menu: a fixed list of games and the one currently shown.
pub struct SelectionScreen {
    games: Vec<DotGame>,
    index: usize,
}

impl SelectionScreen {
    /// How many games the menu holds.
    pub closed spec fn count(&self) -> nat {
        self.games@.len()
    }

    /// The place of the current game in the list.
    pub closed spec fn position(&self) -> nat {
        self.index as nat
    }

    /// The games, in the order the menu shows them.
    pub closed spec fn lineup(&self) -> Seq<DotGame> {
        self.games@
    }

    /// The game at place `i`.
    pub open spec fn game(&self, i: int) -> DotGame {
        self.lineup()[i]
    }

    /// The menu holds its games and the current place is one of them.
    pub open spec fn wf(&self) -> bool {
        self.count() == NUMBER_OF_GAMES && self.position() < self.count()
    }

    /// The menu with every game at the start of a round, showing the first.
    pub fn new() -> (r: Self)
        ensures
            r.wf(),
            r.position() == 0,
            forall|i: int| 0 <= i < r.count() ==> #[trigger] r.game(i).is_initial() && r.game(i).wf(),
            r.game(0) is Snake,
    {
        let games = vec![DotGame::Snake(SnakeGame::new())];
        SelectionScreen { games, index: 0 }
    }

    /// The title screen of the current game.
    pub fn current_title_screen(&self) -> (r: DotScreen)
        requires
            self.wf(),
        ensures
            r.columns@ == title_columns(self.game(self.position() as int)),
    {
        self.games[self.index].title_screen()
    }

    /// Moves to the next game, from the last back to the first.
    fn next(&mut self)
        requires
            old(self).wf(),
        ensures
            final(self).wf(),
            final(self).position() == (old(self).position() + 1) % old(self).count(),
            final(self).games == old(self).games,
    {
        self.index = (self.index + 1) % NUMBER_OF_GAMES;
    }

    /// Moves to the previous game, from the first round to the last.
    fn prev(&mut self)
        requires
            old(self).wf(),
        ensures
            final(self).wf(),
            final(self).position() == (old(self).position() + old(self).count() - 1) % (old(
                self,
            ).count() as int),
            final(self).games == old(self).games,
    {
        self.index = (self.index + NUMBER_OF_GAMES - 1) % NUMBER_OF_GAMES;
    }

    /// Ends the menu and hands over the current game.
    pub fn select(self) -> (r: DotGame)
        requires
            self.wf(),
        ensures
            r == self.game(self.position() as int),
    {
        let mut games = self.games;
        games.swap_remove(self.index)
    }

    /// Reacts to one signal: a pressed button chooses the current game; else
    /// a signal pointing left or right moves to the previous or next game,
    /// round the list; anything else changes nothing.
    pub fn react(&mut self, signal: &JoyStickSignal) -> (r: MenuAction)
        requires
            old(self).wf(),
        ensures
            final(self).wf(),
            final(self).lineup() == old(self).lineup(),
            signal.button ==> r == MenuAction::Select && final(self).position() == old(
                self,
            ).position(),
            !signal.button && signal.spec_single_direction() == Some(Direction::Left) ==> r
                == MenuAction::Previous && final(self).position() == (old(self).position()
                + old(self).count() - 1) % (old(self).count() as int),
            !signal.button && signal.spec_single_direction() == Some(Direction::Right) ==> r
                == MenuAction::Next && final(self).position() == (old(self).position() + 1) % old(
                self,
            ).count(),
            !signal.button && signal.spec_single_direction() != Some(Direction::Left)
                && signal.spec_single_direction() != Some(Direction::Right) ==> r == MenuAction::Stay
                && final(self).position() == old(self).position(),
    {
        if signal.button {
            return MenuAction::Select;
        }
        match signal.to_single_direction() {
            Some(Direction::Left) => {
                self.prev();
                MenuAction::Previous
            },
            Some(Direction::Right) => {
                self.next();
                MenuAction::Next
            },
            _ => MenuAction::Stay,
        }
    }
}

} // verus!
