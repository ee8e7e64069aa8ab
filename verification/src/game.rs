//! The game around the board: shared plain types and the score keeping.

use vstd::prelude::*;
use rand::rngs::StdRng;
use crate::{FIELD_OFFSET_LEFT, GRID_SIZE};
use crate::game::board::{Board, Scene};
use crate::game::state::BoardState;

pub mod board;
pub mod color;
pub mod laws;
pub mod point;
pub mod state;

verus! {

/// A position in the window, in pixels.
#[derive(Debug, PartialEq, Eq, PartialOrd, Hash, Clone, Copy, Structural)]
pub struct Coordinates {
    pub x: i32,
    pub y: i32,
}

/// One edge of the stroke that is being drawn.
#[derive(Debug, PartialEq, Eq, Clone, Copy, Structural)]
pub struct Segment {
    pub from: Coordinates,
    pub to: Coordinates,
}

/// An axis-aligned rectangle: its top left corner and its size.
#[derive(Debug, PartialEq, Eq, Clone, Copy, Structural)]
pub struct Rect {
    pub x: i32,
    pub y: i32,
    pub width: u32,
    pub height: u32,
}

/// A copy from a texture onto the window: which part of the texture, and where
/// on the window it lands.
#[derive(Debug, PartialEq, Eq, Clone, Copy, Structural)]
pub struct Sprite {
    pub source: Rect,
    pub target: Rect,
}

/// The score never shows more than this, but for what the last release adds.
pub const SCORE_LIMIT: i32 = 9999;

/// Side length of a digit of the score, in the texture and on the window.
pub const DIGIT_SIZE: i32 = 16;

/// Distance from the window's top edge to the score.
pub const SCORE_TOP: i32 = 20;

/// The score after `amount` new points: a score at the limit stays; one that
/// the amount takes to the limit or beyond becomes the limit with the amount
/// added once more; any other grows by the amount.
pub open spec fn raised_score(score: int, amount: int) -> int {
    if score == SCORE_LIMIT {
        score
    } else if score + amount >= SCORE_LIMIT {
        SCORE_LIMIT + amount
    } else {
        score + amount
    }
}

/// The decimal digits of `n`, the most significant first.
pub open spec fn decimal_digits(n: nat) -> Seq<u8>
    decreases n,
{
    if n < 10 {
        seq![n as u8]
    } else {
        decimal_digits(n / 10).push((n % 10) as u8)
    }
}

/// The picture of `digit` as the digit at `index` of the score: the digit's
/// tile of the texture, drawn in a row that starts at the field's left edge.
pub open spec fn digit_sprite(index: int, digit: u8) -> Sprite {
    Sprite {
        source: Rect {
            x: (DIGIT_SIZE * digit) as i32,
            y: 0,
            width: DIGIT_SIZE as u32,
            height: DIGIT_SIZE as u32,
        },
        target: Rect {
            x: (DIGIT_SIZE * index + FIELD_OFFSET_LEFT) as i32,
            y: SCORE_TOP,
            width: DIGIT_SIZE as u32,
            height: DIGIT_SIZE as u32,
        },
    }
}

/// The pictures of the digits of `score`, from left to right.
pub open spec fn score_sprites(score: nat) -> Seq<Sprite> {
    let digits = decimal_digits(score);
    Seq::new(digits.len(), |i: int| digit_sprite(i, digits[i]))
}

/// A number has no more digits than its value plus one, and each is below ten.
pub proof fn lemma_decimal_digits(n: nat)
    ensures
        1 <= decimal_digits(n).len() <= n + 1,
        forall|i: int| 0 <= i < decimal_digits(n).len() ==> decimal_digits(n)[i] < 10,
    decreases n,
{
    if n >= 10 {
        lemma_decimal_digits(n / 10);
    }
}

/// The game's state: the score, and the board's.
pub struct GameState {
    pub score: int,
    pub board: BoardState,
}

impl GameState {
    /// The board is well formed, and the score is not negative and exceeds
    /// the limit by no more than one release can add.
    pub open spec fn wf(self) -> bool {
        &&& self.board.wf()
        &&& 0 <= self.score <= SCORE_LIMIT + GRID_SIZE * GRID_SIZE
    }
}

/// What there is to draw of a game: the board, and the digits of the score.
#[derive(Debug, PartialEq, Eq)]
pub struct Frame {
    pub scene: Scene,
    pub score: Vec<Sprite>,
}

/// A board, and the score that its cleared points have brought.
#[derive(Debug)]
pub struct Game {
    score: i32,
    board: Board,
}

impl View for Game {
    type V = GameState;

    closed spec fn view(&self) -> GameState {
        GameState { score: self.score as int, board: self.board@ }
    }
}

impl Game {
    /// A game with no score yet, on a board whose points get their colours
    /// from `rng`.
    pub fn new(rng: StdRng) -> (game: Game)
        ensures
            game@.score == 0,
            game@.board.dealt(),
            game@.wf(),
    {
        Game { score: 0, board: Board::new(rng) }
    }

    /// Lets every point fall for one tick.
    pub fn update(&mut self)
        requires
            old(self)@.wf(),
        ensures
            final(self)@ == (GameState { board: old(self)@.board.tick(), ..old(self)@ }),
            final(self)@.wf(),
    {
        self.board.update();
    }

    /// What there is to draw of the game.
    pub fn render(&self) -> (frame: Frame)
        requires
            self@.wf(),
        ensures
            frame.scene.stroke == self@.board.stroke(),
            frame.scene.lines@ == self@.board.segments,
            frame.scene.sprites@ == self@.board.sprites(),
            frame.score@ == score_sprites(self@.score as nat),
    {
        let scene = self.board.render();
        let score = self.render_score();
        Frame { scene, score }
    }

    /// A press at `(x, y)`.
    pub fn handle_click(&mut self, x: i32, y: i32)
        requires
            old(self)@.wf(),
        ensures
            final(self)@ == (GameState {
                board: old(self)@.board.click(Coordinates { x, y }),
                ..old(self)@
            }),
            final(self)@.wf(),
    {
        self.board.handle_click(x, y);
    }

    /// The pointer moves to `(x, y)` while the button is held.
    pub fn handle_move(&mut self, x: i32, y: i32)
        requires
            old(self)@.wf(),
        ensures
            final(self)@ == (GameState {
                board: old(self)@.board.drag(Coordinates { x, y }),
                ..old(self)@
            }),
            final(self)@.wf(),
    {
        self.board.handle_move(x, y);
    }

    /// The button is released: the board ends the gesture, and the score is
    /// raised by the number of new points.
    pub fn handle_raise(&mut self)
        requires
            old(self)@.wf(),
        ensures
            old(self)@.board.released_into(final(self)@.board),
            final(self)@.score == raised_score(old(self)@.score, old(self)@.board.release_count()),
            final(self)@.wf(),
    {
        let amount = self.board.handle_raise();
        self.update_score(amount);
    }

    /// The score.
    pub fn score(&self) -> (score: i32)
        ensures
            score == self@.score,
    {
        self.score
    }

    /// The board.
    pub fn board(&self) -> (board: &Board)
        ensures
            board@ == self@.board,
    {
        &self.board
    }

    /// Raises the score by `amount`.
    fn update_score(&mut self, amount: i32)
        requires
            0 <= old(self).score <= SCORE_LIMIT + GRID_SIZE * GRID_SIZE,
            0 <= amount <= GRID_SIZE * GRID_SIZE,
        ensures
            final(self).score == raised_score(old(self).score as int, amount as int),
            0 <= final(self).score <= SCORE_LIMIT + GRID_SIZE * GRID_SIZE,
            final(self).board == old(self).board,
    {
        if self.score == SCORE_LIMIT {
            return;
        }
        if self.score + amount >= SCORE_LIMIT {
            self.score = SCORE_LIMIT;
        }
        self.score += amount;
    }

    /// The pictures of the digits of the score, from left to right.
    fn render_score(&self) -> (sprites: Vec<Sprite>)
        requires
            0 <= self.score <= SCORE_LIMIT + GRID_SIZE * GRID_SIZE,
        ensures
            sprites@ == score_sprites(self.score as nat),
    {
        let digits = decimal_digits_of(self.score);
        proof {
            lemma_decimal_digits(self.score as nat);
        }
        let mut sprites: Vec<Sprite> = Vec::with_capacity(digits.len());
        let mut index: usize = 0;
        while index < digits.len()
            invariant
                index <= digits@.len(),
                digits@ == decimal_digits(self.score as nat),
                digits@.len() <= self.score + 1,
                0 <= self.score <= SCORE_LIMIT + GRID_SIZE * GRID_SIZE,
                forall|i: int| 0 <= i < digits@.len() ==> digits@[i] < 10,
                sprites@.len() == index,
                forall|i: int| 0 <= i < index ==> sprites@[i] == digit_sprite(i, digits@[i]),
            decreases digits@.len() - index,
        {
            let offset = digits[index] as i32;
            let side = DIGIT_SIZE as u32;
            let src = Rect { x: DIGIT_SIZE * offset, y: 0, width: side, height: side };
            let target = Rect {
                x: DIGIT_SIZE * index as i32 + FIELD_OFFSET_LEFT,
                y: SCORE_TOP,
                width: side,
                height: side,
            };
            sprites.push(Sprite { source: src, target });
            index += 1;
        }
        assert(sprites@ =~= score_sprites(self.score as nat));
        sprites
    }
}

/// The decimal digits of `n`, the most significant first.
pub fn decimal_digits_of(n: i32) -> (digits: Vec<u8>)
    requires
        n >= 0,
    ensures
        digits@ == decimal_digits(n as nat),
    decreases n,
{
    if n < 10 {
        let mut digits: Vec<u8> = Vec::with_capacity(1);
        digits.push(n as u8);
        assert(digits@ =~= seq![n as u8]);
        digits
    } else {
        let mut digits = decimal_digits_of(n / 10);
        digits.push((n % 10) as u8);
        digits
    }
}

} // verus!
