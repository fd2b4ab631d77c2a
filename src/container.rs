use vstd::prelude::*;
use crate::ball::{ramp, Ball, BallView};
use crate::bricks::{column_left, row_top, Brick, BrickStatus, BrickView};
use crate::consts::{bounded, within_limit, BRICK_COLUMN_COUNT, COORD_LIMIT, MAX_SPEED, BRICK_HEIGHT, BRICK_ROW_COUNT, BRICK_SUM, BRICK_WIDTH};
use crate::game_status::GameStatus;

verus! {

/// The side of a brick that the ball came through.
#[derive(Debug, Clone, Copy, PartialEq, Eq, Structural)]
pub enum BrickEdge {
    Top,
    Bottom,
    Left,
    Right,
}

/// The edge with the strictly smallest distance; `Right` where no single
/// distance is smallest.
pub open spec fn nearest_edge(top: int, bottom: int, left: int, right: int) -> BrickEdge {
    if top < bottom && top < left && top < right {
        BrickEdge::Top
    } else if bottom < top && bottom < left && bottom < right {
        BrickEdge::Bottom
    } else if left < top && left < bottom && left < right {
        BrickEdge::Left
    } else {
        BrickEdge::Right
    }
}

pub fn is_nealy_edge(top_dist: i64, bottom_dist: i64, left_dist: i64, right_dist: i64) -> (r:
    BrickEdge)
    ensures
        r == nearest_edge(top_dist as int, bottom_dist as int, left_dist as int, right_dist as int),
{
    if top_dist < bottom_dist && top_dist < left_dist && top_dist < right_dist {
        BrickEdge::Top
    } else if bottom_dist < top_dist && bottom_dist < left_dist && bottom_dist < right_dist {
        BrickEdge::Bottom
    } else if left_dist < top_dist && left_dist < bottom_dist && left_dist < right_dist {
        BrickEdge::Left
    } else {
        BrickEdge::Right
    }
}

pub open spec fn abs(v: int) -> int {
    if v < 0 {
        -v
    } else {
        v
    }
}

fn distance(a: i64, b: i64) -> (r: i64)
    requires
        bounded(a as int),
        -COORD_LIMIT <= b <= COORD_LIMIT + BRICK_WIDTH,
    ensures
        r == abs(a - b),
{
    if a < b {
        b - a
    } else {
        a - b
    }
}

/// Whether the ball centred at `(x, y)` has sunk into the standing brick `b`.
pub open spec fn struck(b: BrickView, x: int, y: int) -> bool {
    &&& b.status == BrickStatus::Live
    &&& b.x < x < b.x + BRICK_WIDTH
    &&& b.y < y < b.y + BRICK_HEIGHT
}

/// The edge of `b` nearest to the point `(x, y)`.
pub open spec fn struck_edge(b: BrickView, x: int, y: int) -> BrickEdge {
    nearest_edge(
        abs(y - (b.y + BRICK_HEIGHT)),
        abs(y - b.y),
        abs(x - b.x),
        abs(x - (b.x + BRICK_WIDTH)),
    )
}

/// The brick after the ball centred at `(x, y)` has passed over it.
pub open spec fn after_strike(b: BrickView, x: int, y: int) -> BrickView {
    if struck(b, x, y) {
        BrickView { status: BrickStatus::Dead, life: 0, ..b }
    } else {
        b
    }
}

/// A brick that the ball broke, and the edge it bounced off.
#[derive(Debug, Clone, Copy, PartialEq, Eq, Structural)]
pub struct Hit {
    pub col: usize,
    pub row: usize,
    pub edge: BrickEdge,
}

/// The hits among the first `n` bricks of column `col`, in order.
pub open spec fn column_hits(column: Seq<BrickView>, col: int, n: int, x: int, y: int) -> Seq<Hit>
    decreases n,
{
    if n <= 0 {
        seq![]
    } else {
        let before = column_hits(column, col, n - 1, x, y);
        let b = column[n - 1];
        if struck(b, x, y) {
            before.push(Hit { col: col as usize, row: (n - 1) as usize, edge: struck_edge(b, x, y) })
        } else {
            before
        }
    }
}

/// The hits in the first `k` columns of the board, column by column.
pub open spec fn board_hits(board: Seq<Seq<BrickView>>, k: int, x: int, y: int) -> Seq<Hit>
    decreases k,
{
    if k <= 0 {
        seq![]
    } else {
        board_hits(board, k - 1, x, y) + column_hits(board[k - 1], k - 1, board[k - 1].len() as int, x, y)
    }
}

/// Every brick that a ball centred at `(x, y)` breaks, in the order the board
/// is scanned.
pub open spec fn hits_of(board: Seq<Seq<BrickView>>, x: int, y: int) -> Seq<Hit> {
    board_hits(board, board.len() as int, x, y)
}

/// The ball after bouncing off `edge` of a brick.
pub open spec fn deflect(b: BallView, edge: BrickEdge) -> BallView {
    match edge {
        BrickEdge::Top | BrickEdge::Bottom => BallView { dy: -b.dy, speed: ramp(b.speed), ..b },
        BrickEdge::Left | BrickEdge::Right => BallView { dx: -b.dx, speed: ramp(b.speed), ..b },
    }
}

/// The ball after the bounces of `hits`, in order.
pub open spec fn deflect_all(b: BallView, hits: Seq<Hit>) -> BallView
    decreases hits.len(),
{
    if hits.len() == 0 {
        b
    } else {
        deflect(deflect_all(b, hits.drop_last()), hits.last().edge)
    }
}

/// Whether a score that rises by one per broken brick, from `score` over
/// `broken` bricks, reaches the winning score on the way.
pub open spec fn wins(score: nat, broken: nat) -> bool {
    score < BRICK_SUM <= score + broken
}

/// Every brick coordinate lies within the range the physics accepts.
pub open spec fn board_in_range(board: Seq<Seq<BrickView>>) -> bool {
    forall|c: int, r: int|
        0 <= c < board.len() && 0 <= r < board[c].len() ==> bounded(#[trigger] board[c][r].x)
            && bounded(board[c][r].y)
}

/// Every slot of the board has a position that fits in an `i64`.
pub open spec fn placeable(board: Seq<Seq<BrickView>>) -> bool {
    forall|c: int, k: int|
        #![trigger board[c][k]]
        0 <= c < board.len() && 0 <= k < board[c].len() ==> column_left(c) <= i64::MAX && row_top(k)
            <= i64::MAX
}

/// The outcome of one collision pass.
pub struct Collisions {
    /// The bricks broken, in scan order.
    pub hits: Vec<Hit>,
    /// Whether the score reached the number of bricks during the pass.
    pub won: bool,
}

pub type Bricks = Vec<Vec<Brick>>;

/// The board of bricks, column by column, and where the brick images live.
#[derive(Debug, Clone)]
pub struct Container {
    bricks: Bricks,
    asset_url: String,
}

impl View for Container {
    type V = Seq<Seq<BrickView>>;

    closed spec fn view(&self) -> Seq<Seq<BrickView>> {
        self.bricks@.map_values(|column: Vec<Brick>| column@.map_values(|b: Brick| b@))
    }
}

proof fn lemma_column_hits_grow(column: Seq<BrickView>, col: int, n: int, m: int, x: int, y: int)
    requires
        0 <= n <= m,
    ensures
        column_hits(column, col, n, x, y).len() <= column_hits(column, col, m, x, y).len(),
    decreases m - n,
{
    if n < m {
        lemma_column_hits_grow(column, col, n, m - 1, x, y);
    }
}

proof fn lemma_board_hits_grow(board: Seq<Seq<BrickView>>, k: int, m: int, x: int, y: int)
    requires
        0 <= k <= m,
    ensures
        board_hits(board, k, x, y).len() <= board_hits(board, m, x, y).len(),
    decreases m - k,
{
    if k < m {
        lemma_board_hits_grow(board, k, m - 1, x, y);
    }
}

/// Bouncing off bricks never slows the ball down, nor takes its speed past
/// the cap once it is within it.
pub proof fn lemma_speed_ramp_capped(b: BallView, hits: Seq<Hit>)
    ensures
        b.speed <= deflect_all(b, hits).speed,
        b.speed <= MAX_SPEED ==> deflect_all(b, hits).speed <= MAX_SPEED,
    decreases hits.len(),
{
    if hits.len() > 0 {
        lemma_speed_ramp_capped(b, hits.drop_last());
    }
}

proof fn lemma_column_cleared(before: Seq<BrickView>, after: Seq<BrickView>, col: int, n: int, x: int, y: int)
    requires
        0 <= n <= before.len(),
        after.len() == before.len(),
        forall|k: int| 0 <= k < before.len() ==> #[trigger] after[k] == after_strike(before[k], x, y),
    ensures
        column_hits(after, col, n, x, y).len() == 0,
    decreases n,
{
    if n > 0 {
        lemma_column_cleared(before, after, col, n - 1, x, y);
        assert(after[n - 1] == after_strike(before[n - 1], x, y));
    }
}

proof fn lemma_board_cleared(before: Seq<Seq<BrickView>>, after: Seq<Seq<BrickView>>, k: int, x: int, y: int)
    requires
        0 <= k <= before.len(),
        after.len() == before.len(),
        forall|c: int| 0 <= c < before.len() ==> #[trigger] after[c].len() == before[c].len(),
        forall|c: int, j: int|
            0 <= c < before.len() && 0 <= j < before[c].len() ==> #[trigger] after[c][j]
                == after_strike(before[c][j], x, y),
    ensures
        board_hits(after, k, x, y).len() == 0,
    decreases k,
{
    if k > 0 {
        lemma_board_cleared(before, after, k - 1, x, y);
        assert forall|j: int| 0 <= j < before[k - 1].len() implies #[trigger] after[k - 1][j]
            == after_strike(before[k - 1][j], x, y) by {}
        lemma_column_cleared(before[k - 1], after[k - 1], k - 1, after[k - 1].len() as int, x, y);
    }
}

/// A second collision pass with the ball where the first left it breaks
/// nothing and leaves the ball as it is: the first pass already broke every
/// brick the ball's centre lies in.
pub proof fn lemma_second_pass_breaks_nothing(
    before: Seq<Seq<BrickView>>,
    after: Seq<Seq<BrickView>>,
    ball: BallView,
)
    requires
        after.len() == before.len(),
        forall|c: int| 0 <= c < before.len() ==> #[trigger] after[c].len() == before[c].len(),
        forall|c: int, k: int|
            0 <= c < before.len() && 0 <= k < before[c].len() ==> #[trigger] after[c][k]
                == after_strike(before[c][k], ball.x, ball.y),
    ensures
        hits_of(after, ball.x, ball.y) == Seq::<Hit>::empty(),
        deflect_all(ball, hits_of(after, ball.x, ball.y)) == ball,
{
    lemma_board_cleared(before, after, before.len() as int, ball.x, ball.y);
    assert(hits_of(after, ball.x, ball.y) =~= Seq::<Hit>::empty());
}

impl Container {
    /// A full board of standing bricks, all at the origin until laid out.
    pub fn new(asset_url: String) -> (r: Container)
        ensures
            r@.len() == BRICK_COLUMN_COUNT,
            forall|c: int| 0 <= c < BRICK_COLUMN_COUNT ==> #[trigger] r@[c].len() == BRICK_ROW_COUNT,
            forall|c: int, k: int|
                0 <= c < BRICK_COLUMN_COUNT && 0 <= k < BRICK_ROW_COUNT ==> #[trigger] r@[c][k]
                    == (BrickView { x: 0, y: 0, status: BrickStatus::Live, life: 1 }),
            placeable(r@),
            r.asset_url_view() == asset_url@,
    {
        let mut bricks: Bricks = Vec::new();
        for c in 0..BRICK_COLUMN_COUNT
            invariant
                bricks@.len() == c,
                forall|i: int| 0 <= i < c ==> #[trigger] bricks@[i]@.len() == BRICK_ROW_COUNT,
                forall|i: int, k: int|
                    0 <= i < c && 0 <= k < BRICK_ROW_COUNT ==> #[trigger] bricks@[i]@[k]@
                        == (BrickView { x: 0, y: 0, status: BrickStatus::Live, life: 1 }),
        {
            let mut column: Vec<Brick> = Vec::new();
            for _r in 0..BRICK_ROW_COUNT
                invariant
                    column@.len() == _r,
                    forall|k: int| 0 <= k < _r ==> #[trigger] column@[k]@
                        == (BrickView { x: 0, y: 0, status: BrickStatus::Live, life: 1 }),
            {
                column.push(Brick::new(0, 0, BrickStatus::Live));
            }
            bricks.push(column);
        }
        Container { bricks, asset_url }
    }

    /// Where the brick images are served from.
    pub closed spec fn asset_url_view(&self) -> Seq<char> {
        self.asset_url@
    }

    pub fn asset_url(&self) -> (r: &String)
        ensures
            r@ == self.asset_url_view(),
    {
        &self.asset_url
    }

    /// Breaks every standing brick that the ball's centre has sunk into,
    /// bouncing the ball off the nearest edge of each and scoring one point
    /// per brick.
    pub fn collision_detection(&mut self, status: &mut GameStatus, ball: &mut Ball) -> (r:
        Collisions)
        requires
            board_in_range(old(self)@),
            old(ball)@.in_range(),
            old(status)@.score + hits_of(old(self)@, old(ball)@.x, old(ball)@.y).len() <= u32::MAX,
        ensures
            r.hits@ == hits_of(old(self)@, old(ball)@.x, old(ball)@.y),
            final(ball)@ == deflect_all(old(ball)@, r.hits@),
            final(ball)@.x == old(ball)@.x,
            final(ball)@.y == old(ball)@.y,
            final(status)@.score == old(status)@.score + r.hits@.len(),
            final(status)@.lives == old(status)@.lives,
            final(status)@.status == old(status)@.status,
            r.won == wins(old(status)@.score, r.hits@.len()),
            final(self)@.len() == old(self)@.len(),
            forall|c: int| 0 <= c < old(self)@.len() ==> #[trigger] final(self)@[c].len() == old(self)@[c].len(),
            forall|c: int, k: int|
                0 <= c < old(self)@.len() && 0 <= k < old(self)@[c].len() ==> #[trigger] final(self)@[c][k]
                    == after_strike(old(self)@[c][k], old(ball)@.x, old(ball)@.y),
            final(self).asset_url_view() == old(self).asset_url_view(),
    {
        let ghost board = self@;
        let ghost ball0 = ball@;
        let ghost score0 = status@.score;
        let x = ball.get_x();
        let y = ball.get_y();
        let mut hits: Vec<Hit> = Vec::new();
        let mut won = false;
        let mut c: usize = 0;
        while c < self.bricks.len()
            invariant
                0 <= c <= board.len(),
                self.bricks@.len() == board.len(),
                self.asset_url_view() == old(self).asset_url_view(),
                forall|i: int| 0 <= i < board.len() ==> #[trigger] self@[i].len() == board[i].len(),
                forall|i: int, k: int|
                    0 <= i < board.len() && 0 <= k < board[i].len() ==> #[trigger] self@[i][k]
                        == if i < c { after_strike(board[i][k], x as int, y as int) } else { board[i][k] },
                board_in_range(board),
                x == ball0.x,
                y == ball0.y,
                ball0.in_range(),
                ball@.x == x,
                ball@.y == y,
                ball@.in_range(),
                hits@ == board_hits(board, c as int, x as int, y as int),
                ball@ == deflect_all(ball0, hits@),
                status@.score == score0 + hits@.len(),
                status@.lives == old(status)@.lives,
                status@.status == old(status)@.status,
                won == wins(score0, hits@.len()),
                score0 + hits_of(board, x as int, y as int).len() <= u32::MAX,
            decreases board.len() - c,
        {
            let mut k: usize = 0;
            let ghost before = hits@;
            proof {
                assert(self@[c as int].len() == self.bricks@[c as int]@.len());
            }
            while k < self.bricks[c].len()
                invariant
                    0 <= c < board.len(),
                    0 <= k <= board[c as int].len(),
                    self.bricks@.len() == board.len(),
                    self.asset_url_view() == old(self).asset_url_view(),
                    forall|i: int| 0 <= i < board.len() ==> #[trigger] self@[i].len() == board[i].len(),
                    forall|i: int, j: int|
                        0 <= i < board.len() && 0 <= j < board[i].len() ==> #[trigger] self@[i][j]
                            == if i < c || (i == c && j < k) {
                            after_strike(board[i][j], x as int, y as int)
                        } else {
                            board[i][j]
                        },
                    board_in_range(board),
                    x == ball0.x,
                    y == ball0.y,
                    ball0.in_range(),
                    ball@.x == x,
                    ball@.y == y,
                    ball@.in_range(),
                    before == board_hits(board, c as int, x as int, y as int),
                    hits@ == before + column_hits(board[c as int], c as int, k as int, x as int, y as int),
                    ball@ == deflect_all(ball0, hits@),
                    status@.score == score0 + hits@.len(),
                    status@.lives == old(status)@.lives,
                    status@.status == old(status)@.status,
                    won == wins(score0, hits@.len()),
                    score0 + hits_of(board, x as int, y as int).len() <= u32::MAX,
                decreases board[c as int].len() - k,
            {
                proof {
                    assert(self@[c as int].len() == self.bricks@[c as int]@.len());
                    assert(self@[c as int][k as int] == self.bricks@[c as int]@[k as int]@);
                }
                let b = self.bricks[c][k];
                if b.get_status() == BrickStatus::Live {
                    let brick_x = b.get_x();
                    let brick_y = b.get_y();
                    if x > brick_x && x < brick_x + BRICK_WIDTH && y > brick_y && y < brick_y
                        + BRICK_HEIGHT {
                        let left_dist = distance(x, brick_x);
                        let right_dist = distance(x, brick_x + BRICK_WIDTH);
                        let bottom_dist = distance(y, brick_y);
                        let top_dist = distance(y, brick_y + BRICK_HEIGHT);
                        let edge = is_nealy_edge(top_dist, bottom_dist, left_dist, right_dist);
                        match edge {
                            BrickEdge::Top | BrickEdge::Bottom => ball.set_dy(-ball.get_dy()),
                            BrickEdge::Left | BrickEdge::Right => ball.set_dx(-ball.get_dx()),
                        }
                        ball.add_speed();
                        let mut broken = b;
                        let is_break = broken.update_status();
                        let ghost pre = self.bricks@;
                        let ghost pre_view = self@;
                        self.bricks[c][k] = broken;
                        proof {
                            assert(self.bricks@.len() == pre.len());
                            assert(self.bricks@[c as int]@ == pre[c as int]@.update(k as int, broken));
                            assert forall|i: int| 0 <= i < board.len() implies #[trigger] self@[i].len()
                                == board[i].len() by {
                                assert(self@[i].len() == self.bricks@[i]@.len());
                                assert(pre_view[i].len() == pre[i]@.len());
                                if i != c {
                                    assert(self.bricks@[i] == pre[i]);
                                }
                            }
                        }
                        proof {
                            lemma_column_hits_grow(board[c as int], c as int, k + 1, board[c as int].len() as int, x as int, y as int);
                            lemma_board_hits_grow(board, c + 1, board.len() as int, x as int, y as int);
                        }
                        if is_break == BrickStatus::Dead {
                            status.set_score(status.get_score() + 1);
                        }
                        if status.get_score() == BRICK_SUM {
                            won = true;
                        }
                        let ghost prev = hits@;
                        hits.push(Hit { col: c, row: k, edge });
                        proof {
                            assert(hits@.drop_last() =~= prev);
                            assert(before + column_hits(board[c as int], c as int, k + 1, x as int, y as int)
                                =~= (before + column_hits(board[c as int], c as int, k as int, x as int, y as int)).push(Hit { col: c, row: k, edge }));
                        }
                    }
                }
                k = k + 1;
                proof {
                    assert forall|i: int, j: int|
                        0 <= i < board.len() && 0 <= j < board[i].len() implies #[trigger] self@[i][j]
                            == if i < c || (i == c && j < k) {
                            after_strike(board[i][j], x as int, y as int)
                        } else {
                            board[i][j]
                        } by {}
                }
            }
            proof {
                assert(self@[c as int].len() == self.bricks@[c as int]@.len());
                assert(k == board[c as int].len());
                assert(board_hits(board, c + 1, x as int, y as int) == before + column_hits(
                    board[c as int],
                    c as int,
                    board[c as int].len() as int,
                    x as int,
                    y as int,
                ));
            }
            c = c + 1;
            proof {
                assert forall|i: int, j: int|
                    0 <= i < board.len() && 0 <= j < board[i].len() implies #[trigger] self@[i][j]
                        == if i < c { after_strike(board[i][j], x as int, y as int) } else { board[i][j] } by {
                    if i == c - 1 {
                        assert(j < board[i].len());
                    }
                }
            }
        }
        Collisions { hits, won }
    }

    /// Puts every brick at its slot: column `c`, row `k` of the board.
    pub fn layout(&mut self)
        requires
            placeable(old(self)@),
        ensures
            final(self)@.len() == old(self)@.len(),
            forall|c: int| 0 <= c < old(self)@.len() ==> #[trigger] final(self)@[c].len() == old(self)@[c].len(),
            forall|c: int, k: int|
                0 <= c < old(self)@.len() && 0 <= k < old(self)@[c].len() ==> #[trigger] final(self)@[c][k]
                    == (BrickView { x: column_left(c), y: row_top(k), ..old(self)@[c][k] }),
            final(self).asset_url_view() == old(self).asset_url_view(),
    {
        let ghost board = old(self)@;
        let mut c: usize = 0;
        while c < self.bricks.len()
            invariant
                0 <= c <= board.len(),
                self.bricks@.len() == board.len(),
                self.asset_url_view() == old(self).asset_url_view(),
                placeable(board),
                forall|i: int| 0 <= i < board.len() ==> #[trigger] self@[i].len() == board[i].len(),
                forall|i: int, j: int|
                    0 <= i < board.len() && 0 <= j < board[i].len() ==> #[trigger] self@[i][j]
                        == if i < c {
                        BrickView { x: column_left(i), y: row_top(j), ..board[i][j] }
                    } else {
                        board[i][j]
                    },
            decreases board.len() - c,
        {
            let mut k: usize = 0;
            proof {
                assert(self@[c as int].len() == self.bricks@[c as int]@.len());
            }
            while k < self.bricks[c].len()
                invariant
                    0 <= c < board.len(),
                    0 <= k <= board[c as int].len(),
                    self.bricks@.len() == board.len(),
                    self.asset_url_view() == old(self).asset_url_view(),
                    placeable(board),
                    forall|i: int| 0 <= i < board.len() ==> #[trigger] self@[i].len() == board[i].len(),
                    forall|i: int, j: int|
                        0 <= i < board.len() && 0 <= j < board[i].len() ==> #[trigger] self@[i][j]
                            == if i < c || (i == c && j < k) {
                            BrickView { x: column_left(i), y: row_top(j), ..board[i][j] }
                        } else {
                            board[i][j]
                        },
                decreases board[c as int].len() - k,
            {
                proof {
                    assert(self@[c as int].len() == self.bricks@[c as int]@.len());
                    assert(self@[c as int][k as int] == self.bricks@[c as int]@[k as int]@);
                    let ghost here = board[c as int][k as int];
                    assert(column_left(c as int) <= i64::MAX && row_top(k as int) <= i64::MAX);
                }
                let mut b = self.bricks[c][k];
                b.set_x_and_y_from_col_row(c, k);
                let ghost pre = self.bricks@;
                let ghost pre_view = self@;
                self.bricks[c][k] = b;
                proof {
                    assert(self.bricks@[c as int]@ == pre[c as int]@.update(k as int, b));
                    assert forall|i: int| 0 <= i < board.len() implies #[trigger] self@[i].len()
                        == board[i].len() by {
                        assert(self@[i].len() == self.bricks@[i]@.len());
                        assert(pre_view[i].len() == pre[i]@.len());
                        if i != c {
                            assert(self.bricks@[i] == pre[i]);
                        }
                    }
                }
                k = k + 1;
                proof {
                    assert forall|i: int, j: int|
                        0 <= i < board.len() && 0 <= j < board[i].len() implies #[trigger] self@[i][j]
                            == if i < c || (i == c && j < k) {
                            BrickView { x: column_left(i), y: row_top(j), ..board[i][j] }
                        } else {
                            board[i][j]
                        } by {
                        assert(self@[i] == self.bricks@[i]@.map_values(|b: Brick| b@));
                        assert(pre_view[i] == pre[i]@.map_values(|b: Brick| b@));
                        assert(self@[i][j] == self.bricks@[i]@[j]@);
                        assert(pre_view[i][j] == pre[i]@[j]@);
                        if i != c {
                            assert(self.bricks@[i] == pre[i]);
                        } else if j != k - 1 {
                            assert(self.bricks@[i]@[j] == pre[i]@[j]);
                        } else {
                            assert(self.bricks@[i]@[j] == b);
                        }
                    }
                }
            }
            proof {
                assert(self@[c as int].len() == self.bricks@[c as int]@.len());
                assert(k == board[c as int].len());
            }
            c = c + 1;
            proof {
                assert forall|i: int, j: int|
                    0 <= i < board.len() && 0 <= j < board[i].len() implies #[trigger] self@[i][j]
                        == if i < c {
                        BrickView { x: column_left(i), y: row_top(j), ..board[i][j] }
                    } else {
                        board[i][j]
                    } by {
                    if i == c - 1 {
                        assert(j < board[i].len());
                    }
                }
            }
        }
    }

    /// Whether every brick coordinate lies within the range the physics
    /// accepts.
    pub fn in_range(&self) -> (r: bool)
        ensures
            r == board_in_range(self@),
    {
        let mut c: usize = 0;
        while c < self.bricks.len()
            invariant
                0 <= c <= self@.len(),
                self.bricks@.len() == self@.len(),
                forall|i: int, j: int|
                    0 <= i < c && 0 <= j < self@[i].len() ==> bounded(#[trigger] self@[i][j].x)
                        && bounded(self@[i][j].y),
            decreases self@.len() - c,
        {
            let mut k: usize = 0;
            proof {
                assert(self@[c as int].len() == self.bricks@[c as int]@.len());
            }
            while k < self.bricks[c].len()
                invariant
                    0 <= c < self@.len(),
                    0 <= k <= self@[c as int].len(),
                    self.bricks@.len() == self@.len(),
                    self@[c as int].len() == self.bricks@[c as int]@.len(),
                    forall|i: int, j: int|
                        0 <= i < self@.len() && 0 <= j < self@[i].len() && (i < c || (i == c && j < k))
                            ==> bounded(#[trigger] self@[i][j].x) && bounded(self@[i][j].y),
                decreases self@[c as int].len() - k,
            {
                proof {
                    assert(self@[c as int][k as int] == self.bricks@[c as int]@[k as int]@);
                }
                let b = &self.bricks[c][k];
                if !within_limit(b.get_x()) || !within_limit(b.get_y()) {
                    return false;
                }
                k = k + 1;
            }
            c = c + 1;
        }
        true
    }

    pub fn get_col_len(&self) -> (r: usize)
        ensures
            r == self@.len(),
    {
        self.bricks.len()
    }

    pub fn get_row_len(&self, col: usize) -> (r: usize)
        requires
            col < self@.len(),
        ensures
            r == self@[col as int].len(),
    {
        self.bricks[col].len()
    }

    pub fn get_status(&self, col: usize, row: usize) -> (r: BrickStatus)
        requires
            col < self@.len(),
            row < self@[col as int].len(),
        ensures
            r == self@[col as int][row as int].status,
    {
        proof {
            assert(self@[col as int][row as int] == self.bricks@[col as int]@[row as int]@);
        }
        self.bricks[col][row].get_status()
    }

    pub fn get_brick(&self, col: usize, row: usize) -> (r: Brick)
        requires
            col < self@.len(),
            row < self@[col as int].len(),
        ensures
            r@ == self@[col as int][row as int],
    {
        proof {
            assert(self@[col as int][row as int] == self.bricks@[col as int]@[row as int]@);
        }
        self.bricks[col][row]
    }

    pub fn set_x(&mut self, col: usize, row: usize, val: i64)
        requires
            col < old(self)@.len(),
            row < old(self)@[col as int].len(),
        ensures
            final(self)@ == old(self)@.update(
                col as int,
                old(self)@[col as int].update(row as int, BrickView { x: val as int, ..old(self)@[col as int][row as int] }),
            ),
            final(self).asset_url_view() == old(self).asset_url_view(),
    {
        proof {
            assert(self@[col as int][row as int] == self.bricks@[col as int]@[row as int]@);
        }
        let mut b = self.bricks[col][row];
        b.set_x(val);
        let ghost pre = self.bricks@;
        self.bricks[col][row] = b;
        proof {
            assert(self.bricks@[col as int]@ == pre[col as int]@.update(row as int, b));
            assert(self@[col as int] =~= old(self)@[col as int].update(row as int, b@));
            assert(self@ =~= old(self)@.update(
                col as int,
                old(self)@[col as int].update(row as int, b@),
            ));
        }
    }

    pub fn set_y(&mut self, col: usize, row: usize, val: i64)
        requires
            col < old(self)@.len(),
            row < old(self)@[col as int].len(),
        ensures
            final(self)@ == old(self)@.update(
                col as int,
                old(self)@[col as int].update(row as int, BrickView { y: val as int, ..old(self)@[col as int][row as int] }),
            ),
            final(self).asset_url_view() == old(self).asset_url_view(),
    {
        proof {
            assert(self@[col as int][row as int] == self.bricks@[col as int]@[row as int]@);
        }
        let mut b = self.bricks[col][row];
        b.set_y(val);
        let ghost pre = self.bricks@;
        self.bricks[col][row] = b;
        proof {
            assert(self.bricks@[col as int]@ == pre[col as int]@.update(row as int, b));
            assert(self@[col as int] =~= old(self)@[col as int].update(row as int, b@));
            assert(self@ =~= old(self)@.update(
                col as int,
                old(self)@[col as int].update(row as int, b@),
            ));
        }
    }

    pub fn set_status(&mut self, col: usize, row: usize, status: BrickStatus)
        requires
            col < old(self)@.len(),
            row < old(self)@[col as int].len(),
        ensures
            final(self)@ == old(self)@.update(
                col as int,
                old(self)@[col as int].update(row as int, BrickView { status, ..old(self)@[col as int][row as int] }),
            ),
            final(self).asset_url_view() == old(self).asset_url_view(),
    {
        proof {
            assert(self@[col as int][row as int] == self.bricks@[col as int]@[row as int]@);
        }
        let mut b = self.bricks[col][row];
        b.set_status(status);
        let ghost pre = self.bricks@;
        self.bricks[col][row] = b;
        proof {
            assert(self.bricks@[col as int]@ == pre[col as int]@.update(row as int, b));
            assert(self@[col as int] =~= old(self)@[col as int].update(row as int, b@));
            assert(self@ =~= old(self)@.update(
                col as int,
                old(self)@[col as int].update(row as int, b@),
            ));
        }
    }
}

} // verus!
