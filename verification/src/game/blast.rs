//! Detonation: how far a blast runs, what it destroys, whom it kills and
//! which bombs it sets off.

use vstd::prelude::*;
use crate::constants::{EXPLOSION_DURATION_TICKS, MAP_COLS, MAP_ROWS};
use crate::game::{cell_index, cell_of, rubble_wf, Bomb, Explosion, GameInstance, GameView, Player, Rubble};
use crate::map::{in_grid, Grid, Tile};

verus! {

/// The four ways a blast runs, in the order in which its arms are laid out.
#[derive(Debug, Clone, Copy, PartialEq, Eq, Structural)]
pub enum Direction {
    Left,
    Right,
    Up,
    Down,
}

/// Column of the cell `i` steps from column `cx` in direction `dir`.
pub open spec fn arm_x(cx: int, dir: Direction, i: int) -> int {
    match dir {
        Direction::Left => cx - i,
        Direction::Right => cx + i,
        _ => cx,
    }
}

/// Row of the cell `i` steps from row `cy` in direction `dir`.
pub open spec fn arm_y(cy: int, dir: Direction, i: int) -> int {
    match dir {
        Direction::Up => cy - i,
        Direction::Down => cy + i,
        _ => cy,
    }
}

/// Number of cells that an arm marks from step `from` on, given that it got
/// that far: none past `range` or past the border, none on a pillar, one last
/// cell on a destructible block, and one more for each free cell on the way.
pub open spec fn arm_reach(grid: Grid, cx: int, cy: int, dir: Direction, from: int, range: int) -> int
    decreases range - from + 1,
{
    if from > range || !in_grid(arm_y(cy, dir, from), arm_x(cx, dir, from)) {
        0
    } else {
        match grid[arm_y(cy, dir, from)][arm_x(cx, dir, from)] {
            Tile::HardBlock => 0,
            Tile::SoftBlock => 1,
            Tile::Empty => 1 + arm_reach(grid, cx, cy, dir, from + 1, range),
        }
    }
}

/// Number of cells that the arm from `(cx, cy)` in direction `dir` marks.
pub open spec fn arm_len(grid: Grid, cx: int, cy: int, dir: Direction, range: int) -> int {
    arm_reach(grid, cx, cy, dir, 1, range)
}

/// The fresh explosion that detonation `number` lights on the cell `i` steps
/// along an arm.
pub open spec fn arm_explosion(cx: int, cy: int, dir: Direction, i: int, number: u64) -> Explosion {
    Explosion {
        x: arm_x(cx, dir, i) as usize,
        y: arm_y(cy, dir, i) as usize,
        timer: EXPLOSION_DURATION_TICKS,
        lit: number,
    }
}

/// The explosions of one arm of detonation `number`, nearest first.
pub open spec fn arm_explosions(grid: Grid, cx: int, cy: int, dir: Direction, range: int, number: u64) -> Seq<
    Explosion,
> {
    Seq::new(arm_len(grid, cx, cy, dir, range) as nat, |k: int| arm_explosion(cx, cy, dir, k + 1, number))
}

/// Whether the arm ends on a destructible block, which it then destroys.
pub open spec fn arm_breaks(grid: Grid, cx: int, cy: int, dir: Direction, range: int) -> bool {
    let n = arm_len(grid, cx, cy, dir, range);
    n > 0 && grid[arm_y(cy, dir, n)][arm_x(cx, dir, n)] == Tile::SoftBlock
}

/// The block that the arm of detonation `number` destroys, if it destroys
/// one.
pub open spec fn arm_broken(grid: Grid, cx: int, cy: int, dir: Direction, range: int, number: u64) -> Seq<
    Rubble,
> {
    let n = arm_len(grid, cx, cy, dir, range);
    if arm_breaks(grid, cx, cy, dir, range) {
        seq![Rubble { x: arm_x(cx, dir, n) as usize, y: arm_y(cy, dir, n) as usize, blast: number }]
    } else {
        Seq::empty()
    }
}

/// The grid with the cell at `(row, col)` turned into free ground.
pub open spec fn cleared(grid: Grid, row: int, col: int) -> Grid {
    grid.update(row, grid[row].update(col, Tile::Empty))
}

/// The grid that one arm leaves behind.
pub open spec fn grid_after_arm(grid: Grid, cx: int, cy: int, dir: Direction, range: int) -> Grid {
    let n = arm_len(grid, cx, cy, dir, range);
    if arm_breaks(grid, cx, cy, dir, range) {
        cleared(grid, arm_y(cy, dir, n), arm_x(cx, dir, n))
    } else {
        grid
    }
}

/// What a detonation has done so far: its number, the grid it leaves, the
/// explosions it lit, and the blocks it destroyed.
pub struct Blast {
    pub number: u64,
    pub grid: Grid,
    pub explosions: Seq<Explosion>,
    pub broken: Seq<Rubble>,
}

/// Adds one arm to a detonation.
pub open spec fn with_arm(b: Blast, cx: int, cy: int, dir: Direction, range: int) -> Blast {
    Blast {
        grid: grid_after_arm(b.grid, cx, cy, dir, range),
        explosions: b.explosions + arm_explosions(b.grid, cx, cy, dir, range, b.number),
        broken: b.broken + arm_broken(b.grid, cx, cy, dir, range, b.number),
        ..b
    }
}

/// A detonation that has lit its own cell and no more.
pub open spec fn centre(grid: Grid, cx: int, cy: int, number: u64) -> Blast {
    Blast {
        number,
        grid,
        explosions: seq![
            Explosion { x: cx as usize, y: cy as usize, timer: EXPLOSION_DURATION_TICKS, lit: number },
        ],
        broken: Seq::empty(),
    }
}

/// The number of the detonation that follows `blasts` others. The count stops
/// at the largest value it can hold.
pub open spec fn next_blast(blasts: u64) -> u64 {
    if blasts < u64::MAX {
        (blasts + 1) as u64
    } else {
        blasts
    }
}

/// Detonation `number`, of a bomb of the given range on cell `(cx, cy)`: its
/// own cell burns, then an arm runs left, right, up and down.
pub open spec fn blast(grid: Grid, cx: int, cy: int, range: int, number: u64) -> Blast {
    let centre = centre(grid, cx, cy, number);
    with_arm(
        with_arm(
            with_arm(with_arm(centre, cx, cy, Direction::Left, range), cx, cy, Direction::Right, range),
            cx,
            cy,
            Direction::Up,
            range,
        ),
        cx,
        cy,
        Direction::Down,
        range,
    )
}

/// Whether one of `cells` burns on `(x, y)`.
pub open spec fn covers(cells: Seq<Explosion>, x: int, y: int) -> bool {
    exists|k: int| 0 <= k < cells.len() && (#[trigger] cells[k]).x == x && cells[k].y == y
}

/// A player after a detonation lit `cells`: dead if alive on one of them.
pub open spec fn scorched(p: Player, cells: Seq<Explosion>) -> Player {
    if p.alive && covers(cells, cell_of(p.x as int), cell_of(p.y as int)) {
        Player { alive: false, ..p }
    } else {
        p
    }
}

/// A bomb after a detonation lit `cells`: due at once if it sits on one of them.
pub open spec fn chained(b: Bomb, cells: Seq<Explosion>) -> Bomb {
    if covers(cells, b.x as int, b.y as int) {
        Bomb { timer: 0, ..b }
    } else {
        b
    }
}

/// The game after a bomb of the given range went off on `(cx, cy)`: the
/// detonation is counted, its blast is added to the explosions, the grid loses
/// what was destroyed, players on a lit cell die, and bombs on a lit cell
/// become due.
pub open spec fn explode(s: GameView, cx: int, cy: int, range: int) -> GameView {
    let b = blast(s.grid, cx, cy, range, next_blast(s.blasts));
    GameView {
        blasts: b.number,
        grid: b.grid,
        explosions: s.explosions + b.explosions,
        players: s.players.map_values(|p: Player| scorched(p, b.explosions)),
        bombs: s.bombs.map_values(|bomb: Bomb| chained(bomb, b.explosions)),
        ..s
    }
}

/// A bomb after one tick of its fuse.
pub open spec fn ticked(b: Bomb) -> Bomb {
    Bomb { timer: if b.timer > 0 { (b.timer - 1) as u32 } else { 0 }, ..b }
}

/// The game after every fuse burned for one tick.
pub open spec fn fuses_burned(s: GameView) -> GameView {
    GameView { bombs: s.bombs.map_values(|b: Bomb| ticked(b)), ..s }
}

/// A player after a bomb of `owner` went off: the owner has one bomb fewer
/// out, but never fewer than none.
pub open spec fn refunded(p: Player, owner: u8) -> Player {
    if p.id == owner && p.active_bombs > 0 {
        Player { active_bombs: (p.active_bombs - 1) as u32, ..p }
    } else {
        p
    }
}

/// Index of the first due bomb at or after `from`; the length if there is none.
pub open spec fn first_due(bombs: Seq<Bomb>, from: int) -> int
    decreases bombs.len() - from,
{
    if from >= bombs.len() {
        bombs.len() as int
    } else if bombs[from].timer == 0 {
        from
    } else {
        first_due(bombs, from + 1)
    }
}

/// The game after bomb `i` went off: the bomb is gone, its blast has done its
/// work, and its owner has one bomb fewer out.
pub open spec fn detonate(s: GameView, i: int) -> GameView {
    let b = s.bombs[i];
    let t = explode(GameView { bombs: s.bombs.remove(i), ..s }, b.x as int, b.y as int, b.range as int);
    GameView { players: t.players.map_values(|p: Player| refunded(p, b.owner)), ..t }
}

/// The game after all due bombs went off, one at a time, the earliest placed
/// first. A bomb that a blast makes due joins them, so a chain runs to its end.
pub open spec fn resolve(s: GameView) -> GameView
    decreases s.bombs.len(),
{
    let i = first_due(s.bombs, 0);
    if 0 <= i < s.bombs.len() {
        resolve(detonate(s, i))
    } else {
        s
    }
}

/// The blocks destroyed while all due bombs go off, in the order of their
/// destruction.
pub open spec fn resolve_broken(s: GameView) -> Seq<Rubble>
    decreases s.bombs.len(),
{
    let i = first_due(s.bombs, 0);
    if 0 <= i < s.bombs.len() {
        let b = s.bombs[i];
        blast(s.grid, b.x as int, b.y as int, b.range as int, next_blast(s.blasts)).broken + resolve_broken(
            detonate(s, i),
        )
    } else {
        Seq::empty()
    }
}

/// The bombs that go off while all due bombs go off, in the order in which
/// they do.
pub open spec fn resolve_detonated(s: GameView) -> Seq<Bomb>
    decreases s.bombs.len(),
{
    let i = first_due(s.bombs, 0);
    if 0 <= i < s.bombs.len() {
        seq![s.bombs[i]] + resolve_detonated(detonate(s, i))
    } else {
        Seq::empty()
    }
}

/// The bombs that go off in the bomb phase of a tick, in the order in which
/// they do.
pub open spec fn bombs_phase_detonated(s: GameView) -> Seq<Bomb> {
    resolve_detonated(fuses_burned(s))
}

/// The bomb phase of a tick: every fuse burns for one tick, then all due bombs
/// go off.
pub open spec fn bombs_phase(s: GameView) -> GameView {
    resolve(fuses_burned(s))
}

/// The blocks destroyed in the bomb phase of a tick, in the order of their
/// destruction.
pub open spec fn bombs_phase_broken(s: GameView) -> Seq<Rubble> {
    resolve_broken(fuses_burned(s))
}

/// Whether a fresh explosion, one with its full lifetime left, burns on
/// `(x, y)`.
pub open spec fn fresh_on(cells: Seq<Explosion>, x: usize, y: usize) -> bool {
    exists|j: int|
        0 <= j < cells.len() && (#[trigger] cells[j]).x == x && cells[j].y == y && cells[j].timer
            == EXPLOSION_DURATION_TICKS
}

/// Detonations only add explosions: those that burned before all due bombs
/// went off still stand, unchanged, at the head of the list.
pub proof fn lemma_resolve_extends(s: GameView)
    ensures
        s.explosions.len() <= resolve(s).explosions.len(),
        resolve(s).explosions.subrange(0, s.explosions.len() as int) == s.explosions,
    decreases s.bombs.len(),
{
    let i = first_due(s.bombs, 0);
    if 0 <= i < s.bombs.len() {
        let d = detonate(s, i);
        lemma_resolve_extends(d);
        assert(d.explosions.subrange(0, s.explosions.len() as int) =~= s.explosions);
        assert(resolve(s).explosions.subrange(0, s.explosions.len() as int) =~= resolve(s).explosions.subrange(
            0,
            d.explosions.len() as int,
        ).subrange(0, s.explosions.len() as int));
    } else {
        assert(s.explosions.subrange(0, s.explosions.len() as int) =~= s.explosions);
    }
}

/// The cell `(x, y)` that lies `step` steps from `(cx, cy)` in direction `dir`,
/// if the grid reaches that far.
fn arm_cell(cx: usize, cy: usize, dir: Direction, step: usize) -> (cell: Option<(usize, usize)>)
    requires
        cx < MAP_COLS,
        cy < MAP_ROWS,
        step >= 1,
    ensures
        cell is Some <==> in_grid(arm_y(cy as int, dir, step as int), arm_x(cx as int, dir, step as int)),
        cell matches Some((x, y)) ==> x == arm_x(cx as int, dir, step as int) && y == arm_y(
            cy as int,
            dir,
            step as int,
        ),
{
    match dir {
        Direction::Left => if step <= cx {
            Some((cx - step, cy))
        } else {
            None
        },
        Direction::Right => if step < MAP_COLS - cx {
            Some((cx + step, cy))
        } else {
            None
        },
        Direction::Up => if step <= cy {
            Some((cx, cy - step))
        } else {
            None
        },
        Direction::Down => if step < MAP_ROWS - cy {
            Some((cx, cy + step))
        } else {
            None
        },
    }
}

impl GameInstance {
    /// Lays out one arm of the latest detonation, on `(cx, cy)`: lights the
    /// cells it reaches, destroys the block it ends on, if any, and notes that
    /// block in `broken`.
    fn light_arm(&mut self, cx: usize, cy: usize, dir: Direction, range: u32, broken: &mut Vec<Rubble>)
        requires
            old(self).wf(),
            rubble_wf(old(broken)@, old(self)@.blasts),
            cx < MAP_COLS,
            cy < MAP_ROWS,
        ensures
            final(self).wf(),
            rubble_wf(final(broken)@, final(self)@.blasts),
            final(self)@ == (GameView {
                grid: grid_after_arm(old(self)@.grid, cx as int, cy as int, dir, range as int),
                explosions: old(self)@.explosions + arm_explosions(
                    old(self)@.grid,
                    cx as int,
                    cy as int,
                    dir,
                    range as int,
                    old(self)@.blasts,
                ),
                ..old(self)@
            }),
            final(broken)@ == old(broken)@ + arm_broken(
                old(self)@.grid,
                cx as int,
                cy as int,
                dir,
                range as int,
                old(self)@.blasts,
            ),
    {
        let number = self.blasts;
        let ghost start = self@;
        let ghost noted = broken@;
        let ghost n = arm_len(start.grid, cx as int, cy as int, dir, range as int);
        let mut i: u32 = 1;
        let mut done = false;
        while !done && i <= range
            invariant
                cx < MAP_COLS,
                cy < MAP_ROWS,
                start.wf(),
                self.wf(),
                rubble_wf(broken@, start.blasts),
                number == start.blasts,
                n == arm_len(start.grid, cx as int, cy as int, dir, range as int),
                1 <= i <= MAP_COLS + MAP_ROWS,
                self@.players == start.players,
                self@.bombs == start.bombs,
                self@.items == start.items,
                self@.tick == start.tick,
                self@.phase == start.phase,
                self@.blasts == start.blasts,
                !done ==> {
                    &&& self@.grid == start.grid
                    &&& broken@ == noted
                    &&& self@.explosions == start.explosions + Seq::new(
                        (i - 1) as nat,
                        |k: int| arm_explosion(cx as int, cy as int, dir, k + 1, start.blasts),
                    )
                    &&& n == (i - 1) + arm_reach(start.grid, cx as int, cy as int, dir, i as int, range as int)
                    &&& i > 1 ==> in_grid(arm_y(cy as int, dir, i - 1), arm_x(cx as int, dir, i - 1))
                        && start.grid[arm_y(cy as int, dir, i - 1)][arm_x(cx as int, dir, i - 1)]
                        == Tile::Empty
                },
                done ==> {
                    &&& self@.grid == grid_after_arm(start.grid, cx as int, cy as int, dir, range as int)
                    &&& broken@ == noted + arm_broken(
                        start.grid,
                        cx as int,
                        cy as int,
                        dir,
                        range as int,
                        start.blasts,
                    )
                    &&& self@.explosions == start.explosions + arm_explosions(
                        start.grid,
                        cx as int,
                        cy as int,
                        dir,
                        range as int,
                        start.blasts,
                    )
                },
            decreases (if done { 0int } else { 1int }), range - i + 1,
        {
            match arm_cell(cx, cy, dir, i as usize) {
                None => {
                    done = true;
                },
                Some((nx, ny)) => {
                    match self.map[ny][nx] {
                        Tile::HardBlock => {
                            done = true;
                        },
                        Tile::SoftBlock => {
                            self.map[ny][nx] = Tile::Empty;
                            self.explosions.push(
                                Explosion { x: nx, y: ny, timer: EXPLOSION_DURATION_TICKS, lit: number },
                            );
                            broken.push(Rubble { x: nx, y: ny, blast: number });
                            done = true;
                            assert(self@.grid =~~= cleared(start.grid, ny as int, nx as int));
                        },
                        Tile::Empty => {
                            self.explosions.push(
                                Explosion { x: nx, y: ny, timer: EXPLOSION_DURATION_TICKS, lit: number },
                            );
                            i += 1;
                        },
                    }
                },
            }
        }
    }
}

/// Whether one of the explosions from index `from` on burns on `(x, y)`.
fn lit(explosions: &Vec<Explosion>, from: usize, x: usize, y: usize) -> (hit: bool)
    requires
        from <= explosions.len(),
    ensures
        hit == covers(explosions@.subrange(from as int, explosions.len() as int), x as int, y as int),
{
    let ghost cells = explosions@.subrange(from as int, explosions.len() as int);
    let mut k: usize = from;
    while k < explosions.len()
        invariant
            from <= k <= explosions.len(),
            cells == explosions@.subrange(from as int, explosions.len() as int),
            forall|j: int| 0 <= j < k - from ==> !((#[trigger] cells[j]).x == x && cells[j].y == y),
        decreases explosions.len() - k,
    {
        if explosions[k].x == x && explosions[k].y == y {
            assert(cells[k - from].x == x && cells[k - from].y == y);
            return true;
        }
        k += 1;
    }
    false
}

impl GameInstance {
    /// Kills every living player who stands on one of the explosions from
    /// index `from` on.
    fn scorch_players(&mut self, from: usize)
        requires
            old(self).wf(),
            from <= old(self)@.explosions.len(),
        ensures
            final(self).wf(),
            final(self)@ == (GameView {
                players: old(self)@.players.map_values(
                    |p: Player|
                        scorched(
                            p,
                            old(self)@.explosions.subrange(from as int, old(self)@.explosions.len() as int),
                        ),
                ),
                ..old(self)@
            }),
    {
        let ghost start = self@;
        let ghost cells = start.explosions.subrange(from as int, start.explosions.len() as int);
        let mut i: usize = 0;
        while i < self.players.len()
            invariant
                start.wf(),
                self.wf(),
                from <= start.explosions.len(),
                cells == start.explosions.subrange(from as int, start.explosions.len() as int),
                i <= self.players.len(),
                self@.grid == start.grid,
                self@.bombs == start.bombs,
                self@.explosions == start.explosions,
                self@.items == start.items,
                self@.tick == start.tick,
                self@.phase == start.phase,
                self@.blasts == start.blasts,
                self@.players.len() == start.players.len(),
                forall|j: int| 0 <= j < i ==> #[trigger] self@.players[j] == scorched(start.players[j], cells),
                forall|j: int| i <= j < self@.players.len() ==> #[trigger] self@.players[j] == start.players[j],
            decreases self.players.len() - i,
        {
            if self.players[i].alive {
                let px = cell_index(self.players[i].x);
                let py = cell_index(self.players[i].y);
                if lit(&self.explosions, from, px, py) {
                    self.players[i].alive = false;
                }
            }
            i += 1;
        }
        assert(self@.players =~= start.players.map_values(|p: Player| scorched(p, cells)));
    }

    /// Makes every bomb due that sits on one of the explosions from index
    /// `from` on.
    fn chain_bombs(&mut self, from: usize)
        requires
            old(self).wf(),
            from <= old(self)@.explosions.len(),
        ensures
            final(self).wf(),
            final(self)@ == (GameView {
                bombs: old(self)@.bombs.map_values(
                    |b: Bomb|
                        chained(
                            b,
                            old(self)@.explosions.subrange(from as int, old(self)@.explosions.len() as int),
                        ),
                ),
                ..old(self)@
            }),
    {
        let ghost start = self@;
        let ghost cells = start.explosions.subrange(from as int, start.explosions.len() as int);
        let mut i: usize = 0;
        while i < self.bombs.len()
            invariant
                start.wf(),
                self.wf(),
                from <= start.explosions.len(),
                cells == start.explosions.subrange(from as int, start.explosions.len() as int),
                i <= self.bombs.len(),
                self@.grid == start.grid,
                self@.players == start.players,
                self@.explosions == start.explosions,
                self@.items == start.items,
                self@.tick == start.tick,
                self@.phase == start.phase,
                self@.blasts == start.blasts,
                self@.bombs.len() == start.bombs.len(),
                forall|j: int| 0 <= j < i ==> #[trigger] self@.bombs[j] == chained(start.bombs[j], cells),
                forall|j: int| i <= j < self@.bombs.len() ==> #[trigger] self@.bombs[j] == start.bombs[j],
            decreases self.bombs.len() - i,
        {
            if lit(&self.explosions, from, self.bombs[i].x, self.bombs[i].y) {
                self.bombs[i].timer = 0;
            }
            i += 1;
        }
        assert(self@.bombs =~= start.bombs.map_values(|b: Bomb| chained(b, cells)));
    }

    /// Sets off a bomb of the given range on cell `(cx, cy)`: counts the
    /// detonation, lights its cell and its four arms, destroys the blocks the
    /// arms end on, kills the players on a lit cell and makes the bombs on a
    /// lit cell due. Returns the destroyed blocks, in the order of their
    /// destruction.
    pub fn create_explosion(&mut self, cx: usize, cy: usize, range: u32) -> (broken: Vec<Rubble>)
        requires
            old(self).wf(),
            cx < MAP_COLS,
            cy < MAP_ROWS,
        ensures
            final(self).wf(),
            final(self)@ == explode(old(self)@, cx as int, cy as int, range as int),
            broken@ == blast(
                old(self)@.grid,
                cx as int,
                cy as int,
                range as int,
                next_blast(old(self)@.blasts),
            ).broken,
            rubble_wf(broken@, final(self)@.blasts),
    {
        let ghost start = self@;
        let ghost b = blast(start.grid, cx as int, cy as int, range as int, next_blast(start.blasts));
        if self.blasts < u64::MAX {
            self.blasts += 1;
        }
        let from = self.explosions.len();
        let mut broken: Vec<Rubble> = Vec::new();
        self.explosions.push(Explosion { x: cx, y: cy, timer: EXPLOSION_DURATION_TICKS, lit: self.blasts });
        self.light_arm(cx, cy, Direction::Left, range, &mut broken);
        self.light_arm(cx, cy, Direction::Right, range, &mut broken);
        self.light_arm(cx, cy, Direction::Up, range, &mut broken);
        self.light_arm(cx, cy, Direction::Down, range, &mut broken);
        assert(self@.explosions =~= start.explosions + b.explosions);
        assert(self@.explosions.subrange(from as int, self@.explosions.len() as int) =~= b.explosions);
        assert(broken@ =~= b.broken);
        self.scorch_players(from);
        self.chain_bombs(from);
        broken
    }
}

impl GameInstance {
    /// Index of the first due bomb; the number of bombs if none is due.
    fn find_due(&self) -> (i: usize)
        ensures
            i == first_due(self@.bombs, 0),
            i <= self@.bombs.len(),
    {
        let mut i: usize = 0;
        while i < self.bombs.len()
            invariant
                i <= self.bombs.len(),
                first_due(self@.bombs, 0) == first_due(self@.bombs, i as int),
            decreases self.bombs.len() - i,
        {
            if self.bombs[i].timer == 0 {
                return i;
            }
            i += 1;
        }
        i
    }

    /// Burns every fuse for one tick.
    fn burn_fuses(&mut self)
        requires
            old(self).wf(),
        ensures
            final(self).wf(),
            final(self)@ == fuses_burned(old(self)@),
    {
        let ghost start = self@;
        let mut i: usize = 0;
        while i < self.bombs.len()
            invariant
                start.wf(),
                self.wf(),
                i <= self.bombs.len(),
                self@.grid == start.grid,
                self@.players == start.players,
                self@.explosions == start.explosions,
                self@.items == start.items,
                self@.tick == start.tick,
                self@.phase == start.phase,
                self@.blasts == start.blasts,
                self@.bombs.len() == start.bombs.len(),
                forall|j: int| 0 <= j < i ==> #[trigger] self@.bombs[j] == ticked(start.bombs[j]),
                forall|j: int| i <= j < self@.bombs.len() ==> #[trigger] self@.bombs[j] == start.bombs[j],
            decreases self.bombs.len() - i,
        {
            if self.bombs[i].timer > 0 {
                self.bombs[i].timer -= 1;
            }
            i += 1;
        }
        assert(self@.bombs =~= start.bombs.map_values(|b: Bomb| ticked(b)));
    }

    /// Takes one bomb off the count of those that `owner` has out.
    fn refund(&mut self, owner: u8)
        requires
            old(self).wf(),
        ensures
            final(self).wf(),
            final(self)@ == (GameView {
                players: old(self)@.players.map_values(|p: Player| refunded(p, owner)),
                ..old(self)@
            }),
    {
        let ghost start = self@;
        match self.find_player(owner) {
            Some(k) => {
                if self.players[k].active_bombs > 0 {
                    self.players[k].active_bombs -= 1;
                }
            },
            None => {},
        }
        assert(self@.players =~= start.players.map_values(|p: Player| refunded(p, owner)));
    }

    /// The bomb phase of a tick: burns every fuse for one tick, then sets off
    /// the due bombs one at a time, the earliest placed first, until none is
    /// due. Returns the destroyed blocks, in the order of their destruction.
    pub fn update_bombs(&mut self) -> (broken: Vec<Rubble>)
        requires
            old(self).wf(),
        ensures
            final(self).wf(),
            final(self)@ == bombs_phase(old(self)@),
            broken@ == bombs_phase_broken(old(self)@),
            rubble_wf(broken@, final(self)@.blasts),
    {
        self.burn_fuses();
        let ghost lit = self@;
        let mut broken: Vec<Rubble> = Vec::new();
        let mut i = self.find_due();
        while i < self.bombs.len()
            invariant
                self.wf(),
                rubble_wf(broken@, self@.blasts),
                i == first_due(self@.bombs, 0),
                resolve(self@) == resolve(lit),
                broken@ + resolve_broken(self@) == resolve_broken(lit),
            decreases self.bombs.len(),
        {
            let ghost before = self@;
            let ghost noted = broken@;
            let b = self.bombs.remove(i);
            assert(self@ == (GameView { bombs: before.bombs.remove(i as int), ..before }));
            let mut more = self.create_explosion(b.x, b.y, b.range);
            let ghost found = more@;
            broken.append(&mut more);
            self.refund(b.owner);
            assert(self@ == detonate(before, i as int));
            assert(broken@ + resolve_broken(self@) =~= resolve_broken(lit)) by {
                assert(resolve_broken(before) == found + resolve_broken(self@));
            }
            assert(rubble_wf(broken@, self@.blasts)) by {
                assert(before.blasts <= self@.blasts);
                assert forall|k: int| 0 <= k < broken@.len() implies in_grid(
                    (#[trigger] broken@[k]).y as int,
                    broken@[k].x as int,
                ) && broken@[k].blast <= self@.blasts by {
                    if k < noted.len() {
                        assert(broken@[k] == noted[k]);
                    } else {
                        assert(broken@[k] == found[k - noted.len()]);
                    }
                }
            }
            i = self.find_due();
        }
        broken
    }
}

} // verus!
