use vstd::prelude::*;

verus! {

/// The occupant of one grid cell. Equality is structural: two player
/// cells are the same occupant exactly when their ids agree.
#[derive(PartialEq, Eq, Structural, Clone, Copy, Debug)]
pub enum Entity {
    Empty,
    Banana,
    Wall,
    Player(i64),
}

/// The direction a player asks to move in; `Stay` requests no movement.
#[derive(PartialEq, Eq, Structural, Clone, Copy, Debug)]
pub enum Move {
    North,
    West,
    South,
    East,
    Stay,
}

/// One agent's requested action for a tick: who moves, and where to.
#[derive(PartialEq, Eq, Structural, Clone, Copy, Debug)]
pub struct PlayerMove {
    pub id: i64,
    pub direction: Move,
}

/// The occupant encoded by one integer of the wire format:
/// 0 is empty, 1 a banana, 2 a wall, and any other integer the
/// player with that id.
pub open spec fn entity_of_code(code: i64) -> Entity {
    if code == 0 {
        Entity::Empty
    } else if code == 1 {
        Entity::Banana
    } else if code == 2 {
        Entity::Wall
    } else {
        Entity::Player(code)
    }
}

/// The integer that encodes an occupant on the wire.
pub open spec fn code_of_entity(e: Entity) -> i64 {
    match e {
        Entity::Empty => 0,
        Entity::Banana => 1,
        Entity::Wall => 2,
        Entity::Player(id) => id,
    }
}

impl Entity {
    /// Decode one entity code from the wire format.
    pub fn from_i64(val: i64) -> (r: Entity)
        ensures
            r == entity_of_code(val),
    {
        match val {
            0 => Entity::Empty,
            1 => Entity::Banana,
            2 => Entity::Wall,
            id => Entity::Player(id),
        }
    }

    /// Encode this occupant back into its entity code.
    pub fn to_i64(&self) -> (r: i64)
        ensures
            r == code_of_entity(*self),
    {
        match *self {
            Entity::Empty => 0,
            Entity::Banana => 1,
            Entity::Wall => 2,
            Entity::Player(id) => id,
        }
    }
}

/// Decoding an entity code and encoding the result recovers the code:
/// 0, 1 and 2 map back to themselves, and a player code N comes back as N.
pub proof fn lemma_entity_code_round_trip(code: i64)
    ensures
        code_of_entity(entity_of_code(code)) == code,
{
}

/// The single-letter wire code of a direction.
pub open spec fn spec_direction_code(d: Move) -> char {
    match d {
        Move::North => 'N',
        Move::West => 'W',
        Move::South => 'S',
        Move::East => 'E',
        Move::Stay => 'O',
    }
}

/// The direction named by a single-letter wire code, if any.
pub open spec fn spec_direction_of_code(c: char) -> Option<Move> {
    if c == 'N' {
        Some(Move::North)
    } else if c == 'W' {
        Some(Move::West)
    } else if c == 'S' {
        Some(Move::South)
    } else if c == 'E' {
        Some(Move::East)
    } else if c == 'O' {
        Some(Move::Stay)
    } else {
        None
    }
}

/// The coordinate a move aims at from (row, col), before any check
/// against the grid's dimensions. North at row 0 and west at column 0
/// have no target at all; south and east always name one.
pub open spec fn target_of(d: Move, row: int, col: int) -> Option<(int, int)> {
    match d {
        Move::North => if row > 0 { Some((row - 1, col)) } else { None },
        Move::West => if col > 0 { Some((row, col - 1)) } else { None },
        Move::South => Some((row + 1, col)),
        Move::East => Some((row, col + 1)),
        Move::Stay => None,
    }
}

impl Move {
    /// The single-letter code used on the wire: N, W, S, E, or O for `Stay`.
    pub fn code(&self) -> (c: char)
        ensures
            c == spec_direction_code(*self),
    {
        match *self {
            Move::North => 'N',
            Move::West => 'W',
            Move::South => 'S',
            Move::East => 'E',
            Move::Stay => 'O',
        }
    }

    /// Parse a single-letter wire code back into a direction.
    pub fn from_code(c: char) -> (r: Option<Move>)
        ensures
            r == spec_direction_of_code(c),
    {
        match c {
            'N' => Some(Move::North),
            'W' => Some(Move::West),
            'S' => Some(Move::South),
            'E' => Some(Move::East),
            'O' => Some(Move::Stay),
            _ => None,
        }
    }

    /// The target coordinate of this move from (row, col), not yet
    /// checked against the grid's dimensions.
    pub fn move_from(&self, row: usize, col: usize) -> (r: Option<(usize, usize)>)
        requires
            row < usize::MAX,
            col < usize::MAX,
        ensures
            match r {
                Some(t) => target_of(*self, row as int, col as int) == Some((t.0 as int, t.1 as int)),
                None => target_of(*self, row as int, col as int) is None,
            },
    {
        match *self {
            Move::North => if row > 0 { Some((row - 1, col)) } else { None },
            Move::West => if col > 0 { Some((row, col - 1)) } else { None },
            Move::South => Some((row + 1, col)),
            Move::East => Some((row, col + 1)),
            Move::Stay => None,
        }
    }
}

/// Every direction code round-trips: parsing the letter of a direction
/// gives that direction back.
pub proof fn lemma_direction_code_round_trip(d: Move)
    ensures
        spec_direction_of_code(spec_direction_code(d)) == Some(d),
{
}

/// The mathematical view of a vector of rows: each row as a sequence.
pub open spec fn rows_view<T>(rows: Seq<Vec<T>>) -> Seq<Seq<T>> {
    rows.map_values(|r: Vec<T>| r@)
}

/// The game board: rows of occupants, row 0 northmost, column 0
/// westmost. Rows need not all have the same length.
#[derive(PartialEq, Eq, Clone, Debug)]
pub struct Grid {
    pub content: Vec<Vec<Entity>>,
}

impl View for Grid {
    type V = Seq<Seq<Entity>>;

    open spec fn view(&self) -> Seq<Seq<Entity>> {
        rows_view(self.content@)
    }
}

/// The index of the first cell of `row` that holds `e`, if any.
pub open spec fn row_first(row: Seq<Entity>, e: Entity) -> Option<int>
    decreases row.len(),
{
    if row.len() == 0 {
        None
    } else if row[0] == e {
        Some(0int)
    } else {
        match row_first(row.drop_first(), e) {
            Some(i) => Some(i + 1),
            None => None,
        }
    }
}

/// The coordinate of the first cell of `g`, in row-major order, that
/// holds `e`, if any.
pub open spec fn grid_first(g: Seq<Seq<Entity>>, e: Entity) -> Option<(int, int)>
    decreases g.len(),
{
    if g.len() == 0 {
        None
    } else {
        match row_first(g[0], e) {
            Some(c) => Some((0int, c)),
            None => match grid_first(g.drop_first(), e) {
                Some(rc) => Some((rc.0 + 1, rc.1)),
                None => None,
            },
        }
    }
}

/// A row with no cell holding `e` has no first occurrence of it.
proof fn lemma_row_first_absent(row: Seq<Entity>, e: Entity)
    requires
        forall|j: int| 0 <= j < row.len() ==> row[j] != e,
    ensures
        row_first(row, e) is None,
    decreases row.len(),
{
    if row.len() > 0 {
        assert(forall|j: int| 0 <= j < row.drop_first().len() ==> row.drop_first()[j] == row[j + 1]);
        lemma_row_first_absent(row.drop_first(), e);
    }
}

/// If `row[c]` holds `e` and no earlier cell does, then `c` is the
/// first occurrence.
proof fn lemma_row_first_found(row: Seq<Entity>, e: Entity, c: int)
    requires
        0 <= c < row.len(),
        row[c] == e,
        forall|j: int| 0 <= j < c ==> row[j] != e,
    ensures
        row_first(row, e) == Some(c),
    decreases row.len(),
{
    if c == 0 {
    } else {
        assert(row[0] != e);
        assert(forall|j: int| 0 <= j < row.drop_first().len() ==> row.drop_first()[j] == row[j + 1]);
        lemma_row_first_found(row.drop_first(), e, c - 1);
    }
}

/// A grid none of whose cells holds `e` has no first occurrence of it.
proof fn lemma_grid_first_absent(g: Seq<Seq<Entity>>, e: Entity)
    requires
        forall|r: int, c: int| 0 <= r < g.len() && 0 <= c < g[r].len() ==> g[r][c] != e,
    ensures
        grid_first(g, e) is None,
    decreases g.len(),
{
    if g.len() > 0 {
        assert(forall|j: int| 0 <= j < g[0].len() ==> g[0][j] != e);
        lemma_row_first_absent(g[0], e);
        let rest = g.drop_first();
        assert(forall|r: int| 0 <= r < rest.len() ==> rest[r] == g[r + 1]);
        assert(forall|r: int, c: int| 0 <= r < rest.len() && 0 <= c < rest[r].len() ==> rest[r][c] != e);
        lemma_grid_first_absent(rest, e);
    }
}

/// If `g[r][c]` holds `e` and no cell before (r, c) in row-major order
/// does, then (r, c) is the first occurrence.
proof fn lemma_grid_first_found(g: Seq<Seq<Entity>>, e: Entity, r: int, c: int)
    requires
        0 <= r < g.len(),
        0 <= c < g[r].len(),
        g[r][c] == e,
        forall|rr: int, cc: int| 0 <= rr < r && 0 <= cc < g[rr].len() ==> g[rr][cc] != e,
        forall|cc: int| 0 <= cc < c ==> g[r][cc] != e,
    ensures
        grid_first(g, e) == Some((r, c)),
    decreases g.len(),
{
    if r == 0 {
        lemma_row_first_found(g[0], e, c);
    } else {
        assert(forall|j: int| 0 <= j < g[0].len() ==> g[0][j] != e);
        lemma_row_first_absent(g[0], e);
        let rest = g.drop_first();
        assert(forall|rr: int| 0 <= rr < rest.len() ==> rest[rr] == g[rr + 1]);
        assert(forall|rr: int, cc: int| 0 <= rr < r - 1 && 0 <= cc < rest[rr].len() ==> rest[rr][cc] != e);
        assert(forall|cc: int| 0 <= cc < c ==> #[trigger] rest[r - 1][cc] != e);
        lemma_grid_first_found(rest, e, r - 1, c);
    }
}

/// `g` with the cell at (r, c) replaced by `e`.
pub open spec fn set_cell(g: Seq<Seq<Entity>>, r: int, c: int, e: Entity) -> Seq<Seq<Entity>> {
    g.update(r, g[r].update(c, e))
}

/// The grid after one requested move. A `Stay` request, a player that
/// is not on the grid, and a target outside the grid's dimensions all
/// leave the grid as it was; otherwise the first cell holding the
/// player becomes empty and the target cell is overwritten with the
/// player, whatever occupied it.
pub open spec fn spec_apply_move(g: Seq<Seq<Entity>>, m: PlayerMove) -> Seq<Seq<Entity>> {
    if m.direction is Stay {
        g
    } else {
        match grid_first(g, Entity::Player(m.id)) {
            None => g,
            Some(rc) => match target_of(m.direction, rc.0, rc.1) {
                None => g,
                Some(t) => if 0 <= t.0 < g.len() && 0 <= t.1 < g[t.0].len() {
                    set_cell(set_cell(g, rc.0, rc.1, Entity::Empty), t.0, t.1, Entity::Player(m.id))
                } else {
                    g
                },
            },
        }
    }
}

/// Replacing one row commutes with taking the rows' view.
proof fn lemma_rows_view_update(rows: Seq<Vec<Entity>>, i: int, v: Vec<Entity>)
    requires
        0 <= i < rows.len(),
    ensures
        rows_view(rows.update(i, v)) == rows_view(rows).update(i, v@),
{
    assert(rows_view(rows.update(i, v)) =~= rows_view(rows).update(i, v@));
}

/// The first cell of `content`, in row-major order, that holds `e`.
fn find_entity(content: &Vec<Vec<Entity>>, e: Entity) -> (r: Option<(usize, usize)>)
    ensures
        match r {
            Some(rc) => {
                &&& grid_first(rows_view(content@), e) == Some((rc.0 as int, rc.1 as int))
                &&& rc.0 < content@.len()
                &&& rc.1 < content@[rc.0 as int]@.len()
            },
            None => grid_first(rows_view(content@), e) is None,
        },
{
    let ghost g: Seq<Seq<Entity>> = rows_view(content@);
    let mut row_index: usize = 0;
    while row_index < content.len()
        invariant
            row_index <= content.len(),
            g == rows_view(content@),
            forall|rr: int, cc: int| 0 <= rr < row_index && 0 <= cc < g[rr].len() ==> g[rr][cc] != e,
        decreases content.len() - row_index,
    {
        let row_len = content[row_index].len();
        let mut col_index: usize = 0;
        while col_index < row_len
            invariant
                row_index < content.len(),
                col_index <= row_len,
                row_len == g[row_index as int].len(),
                g == rows_view(content@),
                forall|rr: int, cc: int| 0 <= rr < row_index && 0 <= cc < g[rr].len() ==> g[rr][cc] != e,
                forall|cc: int| 0 <= cc < col_index ==> g[row_index as int][cc] != e,
            decreases row_len - col_index,
        {
            if content[row_index][col_index] == e {
                proof {
                    lemma_grid_first_found(g, e, row_index as int, col_index as int);
                }
                return Some((row_index, col_index));
            }
            col_index += 1;
        }
        row_index += 1;
    }
    proof {
        lemma_grid_first_absent(g, e);
    }
    None
}

impl Grid {
    /// Apply one requested move to the board, exactly as
    /// `spec_apply_move` describes: scan for the first cell holding the
    /// moving player, compute the target coordinate, and relocate the
    /// player only when the target lies inside the grid.
    pub fn apply_move(&mut self, player_move: &PlayerMove)
        ensures
            final(self)@ == spec_apply_move(old(self)@, *player_move),
    {
        if player_move.direction == Move::Stay {
            return;
        }
        let player = Entity::Player(player_move.id);
        if let Some((src_row, src_col)) = find_entity(&self.content, player) {
            let row_count: usize = self.content.len();
            let row_len: usize = self.content[src_row].len();
            assert(src_row < row_count && src_col < row_len);
            if let Some((target_row, target_col)) = player_move.direction.move_from(src_row, src_col) {
                if target_row < self.content.len() {
                    if target_col < self.content[target_row].len() {
                        let ghost g0: Seq<Seq<Entity>> = self@;
                        self.content[src_row][src_col] = Entity::Empty;
                        proof {
                            lemma_rows_view_update(
                                old(self).content@,
                                src_row as int,
                                self.content@[src_row as int],
                            );
                            assert(self@ == set_cell(g0, src_row as int, src_col as int, Entity::Empty));
                        }
                        let ghost g1: Seq<Seq<Entity>> = self@;
                        let ghost mid: Seq<Vec<Entity>> = self.content@;
                        self.content[target_row][target_col] = player;
                        proof {
                            lemma_rows_view_update(
                                mid,
                                target_row as int,
                                self.content@[target_row as int],
                            );
                            assert(self@ == set_cell(g1, target_row as int, target_col as int, player));
                        }
                    }
                }
            }
        }
    }
}

/// The grid after a sequence of requested moves, applied in order.
pub open spec fn spec_apply_moves(g: Seq<Seq<Entity>>, moves: Seq<PlayerMove>) -> Seq<Seq<Entity>>
    decreases moves.len(),
{
    if moves.len() == 0 {
        g
    } else {
        spec_apply_moves(spec_apply_move(g, moves[0]), moves.drop_first())
    }
}

/// The grid after the same requested move is applied `n` times over.
pub open spec fn spec_apply_move_times(g: Seq<Seq<Entity>>, m: PlayerMove, n: nat) -> Seq<Seq<Entity>>
    decreases n,
{
    if n == 0 {
        g
    } else {
        spec_apply_move_times(spec_apply_move(g, m), m, (n - 1) as nat)
    }
}

/// A move whose direction is `Stay` leaves any grid unchanged.
pub proof fn lemma_stay_is_noop(g: Seq<Seq<Entity>>, m: PlayerMove)
    requires
        m.direction is Stay,
    ensures
        spec_apply_move(g, m) == g,
{
}

/// Applying a `Stay` move any number of times is the same as applying
/// it once: both leave the grid exactly as it was.
pub proof fn lemma_stay_is_idempotent(g: Seq<Seq<Entity>>, m: PlayerMove, n: nat)
    requires
        m.direction is Stay,
    ensures
        spec_apply_move_times(g, m, n) == g,
        spec_apply_move_times(g, m, n) == spec_apply_move(g, m),
    decreases n,
{
    if n > 0 {
        lemma_stay_is_idempotent(g, m, (n - 1) as nat);
    }
}

/// A move by a player that is nowhere on the grid leaves the grid
/// unchanged, whatever the direction.
pub proof fn lemma_absent_player_is_noop(g: Seq<Seq<Entity>>, m: PlayerMove)
    requires
        forall|r: int, c: int| 0 <= r < g.len() && 0 <= c < g[r].len() ==> g[r][c] != Entity::Player(m.id),
    ensures
        spec_apply_move(g, m) == g,
{
    if !(m.direction is Stay) {
        lemma_grid_first_absent(g, Entity::Player(m.id));
    }
}

/// On a grid holding the moving player in exactly one cell (r, c), a
/// real direction either relocates the player to its target neighbor
/// — the source cell becomes empty, the target cell holds the player,
/// and every other cell keeps its occupant — or, when the target lies
/// outside the grid, leaves the grid unchanged.
pub proof fn lemma_move_relocates_unique_player(g: Seq<Seq<Entity>>, m: PlayerMove, r: int, c: int)
    requires
        !(m.direction is Stay),
        0 <= r < g.len(),
        0 <= c < g[r].len(),
        g[r][c] == Entity::Player(m.id),
        forall|rr: int, cc: int|
            0 <= rr < g.len() && 0 <= cc < g[rr].len() && (rr, cc) != (r, c)
                ==> g[rr][cc] != Entity::Player(m.id),
    ensures
        match target_of(m.direction, r, c) {
            Some(t) => if 0 <= t.0 < g.len() && 0 <= t.1 < g[t.0].len() {
                &&& spec_apply_move(g, m)
                    == set_cell(set_cell(g, r, c, Entity::Empty), t.0, t.1, Entity::Player(m.id))
                &&& spec_apply_move(g, m)[r][c] == Entity::Empty
                &&& spec_apply_move(g, m)[t.0][t.1] == Entity::Player(m.id)
                &&& forall|rr: int, cc: int|
                    0 <= rr < g.len() && 0 <= cc < g[rr].len() && (rr, cc) != (r, c) && (rr, cc) != t
                        ==> spec_apply_move(g, m)[rr][cc] == g[rr][cc]
            } else {
                spec_apply_move(g, m) == g
            },
            None => spec_apply_move(g, m) == g,
        },
{
    let player = Entity::Player(m.id);
    lemma_grid_first_found(g, player, r, c);
    match target_of(m.direction, r, c) {
        Some(t) => {
            if 0 <= t.0 < g.len() && 0 <= t.1 < g[t.0].len() {
                let after = spec_apply_move(g, m);
                assert(t != (r, c));
                assert(after[r][c] == Entity::Empty);
                assert(after[t.0][t.1] == player);
            }
        },
        None => {},
    }
}

/// The grid described by a payload of entity codes, cell by cell.
pub open spec fn decode_codes(codes: Seq<Seq<i64>>) -> Seq<Seq<Entity>> {
    codes.map_values(|row: Seq<i64>| row.map_values(|code: i64| entity_of_code(code)))
}

/// The payload of entity codes describing a grid, cell by cell.
pub open spec fn encode_grid(g: Seq<Seq<Entity>>) -> Seq<Seq<i64>> {
    g.map_values(|row: Seq<Entity>| row.map_values(|e: Entity| code_of_entity(e)))
}

/// Decoding a payload of entity codes and re-encoding the resulting
/// grid gives the payload back, cell for cell: the 0/1/2 codes are
/// preserved and every player code is recovered.
pub proof fn lemma_grid_codes_round_trip(codes: Seq<Seq<i64>>)
    ensures
        encode_grid(decode_codes(codes)) == codes,
{
    assert forall|r: int, c: int|
        0 <= r < codes.len() && 0 <= c < codes[r].len()
            implies #[trigger] encode_grid(decode_codes(codes))[r][c] == codes[r][c] by {
        lemma_entity_code_round_trip(codes[r][c]);
    }
    assert(encode_grid(decode_codes(codes)) =~~= codes);
}

impl Grid {
    /// Decode a grid payload: one entity code for each cell.
    pub fn from_codes(codes: &Vec<Vec<i64>>) -> (g: Grid)
        ensures
            g@ == decode_codes(rows_view(codes@)),
    {
        let mut content: Vec<Vec<Entity>> = Vec::new();
        let mut i: usize = 0;
        while i < codes.len()
            invariant
                i <= codes.len(),
                content@.len() == i,
                forall|r: int| 0 <= r < i ==> #[trigger] content@[r]@.len() == codes@[r]@.len(),
                forall|r: int, c: int|
                    0 <= r < i && 0 <= c < content@[r]@.len()
                        ==> #[trigger] content@[r]@[c] == entity_of_code(codes@[r]@[c]),
            decreases codes.len() - i,
        {
            let row = &codes[i];
            let mut cells: Vec<Entity> = Vec::new();
            let mut j: usize = 0;
            while j < row.len()
                invariant
                    j <= row.len(),
                    cells@.len() == j,
                    forall|c: int| 0 <= c < j ==> #[trigger] cells@[c] == entity_of_code(row@[c]),
                decreases row.len() - j,
            {
                cells.push(Entity::from_i64(row[j]));
                j += 1;
            }
            content.push(cells);
            i += 1;
        }
        let g = Grid { content };
        proof {
            assert(g@ =~~= decode_codes(rows_view(codes@)));
        }
        g
    }

    /// Encode this grid back into a payload of entity codes.
    pub fn to_codes(&self) -> (codes: Vec<Vec<i64>>)
        ensures
            rows_view(codes@) == encode_grid(self@),
    {
        let mut codes: Vec<Vec<i64>> = Vec::new();
        let mut i: usize = 0;
        while i < self.content.len()
            invariant
                i <= self.content.len(),
                codes@.len() == i,
                forall|r: int| 0 <= r < i ==> #[trigger] codes@[r]@.len() == self.content@[r]@.len(),
                forall|r: int, c: int|
                    0 <= r < i && 0 <= c < codes@[r]@.len()
                        ==> #[trigger] codes@[r]@[c] == code_of_entity(self.content@[r]@[c]),
            decreases self.content.len() - i,
        {
            let row = &self.content[i];
            let mut cells: Vec<i64> = Vec::new();
            let mut j: usize = 0;
            while j < row.len()
                invariant
                    j <= row.len(),
                    cells@.len() == j,
                    forall|c: int| 0 <= c < j ==> #[trigger] cells@[c] == code_of_entity(row@[c]),
                decreases row.len() - j,
            {
                cells.push(row[j].to_i64());
                j += 1;
            }
            codes.push(cells);
            i += 1;
        }
        proof {
            assert(rows_view(codes@) =~~= encode_grid(self@));
        }
        codes
    }
}

/// One tick notification from the game server: the tick's own id and
/// the moves the server reports for it. An absent list means no moves
/// were made this tick.
#[derive(PartialEq, Debug)]
pub struct GameTick {
    pub id: i64,
    pub moves: Option<Vec<PlayerMove>>,
}

impl GameTick {
    pub fn new(id: i64, moves: Option<Vec<PlayerMove>>) -> (t: GameTick)
        ensures
            t.id == id,
            t.moves == moves,
    {
        GameTick { id, moves }
    }

    /// The moves the server reported for this tick, if any.
    pub fn moves(&self) -> (r: &Option<Vec<PlayerMove>>)
        ensures
            r == &self.moves,
    {
        &self.moves
    }
}

/// The agent's lifecycle in its decoupled form: the assigned identity
/// and the owned board are tracked independently, each optional. (The
/// coupled form, where a board can only be owned together with an
/// identity, is `server::GameState`; that stricter form is the one the
/// orchestration layer uses.)
#[derive(Debug)]
pub struct GameState {
    pub player_id: Option<i64>,
    pub map: Option<Grid>,
}

impl Default for GameState {
    /// The state at process start: no identity, no board.
    fn default() -> (r: Self)
        ensures
            r.player_id is None,
            r.map is None,
    {
        GameState { player_id: None, map: None }
    }
}

impl GameState {
    /// Mutable access to the registered identity, if any.
    pub fn player_mut(&mut self) -> (r: &mut Option<i64>)
        ensures
            *r == old(self).player_id,
            final(self).player_id == *final(r),
            final(self).map == old(self).map,
    {
        &mut self.player_id
    }

    /// The registered identity; only meaningful once one is recorded.
    pub fn player(&self) -> (r: i64)
        requires
            self.player_id is Some,
        ensures
            self.player_id == Some(r),
    {
        self.player_id.unwrap()
    }

    /// Install the board, replacing any board owned before.
    pub fn set_map(&mut self, map: Grid)
        ensures
            final(self).map == Some(map),
            final(self).player_id == old(self).player_id,
    {
        self.map = Some(map);
    }

    /// Mutable access to the board; only meaningful once one is owned.
    pub fn map_mut(&mut self) -> (r: &mut Grid)
        requires
            self.map is Some,
        ensures
            *r == old(self).map->0,
            final(self).player_id == old(self).player_id,
            final(self).map == Some(*final(r)),
    {
        (&mut self.map).as_mut().unwrap()
    }
}

} // verus!
