//! Grid maps, control nodes and the map parsers.

use vstd::prelude::*;

use crate::domain::error::{DomainError, MapValidationError};
use crate::domain::ids::{MapId, NodeId, TeamId};
use crate::domain::room::spec_default_map_id;
use crate::domain::team::TeamSide;
use crate::seqs::{first_index, lemma_first_index, lemma_first_index_is, lemma_first_index_none};
use crate::text::{chars_of, is_white_space, is_white_space_char};

verus! {

/// A cell of the grid: `x` counts columns from the left, `y` rows from the top.
#[derive(Debug, Clone, Copy, PartialEq, Eq, Hash, Structural)]
pub struct Position {
    pub x: i32,
    pub y: i32,
}

/// The absolute value of an integer.
pub open spec fn abs(v: int) -> int {
    if v < 0 {
        -v
    } else {
        v
    }
}

/// The Manhattan distance between two positions.
pub open spec fn spec_manhattan(a: Position, b: Position) -> int {
    abs(a.x - b.x) + abs(a.y - b.y)
}

impl Position {
    pub fn new(x: i32, y: i32) -> (r: Self)
        ensures
            r == (Position { x, y }),
    {
        Self { x, y }
    }

    /// The number of horizontal and vertical steps between the two positions.
    pub fn manhattan_distance(&self, other: &Self) -> (r: u32)
        requires
            spec_manhattan(*self, *other) <= i32::MAX,
        ensures
            r == spec_manhattan(*self, *other),
    {
        let dx = self.x - other.x;
        let dy = self.y - other.y;
        let ax = if dx < 0 { -dx } else { dx };
        let ay = if dy < 0 { -dy } else { dy };
        (ax + ay) as u32
    }
}

/// The Manhattan distance is a distance: symmetric, zero exactly between equal
/// positions, and never longer than a detour through a third position.
pub proof fn law_manhattan_is_a_distance(a: Position, b: Position, c: Position)
    ensures
        spec_manhattan(a, b) == spec_manhattan(b, a),
        spec_manhattan(a, b) >= 0,
        spec_manhattan(a, b) == 0 <==> a == b,
        spec_manhattan(a, c) <= spec_manhattan(a, b) + spec_manhattan(b, c),
{
}

/// The Manhattan distance goes along rows and columns: between two positions of one
/// row it is how far apart their columns are, and between any two it is the way to the
/// corner in the first's row and the second's column, plus the way on from there.
pub proof fn law_manhattan_goes_by_rows_and_columns(a: Position, b: Position)
    ensures
        a.y == b.y ==> spec_manhattan(a, b) == if a.x >= b.x { a.x - b.x } else { b.x - a.x },
        a.x == b.x ==> spec_manhattan(a, b) == if a.y >= b.y { a.y - b.y } else { b.y - a.y },
        spec_manhattan(a, b) == spec_manhattan(a, Position { x: b.x, y: a.y }) + spec_manhattan(Position { x: b.x, y: a.y }, b),
{
}

/// A tile of the grid.
#[derive(Debug, PartialEq, Eq)]
pub enum Tile {
    Normal,
    Wall,
    Cover,
    Spawn { team_side: TeamSide },
    Node { node_id: NodeId },
}

impl Clone for Tile {
    fn clone(&self) -> (r: Self)
        ensures
            r == *self,
    {
        match self {
            Tile::Normal => Tile::Normal,
            Tile::Wall => Tile::Wall,
            Tile::Cover => Tile::Cover,
            Tile::Spawn { team_side } => Tile::Spawn { team_side: *team_side },
            Tile::Node { node_id } => Tile::Node { node_id: node_id.clone() },
        }
    }
}

/// A map node that teams capture for points.
#[derive(Debug, PartialEq, Eq)]
pub struct ControlNode {
    pub id: NodeId,
    pub name: String,
    pub position: Position,
    pub score_value: i32,
    pub controlled_by: Option<TeamId>,
}

/// A copy of an optional team identifier.
pub(crate) fn clone_opt_team(o: &Option<TeamId>) -> (r: Option<TeamId>)
    ensures
        r == *o,
{
    match o {
        Some(t) => Some(t.clone()),
        None => None,
    }
}

impl Clone for ControlNode {
    fn clone(&self) -> (r: Self)
        ensures
            r == *self,
    {
        ControlNode {
            id: self.id.clone(),
            name: self.name.clone(),
            position: self.position,
            score_value: self.score_value,
            controlled_by: clone_opt_team(&self.controlled_by),
        }
    }
}

impl ControlNode {
    /// A node that no team controls yet.
    pub fn new(id: NodeId, name: String, position: Position, score_value: i32) -> (r: Self)
        ensures
            r == (ControlNode { id, name, position, score_value, controlled_by: None }),
    {
        Self { id, name, position, score_value, controlled_by: None }
    }
}

/// A map: its grid of tiles, row by row, and its control nodes.
#[derive(Debug, PartialEq, Eq)]
pub struct GameMap {
    pub id: MapId,
    pub width: u32,
    pub height: u32,
    pub tiles: Vec<Vec<Tile>>,
    pub nodes: Vec<ControlNode>,
}

/// The value of a map, with its collections as sequences.
pub struct GameMapView {
    pub id: MapId,
    pub width: u32,
    pub height: u32,
    pub tiles: Seq<Seq<Tile>>,
    pub nodes: Seq<ControlNode>,
}

impl View for GameMap {
    type V = GameMapView;

    open spec fn view(&self) -> GameMapView {
        GameMapView {
            id: self.id,
            width: self.width,
            height: self.height,
            tiles: self.tiles@.map_values(|row: Vec<Tile>| row@),
            nodes: self.nodes@,
        }
    }
}

impl GameMapView {
    /// The grid has `height` rows of `width` tiles.
    pub open spec fn well_shaped(self) -> bool {
        &&& self.tiles.len() == self.height
        &&& forall|y: int| 0 <= y < self.tiles.len() ==> (#[trigger] self.tiles[y]).len() == self.width
    }

    /// Whether `pos` lies on the grid, with the bounds compared as `i32` values.
    pub open spec fn in_bounds(self, pos: Position) -> bool {
        pos.x >= 0 && pos.x < self.width as i32 && pos.y >= 0 && pos.y < self.height as i32
    }

    /// Whether some tile is a spawn of `side`.
    pub open spec fn has_spawn(self, side: TeamSide) -> bool {
        exists|y: int, x: int|
            0 <= y < self.tiles.len() && 0 <= x < self.tiles[y].len() && #[trigger] self.tiles[y][x] == (Tile::Spawn { team_side: side })
    }
}

impl GameMap {
    /// The tile at `pos`, or `None` off the grid.
    pub fn get_tile(&self, pos: &Position) -> (r: Option<&Tile>)
        requires
            self@.well_shaped(),
        ensures
            match r {
                Some(t) => self@.in_bounds(*pos) && *t == self@.tiles[pos.y as int][pos.x as int],
                None => !self@.in_bounds(*pos),
            },
    {
        if pos.x >= 0 && pos.x < self.width as i32 && pos.y >= 0 && pos.y < self.height as i32 {
            let w = self.width;
            let h = self.height;
            let x = pos.x;
            let y = pos.y;
            assert(x >= 0 && x < w as i32 ==> x < w) by (bit_vector);
            assert(y >= 0 && y < h as i32 ==> y < h) by (bit_vector);
            assert(self.tiles@[y as int]@ == self@.tiles[y as int]);
            Some(&self.tiles[pos.y as usize][pos.x as usize])
        } else {
            None
        }
    }

    /// Whether the map has a spawn tile for `side`.
    pub fn has_spawn(&self, side: TeamSide) -> (r: bool)
        ensures
            r == self@.has_spawn(side),
    {
        let mut y: usize = 0;
        while y < self.tiles.len()
            invariant
                y <= self.tiles@.len(),
                forall|yy: int, x: int|
                    0 <= yy < y && 0 <= x < self@.tiles[yy].len() ==> #[trigger] self@.tiles[yy][x] != (Tile::Spawn { team_side: side }),
            decreases self.tiles@.len() - y,
        {
            let row = &self.tiles[y];
            assert(row@ == self@.tiles[y as int]);
            let mut x: usize = 0;
            while x < row.len()
                invariant
                    y < self.tiles@.len(),
                    row@ == self@.tiles[y as int],
                    x <= row@.len(),
                    forall|xx: int| 0 <= xx < x ==> #[trigger] row@[xx] != (Tile::Spawn { team_side: side }),
                decreases row@.len() - x,
            {
                if let Tile::Spawn { team_side } = &row[x] {
                    if *team_side == side {
                        assert(self@.tiles[y as int][x as int] == (Tile::Spawn { team_side: side }));
                        return true;
                    }
                }
                x = x + 1;
            }
            y = y + 1;
        }
        false
    }
}


// ---------------------------------------------------------------------------
// The text map format.
//
// A map is written one row per line, its tiles separated by whitespace:
// `.` normal, `#` wall, `o` cover, `A`/`B` spawns of teams A and B, and the
// control nodes `N` (North Relay), `C` (Core Terminal) and `S` (South Relay).
// Blank lines and surrounding whitespace are ignored.
// ---------------------------------------------------------------------------

/// The width every map has.
pub const MAP_WIDTH: usize = 15;

/// The height every map has.
pub const MAP_HEIGHT: usize = 9;

/// The number of control nodes every map has.
pub const CONTROL_NODE_COUNT: usize = 3;

/// The control-node letters of the text format.
pub open spec fn is_node_letter(c: char) -> bool {
    c == 'N' || c == 'C' || c == 'S'
}

/// The tile letters of the text format.
pub open spec fn is_map_letter(c: char) -> bool {
    c == '.' || c == '#' || c == 'o' || c == 'A' || c == 'B' || is_node_letter(c)
}

/// The tile letter a token stands for, or `None` when the token is not a tile.
pub open spec fn classify_token(tok: Seq<char>) -> Option<char> {
    if tok.len() == 1 && is_map_letter(tok[0]) {
        Some(tok[0])
    } else {
        None
    }
}

/// The state of reading a text map: the finished rows, the row being read and the
/// token being read. Tokens are kept as the tile letter they stand for.
pub struct MapLex {
    pub rows: Seq<Seq<Option<char>>>,
    pub row: Seq<Option<char>>,
    pub tok: Seq<char>,
}

/// Ends the token being read, if any.
pub open spec fn end_token(l: MapLex) -> MapLex {
    if l.tok.len() > 0 {
        MapLex { row: l.row.push(classify_token(l.tok)), tok: Seq::empty(), ..l }
    } else {
        l
    }
}

/// Ends the line being read; a line without tokens is dropped.
pub open spec fn end_line(l: MapLex) -> MapLex {
    let t = end_token(l);
    if t.row.len() > 0 {
        MapLex { rows: t.rows.push(t.row), row: Seq::empty(), ..t }
    } else {
        t
    }
}

/// Reads one character.
pub open spec fn lex_step(l: MapLex, c: char) -> MapLex {
    if c == '\n' {
        end_line(l)
    } else if is_white_space(c) {
        end_token(l)
    } else {
        MapLex { tok: l.tok.push(c), ..l }
    }
}

/// The state after reading `s`.
pub open spec fn lex_prefix(s: Seq<char>) -> MapLex
    decreases s.len(),
{
    if s.len() == 0 {
        MapLex { rows: Seq::empty(), row: Seq::empty(), tok: Seq::empty() }
    } else {
        lex_step(lex_prefix(s.drop_last()), s.last())
    }
}

/// The rows of a text map: for each non-blank line, the tile letter of each of its
/// whitespace-separated tokens (`None` for a token that is no tile).
pub open spec fn map_cells(s: Seq<char>) -> Seq<Seq<Option<char>>> {
    end_line(lex_prefix(s)).rows
}

/// Matches a token that is no tile.
pub open spec fn is_bad_cell() -> spec_fn(Option<char>) -> bool {
    |c: Option<char>| c is None
}

/// What is wrong with row `y`, if anything.
pub open spec fn row_error(cells: Seq<Seq<Option<char>>>, y: int) -> Option<MapValidationError> {
    let row = cells[y];
    let x = first_index(row, is_bad_cell());
    if row.len() != cells[0].len() {
        Some(MapValidationError::InconsistentRowWidth { row: y as usize, expected: cells[0].len() as usize, actual: row.len() as usize })
    } else if x >= 0 {
        Some(MapValidationError::InvalidTile { x: x as usize, y: y as usize })
    } else {
        None
    }
}

/// What is wrong with the first faulty row from `y` on, if anything.
pub open spec fn first_row_error(cells: Seq<Seq<Option<char>>>, y: int) -> Option<MapValidationError>
    decreases cells.len() - y,
{
    if y < 0 || y >= cells.len() {
        None
    } else {
        match row_error(cells, y) {
            Some(e) => Some(e),
            None => first_row_error(cells, y + 1),
        }
    }
}

/// The control nodes among the first `n` tiles of row `y`: letter, column, row.
pub open spec fn row_node_entries(row: Seq<Option<char>>, y: int, n: int) -> Seq<(char, int, int)>
    decreases n,
{
    if n <= 0 {
        Seq::empty()
    } else {
        let prev = row_node_entries(row, y, n - 1);
        if row[n - 1] is Some && is_node_letter(row[n - 1]->0) {
            prev.push((row[n - 1]->0, n - 1, y))
        } else {
            prev
        }
    }
}

/// The control nodes of the first `m` rows, in reading order.
pub open spec fn node_entries(cells: Seq<Seq<Option<char>>>, m: int) -> Seq<(char, int, int)>
    decreases m,
{
    if m <= 0 {
        Seq::empty()
    } else {
        node_entries(cells, m - 1) + row_node_entries(cells[m - 1], m - 1, cells[m - 1].len() as int)
    }
}

/// Whether some entry is the node with letter `c`.
pub open spec fn has_entry(es: Seq<(char, int, int)>, c: char) -> bool {
    exists|i: int| 0 <= i < es.len() && (#[trigger] es[i]).0 == c
}

/// Whether some tile has letter `c`.
pub open spec fn has_cell(cells: Seq<Seq<Option<char>>>, c: char) -> bool {
    exists|y: int, x: int| 0 <= y < cells.len() && 0 <= x < cells[y].len() && #[trigger] cells[y][x] == Some(c)
}

/// What is wrong with a text map, in the order the parser checks it, or `None`.
pub open spec fn map_text_error(cells: Seq<Seq<Option<char>>>) -> Option<MapValidationError> {
    let es = node_entries(cells, cells.len() as int);
    if cells.len() == 0 {
        Some(MapValidationError::EmptyInput)
    } else if first_row_error(cells, 0) is Some {
        first_row_error(cells, 0)
    } else if cells.len() != MAP_HEIGHT {
        Some(MapValidationError::WrongHeight { actual: cells.len() as usize, expected: MAP_HEIGHT })
    } else if cells[0].len() != MAP_WIDTH {
        Some(MapValidationError::WrongWidth { actual: cells[0].len() as usize, expected: MAP_WIDTH })
    } else if es.len() != CONTROL_NODE_COUNT {
        Some(MapValidationError::WrongControlNodeCount { actual: es.len() as usize, expected: CONTROL_NODE_COUNT })
    } else if !(has_entry(es, 'N') && has_entry(es, 'C') && has_entry(es, 'S')) {
        Some(MapValidationError::MissingControlNode)
    } else if !has_cell(cells, 'A') {
        Some(MapValidationError::MissingSpawn { side: TeamSide::A })
    } else if !has_cell(cells, 'B') {
        Some(MapValidationError::MissingSpawn { side: TeamSide::B })
    } else {
        None
    }
}

/// The identifier of the control node with letter `c`.
pub open spec fn spec_node_id(c: char) -> Seq<char> {
    if c == 'N' {
        "north-relay"@
    } else if c == 'C' {
        "core-terminal"@
    } else {
        "south-relay"@
    }
}

/// The display name of the control node with letter `c`.
pub open spec fn spec_node_name(c: char) -> Seq<char> {
    if c == 'N' {
        "North Relay"@
    } else if c == 'C' {
        "Core Terminal"@
    } else {
        "South Relay"@
    }
}

/// The points the control node with letter `c` is worth.
pub open spec fn spec_node_score(c: char) -> i32 {
    if c == 'C' {
        2
    } else {
        1
    }
}

/// Whether `t` is the tile letter `c` stands for.
pub open spec fn tile_for_letter(t: Tile, c: char) -> bool {
    match t {
        Tile::Normal => c == '.',
        Tile::Wall => c == '#',
        Tile::Cover => c == 'o',
        Tile::Spawn { team_side } => (c == 'A' && team_side == TeamSide::A) || (c == 'B' && team_side == TeamSide::B),
        Tile::Node { node_id } => is_node_letter(c) && node_id@ == spec_node_id(c),
    }
}

/// Whether `n` is the control node of entry `e`.
pub open spec fn node_for_entry(n: ControlNode, e: (char, int, int)) -> bool {
    &&& n.id@ == spec_node_id(e.0)
    &&& n.name@ == spec_node_name(e.0)
    &&& n.position.x == e.1
    &&& n.position.y == e.2
    &&& n.score_value == spec_node_score(e.0)
    &&& n.controlled_by is None
}

/// Whether the tiles are those the letter rows stand for.
pub open spec fn tiles_for_cells(tiles: Seq<Seq<Tile>>, cells: Seq<Seq<Option<char>>>) -> bool {
    &&& tiles.len() == cells.len()
    &&& forall|y: int| 0 <= y < cells.len() ==> (#[trigger] tiles[y]).len() == cells[y].len()
    &&& forall|y: int, x: int| 0 <= y < cells.len() && 0 <= x < cells[y].len() ==> (#[trigger] cells[y][x]) is Some
    &&& forall|y: int, x: int|
        0 <= y < cells.len() && 0 <= x < cells[y].len() ==> tile_for_letter(#[trigger] tiles[y][x], cells[y][x]->0)
}

/// Whether `nodes` are the control nodes of the entries.
pub open spec fn nodes_for_entries(nodes: Seq<ControlNode>, es: Seq<(char, int, int)>) -> bool {
    &&& nodes.len() == es.len()
    &&& forall|i: int| 0 <= i < es.len() ==> node_for_entry(#[trigger] nodes[i], es[i])
}

/// Whether `m` is the map with identifier `id` that the letter rows describe.
pub open spec fn map_for_cells(m: GameMapView, id: MapId, cells: Seq<Seq<Option<char>>>) -> bool {
    &&& m.id == id
    &&& m.width == cells[0].len()
    &&& m.height == cells.len()
    &&& tiles_for_cells(m.tiles, cells)
    &&& nodes_for_entries(m.nodes, node_entries(cells, cells.len() as int))
}

/// Every tile letter of the rows is a letter of the format.
pub open spec fn letters_ok(rows: Seq<Seq<Option<char>>>) -> bool {
    forall|y: int, x: int|
        0 <= y < rows.len() && 0 <= x < rows[y].len() && (#[trigger] rows[y][x]) is Some ==> is_map_letter(rows[y][x]->0)
}

/// Every tile letter of the row is a letter of the format.
pub open spec fn row_letters_ok(row: Seq<Option<char>>) -> bool {
    forall|x: int| 0 <= x < row.len() && (#[trigger] row[x]) is Some ==> is_map_letter(row[x]->0)
}

/// The rows of a vector of rows, as sequences.
pub open spec fn cells_view(cells: Vec<Vec<Option<char>>>) -> Seq<Seq<Option<char>>> {
    cells@.map_values(|r: Vec<Option<char>>| r@)
}

fn is_map_letter_char(c: char) -> (r: bool)
    ensures
        r == is_map_letter(c),
{
    c == '.' || c == '#' || c == 'o' || c == 'A' || c == 'B' || c == 'N' || c == 'C' || c == 'S'
}

/// The token being read is ended: its tile letter joins the row.
fn end_token_exec(row: &mut Vec<Option<char>>, tok_len: &mut usize, tok_first: char, Ghost(l): Ghost<MapLex>)
    requires
        old(row)@ == l.row,
        *old(tok_len) == l.tok.len(),
        *old(tok_len) > 0 ==> tok_first == l.tok[0],
        row_letters_ok(old(row)@),
    ensures
        final(row)@ == end_token(l).row,
        *final(tok_len) == end_token(l).tok.len(),
        row_letters_ok(final(row)@),
{
    if *tok_len > 0 {
        let cell = if *tok_len == 1 && is_map_letter_char(tok_first) {
            Some(tok_first)
        } else {
            None
        };
        row.push(cell);
        *tok_len = 0;
    }
}

/// The line being read is ended: a row with tokens joins the rows.
fn end_line_exec(
    rows: &mut Vec<Vec<Option<char>>>,
    row: &mut Vec<Option<char>>,
    tok_len: &mut usize,
    tok_first: char,
    Ghost(l): Ghost<MapLex>,
)
    requires
        cells_view(*old(rows)) == l.rows,
        old(row)@ == l.row,
        *old(tok_len) == l.tok.len(),
        *old(tok_len) > 0 ==> tok_first == l.tok[0],
        row_letters_ok(old(row)@),
        letters_ok(cells_view(*old(rows))),
    ensures
        cells_view(*final(rows)) == end_line(l).rows,
        final(row)@ == end_line(l).row,
        *final(tok_len) == end_line(l).tok.len(),
        row_letters_ok(final(row)@),
        letters_ok(cells_view(*final(rows))),
{
    end_token_exec(row, tok_len, tok_first, Ghost(l));
    if row.len() > 0 {
        let ghost before = cells_view(*rows);
        let ghost fin = row@;
        let mut finished: Vec<Option<char>> = Vec::new();
        std::mem::swap(&mut finished, row);
        rows.push(finished);
        assert(cells_view(*rows) =~= before.push(fin));
        assert(row@ =~= Seq::<Option<char>>::empty());
    }
}

/// Splits a text map into rows of tile letters.
fn lex_map_text(v: &Vec<char>) -> (cells: Vec<Vec<Option<char>>>)
    ensures
        cells_view(cells) == map_cells(v@),
        letters_ok(cells_view(cells)),
{
    let mut rows: Vec<Vec<Option<char>>> = Vec::new();
    let mut row: Vec<Option<char>> = Vec::new();
    let mut tok_len: usize = 0;
    let mut tok_first: char = ' ';
    let mut i: usize = 0;
    assert(cells_view(rows) =~= Seq::empty());
    while i < v.len()
        invariant
            i <= v.len(),
            cells_view(rows) == lex_prefix(v@.take(i as int)).rows,
            row@ == lex_prefix(v@.take(i as int)).row,
            tok_len == lex_prefix(v@.take(i as int)).tok.len(),
            tok_len > 0 ==> tok_first == lex_prefix(v@.take(i as int)).tok[0],
            tok_len <= i,
            row_letters_ok(row@),
            letters_ok(cells_view(rows)),
        decreases v.len() - i,
    {
        let ghost l = lex_prefix(v@.take(i as int));
        let c = v[i];
        assert(v@.take(i + 1).drop_last() =~= v@.take(i as int));
        assert(v@.take(i + 1).last() == v@[i as int]);
        if c == '\n' {
            end_line_exec(&mut rows, &mut row, &mut tok_len, tok_first, Ghost(l));
        } else if is_white_space_char(c) {
            end_token_exec(&mut row, &mut tok_len, tok_first, Ghost(l));
        } else {
            if tok_len == 0 {
                tok_first = c;
            }
            tok_len = tok_len + 1;
        }
        i = i + 1;
    }
    assert(v@.take(v@.len() as int) =~= v@);
    end_line_exec(&mut rows, &mut row, &mut tok_len, tok_first, Ghost(lex_prefix(v@)));
    rows
}


/// The control-node entries, with their coordinates as integers.
pub open spec fn entries_view(es: Seq<(char, usize, usize)>) -> Seq<(char, int, int)> {
    es.map_values(|e: (char, usize, usize)| (e.0, e.1 as int, e.2 as int))
}

/// Whether a tile with letter `c` comes before column `x` of row `y` in reading order.
pub open spec fn cell_before(cells: Seq<Seq<Option<char>>>, c: char, y: int, x: int) -> bool {
    exists|yy: int, xx: int|
        0 <= yy < cells.len() && 0 <= xx < cells[yy].len() && (yy < y || (yy == y && xx < x))
            && #[trigger] cells[yy][xx] == Some(c)
}

/// What parsing a text map gives for `input`: the map and its nodes, or why the map
/// is refused.
pub open spec fn parse_map_result(
    id: MapId,
    input: Seq<char>,
    r: Result<(GameMap, Vec<ControlNode>), DomainError>,
) -> bool {
    let cells = map_cells(input);
    match r {
        Ok((map, nodes)) => {
            &&& map_text_error(cells) is None
            &&& map_for_cells(map@, id, cells)
            &&& map@.nodes == nodes@
        },
        Err(e) => map_text_error(cells) is Some && e == DomainError::InvalidMap(map_text_error(cells)->0),
    }
}

fn node_id_text(c: char) -> (r: &'static str)
    ensures
        r@ == spec_node_id(c),
{
    if c == 'N' {
        "north-relay"
    } else if c == 'C' {
        "core-terminal"
    } else {
        "south-relay"
    }
}

fn node_name_text(c: char) -> (r: &'static str)
    ensures
        r@ == spec_node_name(c),
{
    if c == 'N' {
        "North Relay"
    } else if c == 'C' {
        "Core Terminal"
    } else {
        "South Relay"
    }
}

fn node_score(c: char) -> (r: i32)
    ensures
        r == spec_node_score(c),
{
    if c == 'C' {
        2
    } else {
        1
    }
}

fn tile_of_letter(c: char) -> (t: Tile)
    requires
        is_map_letter(c),
    ensures
        tile_for_letter(t, c),
{
    if c == '.' {
        Tile::Normal
    } else if c == '#' {
        Tile::Wall
    } else if c == 'o' {
        Tile::Cover
    } else if c == 'A' {
        Tile::Spawn { team_side: TeamSide::A }
    } else if c == 'B' {
        Tile::Spawn { team_side: TeamSide::B }
    } else {
        Tile::Node { node_id: NodeId::new(node_id_text(c)) }
    }
}

fn entries_have(es: &Vec<(char, usize, usize)>, c: char) -> (r: bool)
    ensures
        r == has_entry(entries_view(es@), c),
{
    let ghost ev = entries_view(es@);
    let mut i: usize = 0;
    while i < es.len()
        invariant
            i <= es@.len(),
            ev == entries_view(es@),
            forall|k: int| 0 <= k < i ==> (#[trigger] ev[k]).0 != c,
        decreases es@.len() - i,
    {
        assert(ev[i as int].0 == es@[i as int].0);
        if es[i].0 == c {
            return true;
        }
        i = i + 1;
    }
    false
}

/// Checks rows of tile letters and builds the map they describe.
fn parse_cells(id: MapId, cells: &Vec<Vec<Option<char>>>) -> (r: Result<(GameMap, Vec<ControlNode>), DomainError>)
    requires
        letters_ok(cells_view(*cells)),
    ensures
        match r {
            Ok((map, nodes)) => {
                &&& map_text_error(cells_view(*cells)) is None
                &&& map_for_cells(map@, id, cells_view(*cells))
                &&& map@.nodes == nodes@
            },
            Err(e) => map_text_error(cells_view(*cells)) is Some && e == DomainError::InvalidMap(
                map_text_error(cells_view(*cells))->0,
            ),
        },
{
    let ghost cv = cells_view(*cells);
    if cells.len() == 0 {
        return Err(DomainError::InvalidMap(MapValidationError::EmptyInput));
    }
    let width = cells[0].len();
    assert(cv[0] == cells@[0]@);
    let mut tiles: Vec<Vec<Tile>> = Vec::new();
    let mut entries: Vec<(char, usize, usize)> = Vec::new();
    let mut spawn_a = false;
    let mut spawn_b = false;
    let mut y: usize = 0;
    assert(entries_view(entries@) =~= node_entries(cv, 0));
    while y < cells.len()
        invariant
            cv == cells_view(*cells),
            letters_ok(cv),
            cv.len() > 0,
            width == cv[0].len(),
            y <= cv.len(),
            first_row_error(cv, 0) == first_row_error(cv, y as int),
            forall|yy: int| 0 <= yy < y ==> (#[trigger] cv[yy]).len() == width,
            tiles@.len() == y,
            forall|yy: int| 0 <= yy < y ==> (#[trigger] tiles@[yy])@.len() == cv[yy].len(),
            forall|yy: int, x: int| 0 <= yy < y && 0 <= x < cv[yy].len() ==> (#[trigger] cv[yy][x]) is Some,
            forall|yy: int, x: int|
                0 <= yy < y && 0 <= x < cv[yy].len() ==> tile_for_letter(#[trigger] tiles@[yy]@[x], cv[yy][x]->0),
            entries_view(entries@) == node_entries(cv, y as int),
            forall|i: int|
                0 <= i < entries@.len() ==> (#[trigger] entries@[i]).1 < width && entries@[i].2 < y && is_node_letter(entries@[i].0),
            spawn_a == cell_before(cv, 'A', y as int, 0),
            spawn_b == cell_before(cv, 'B', y as int, 0),
        decreases cv.len() - y,
    {
        let row = &cells[y];
        assert(row@ == cv[y as int]);
        if row.len() != width {
            assert(first_row_error(cv, y as int) == row_error(cv, y as int));
            return Err(DomainError::InvalidMap(
                MapValidationError::InconsistentRowWidth { row: y, expected: width, actual: row.len() },
            ));
        }
        let mut row_tiles: Vec<Tile> = Vec::new();
        let mut x: usize = 0;
        while x < row.len()
            invariant
                cv == cells_view(*cells),
                letters_ok(cv),
                cv.len() > 0,
                width == cv[0].len(),
                first_row_error(cv, 0) == first_row_error(cv, y as int),
                y < cv.len(),
                row@ == cv[y as int],
                row@.len() == width,
                x <= width,
                forall|xx: int| 0 <= xx < x ==> !is_bad_cell()(#[trigger] cv[y as int][xx]),
                row_tiles@.len() == x,
                forall|xx: int| 0 <= xx < x ==> tile_for_letter(#[trigger] row_tiles@[xx], cv[y as int][xx]->0),
                entries_view(entries@) == node_entries(cv, y as int) + row_node_entries(cv[y as int], y as int, x as int),
                forall|i: int|
                    0 <= i < entries@.len() ==> (#[trigger] entries@[i]).1 < width && entries@[i].2 <= y && is_node_letter(entries@[i].0),
                spawn_a == cell_before(cv, 'A', y as int, x as int),
                spawn_b == cell_before(cv, 'B', y as int, x as int),
            decreases width - x,
        {
            match row[x] {
                None => {
                    proof {
                        lemma_first_index_is(cv[y as int], is_bad_cell(), x as int);
                        assert(first_row_error(cv, y as int) == row_error(cv, y as int));
                    }
                    return Err(DomainError::InvalidMap(MapValidationError::InvalidTile { x, y }));
                },
                Some(c) => {
                    assert(cv[y as int][x as int] == Some(c));
                    let ghost before = entries_view(entries@);
                    row_tiles.push(tile_of_letter(c));
                    if c == 'N' || c == 'C' || c == 'S' {
                        entries.push((c, x, y));
                        assert(entries_view(entries@) =~= before.push((c, x as int, y as int)));
                    }
                    if c == 'A' {
                        spawn_a = true;
                        assert(cv[y as int][x as int] == Some('A'));
                    }
                    if c == 'B' {
                        spawn_b = true;
                        assert(cv[y as int][x as int] == Some('B'));
                    }
                    assert(node_entries(cv, y as int) + row_node_entries(cv[y as int], y as int, x + 1)
                        =~= entries_view(entries@));
                },
            }
            x = x + 1;
        }
        proof {
            lemma_first_index_none(cv[y as int], is_bad_cell());
            assert(row_error(cv, y as int) is None);
            assert(node_entries(cv, y + 1) == node_entries(cv, y as int) + row_node_entries(cv[y as int], y as int, cv[y as int].len() as int));
        }
        let ghost tiles_before = tiles@;
        let ghost rt = row_tiles@;
        tiles.push(row_tiles);
        proof {
            assert forall|yy: int, x: int| 0 <= yy < y + 1 && 0 <= x < cv[yy].len() implies (#[trigger] cv[yy][x]) is Some by {
                if yy == y {
                    assert(!is_bad_cell()(cv[y as int][x]));
                }
            }
            assert forall|yy: int, x: int|
                0 <= yy < y + 1 && 0 <= x < cv[yy].len() implies tile_for_letter(#[trigger] tiles@[yy]@[x], cv[yy][x]->0) by {
                if yy < y {
                    assert(tiles@[yy] == tiles_before[yy]);
                    assert(tile_for_letter(tiles_before[yy]@[x], cv[yy][x]->0));
                } else {
                    assert(tiles@[yy]@ == rt);
                    assert(!is_bad_cell()(cv[y as int][x]));
                    assert(tile_for_letter(rt[x], cv[y as int][x]->0));
                }
            }
        }
        y = y + 1;
    }
    assert(first_row_error(cv, cv.len() as int) is None);
    if cells.len() != MAP_HEIGHT {
        return Err(DomainError::InvalidMap(MapValidationError::WrongHeight { actual: cells.len(), expected: MAP_HEIGHT }));
    }
    if width != MAP_WIDTH {
        return Err(DomainError::InvalidMap(MapValidationError::WrongWidth { actual: width, expected: MAP_WIDTH }));
    }
    if entries.len() != CONTROL_NODE_COUNT {
        return Err(DomainError::InvalidMap(
            MapValidationError::WrongControlNodeCount { actual: entries.len(), expected: CONTROL_NODE_COUNT },
        ));
    }
    if !(entries_have(&entries, 'N') && entries_have(&entries, 'C') && entries_have(&entries, 'S')) {
        return Err(DomainError::InvalidMap(MapValidationError::MissingControlNode));
    }
    if !spawn_a {
        return Err(DomainError::InvalidMap(MapValidationError::MissingSpawn { side: TeamSide::A }));
    }
    if !spawn_b {
        return Err(DomainError::InvalidMap(MapValidationError::MissingSpawn { side: TeamSide::B }));
    }
    let ghost ev = entries_view(entries@);
    let mut nodes: Vec<ControlNode> = Vec::new();
    let mut i: usize = 0;
    while i < entries.len()
        invariant
            ev == entries_view(entries@),
            i <= entries@.len(),
            width == MAP_WIDTH,
            cv.len() == MAP_HEIGHT,
            forall|k: int|
                0 <= k < entries@.len() ==> (#[trigger] entries@[k]).1 < width && entries@[k].2 < cv.len() && is_node_letter(entries@[k].0),
            nodes@.len() == i,
            forall|k: int| 0 <= k < i ==> node_for_entry(#[trigger] nodes@[k], ev[k]),
        decreases entries@.len() - i,
    {
        let (c, x, yy) = entries[i];
        let node = ControlNode::new(
            NodeId::new(node_id_text(c)),
            String::from_str(node_name_text(c)),
            Position::new(x as i32, yy as i32),
            node_score(c),
        );
        nodes.push(node);
        i = i + 1;
    }
    let copies = nodes.clone();
    assert(copies@ =~= nodes@);
    let map = GameMap { id, width: width as u32, height: cells.len() as u32, tiles, nodes: copies };
    proof {
        assert(has_cell(cv, 'A') == cell_before(cv, 'A', cv.len() as int, 0));
        assert(has_cell(cv, 'B') == cell_before(cv, 'B', cv.len() as int, 0));
        assert(map_text_error(cv) is None);
        assert(map@.width == cv[0].len());
        assert forall|yy: int| 0 <= yy < cv.len() implies (#[trigger] map@.tiles[yy]) == map.tiles@[yy]@ by {}
        assert forall|yy: int, x: int|
            0 <= yy < cv.len() && 0 <= x < cv[yy].len() implies tile_for_letter(#[trigger] map@.tiles[yy][x], cv[yy][x]->0) by {
            assert(map@.tiles[yy] == map.tiles@[yy]@);
            assert(tile_for_letter(map.tiles@[yy]@[x], cv[yy][x]->0));
        }
        assert(tiles_for_cells(map@.tiles, cv));
        assert(nodes_for_entries(map@.nodes, node_entries(cv, cv.len() as int)));
    }
    Ok((map, nodes))
}

/// Parses a text map: one row per line, tiles separated by whitespace.
///
/// `.` is a normal tile, `#` a wall, `o` cover, `A` and `B` the spawns of teams A
/// and B, and `N`, `C`, `S` the North Relay, Core Terminal and South Relay.
///
/// # Errors
///
/// Returns `DomainError::InvalidMap` when the text is empty, a row has another width
/// than the first, a token is no tile, the map is not 15 by 9, it does not hold exactly
/// the three control nodes, or a team has no spawn.
pub fn parse_map(id: MapId, input: &str) -> (r: Result<(GameMap, Vec<ControlNode>), DomainError>)
    ensures
        parse_map_result(id, input@, r),
{
    let chars = chars_of(input);
    let cells = lex_map_text(&chars);
    parse_cells(id, &cells)
}


// ---------------------------------------------------------------------------
// Maps from a grid of terrain letters and a list of control nodes.
// ---------------------------------------------------------------------------

/// The terrain letters of a grid row: `.`, `#`, `o`, `A` and `B`.
pub open spec fn is_terrain_letter(c: char) -> bool {
    c == '.' || c == '#' || c == 'o' || c == 'A' || c == 'B'
}

/// Matches a letter that is no terrain.
pub open spec fn not_terrain() -> spec_fn(char) -> bool {
    |c: char| !is_terrain_letter(c)
}

/// What is wrong with grid row `y`, if anything.
pub open spec fn grid_row_error(rows: Seq<Seq<char>>, y: int) -> Option<MapValidationError> {
    let x = first_index(rows[y], not_terrain());
    if rows[y].len() != MAP_WIDTH {
        Some(MapValidationError::WrongWidth { actual: rows[y].len() as usize, expected: MAP_WIDTH })
    } else if x >= 0 {
        Some(MapValidationError::InvalidTile { x: x as usize, y: y as usize })
    } else {
        None
    }
}

/// What is wrong with the first faulty grid row from `y` on, if anything.
pub open spec fn first_grid_row_error(rows: Seq<Seq<char>>, y: int) -> Option<MapValidationError>
    decreases rows.len() - y,
{
    if y < 0 || y >= rows.len() {
        None
    } else {
        match grid_row_error(rows, y) {
            Some(e) => Some(e),
            None => first_grid_row_error(rows, y + 1),
        }
    }
}

/// Whether node `i` stands on a normal tile of the grid that no earlier node takes.
pub open spec fn node_placeable(rows: Seq<Seq<char>>, nodes: Seq<ControlNode>, i: int) -> bool {
    let p = nodes[i].position;
    &&& 0 <= p.x < MAP_WIDTH
    &&& 0 <= p.y < MAP_HEIGHT
    &&& rows[p.y as int][p.x as int] == '.'
    &&& forall|j: int| 0 <= j < i ==> (#[trigger] nodes[j]).position != p
}

/// The error of the first node from `i` on that cannot be placed, if any.
pub open spec fn first_node_error(rows: Seq<Seq<char>>, nodes: Seq<ControlNode>, i: int) -> Option<MapValidationError>
    decreases nodes.len() - i,
{
    if i < 0 || i >= nodes.len() {
        None
    } else if !node_placeable(rows, nodes, i) {
        Some(MapValidationError::InvalidControlNodePosition { node_id: nodes[i].id })
    } else {
        first_node_error(rows, nodes, i + 1)
    }
}

/// Whether some grid letter is `c`.
pub open spec fn grid_has(rows: Seq<Seq<char>>, c: char) -> bool {
    exists|y: int, x: int| 0 <= y < rows.len() && 0 <= x < rows[y].len() && #[trigger] rows[y][x] == c
}

/// What is wrong with a grid and its nodes, in the order the parser checks it, or `None`.
pub open spec fn grid_error(rows: Seq<Seq<char>>, nodes: Seq<ControlNode>) -> Option<MapValidationError> {
    if rows.len() != MAP_HEIGHT {
        Some(MapValidationError::WrongHeight { actual: rows.len() as usize, expected: MAP_HEIGHT })
    } else if first_grid_row_error(rows, 0) is Some {
        first_grid_row_error(rows, 0)
    } else if nodes.len() != CONTROL_NODE_COUNT {
        Some(MapValidationError::WrongControlNodeCount { actual: nodes.len() as usize, expected: CONTROL_NODE_COUNT })
    } else if first_node_error(rows, nodes, 0) is Some {
        first_node_error(rows, nodes, 0)
    } else if !grid_has(rows, 'A') {
        Some(MapValidationError::MissingSpawn { side: TeamSide::A })
    } else if !grid_has(rows, 'B') {
        Some(MapValidationError::MissingSpawn { side: TeamSide::B })
    } else {
        None
    }
}

/// Whether `t` is the tile at column `x` of row `y`: the node standing there, or the terrain.
pub open spec fn grid_tile(t: Tile, rows: Seq<Seq<char>>, nodes: Seq<ControlNode>, x: int, y: int) -> bool {
    if exists|i: int| 0 <= i < nodes.len() && (#[trigger] nodes[i]).position == (Position { x: x as i32, y: y as i32 }) {
        let i = choose|i: int| 0 <= i < nodes.len() && (#[trigger] nodes[i]).position == (Position { x: x as i32, y: y as i32 });
        t == (Tile::Node { node_id: nodes[i].id })
    } else {
        tile_for_letter(t, rows[y][x])
    }
}

/// Whether `m` is the map with identifier `id` built from the grid and its nodes.
pub open spec fn map_for_grid(m: GameMapView, id: MapId, rows: Seq<Seq<char>>, nodes: Seq<ControlNode>) -> bool {
    &&& m.id == id
    &&& m.width == MAP_WIDTH
    &&& m.height == MAP_HEIGHT
    &&& m.tiles.len() == MAP_HEIGHT
    &&& forall|y: int| 0 <= y < MAP_HEIGHT ==> (#[trigger] m.tiles[y]).len() == MAP_WIDTH
    &&& forall|y: int, x: int| 0 <= y < MAP_HEIGHT && 0 <= x < MAP_WIDTH ==> grid_tile(#[trigger] m.tiles[y][x], rows, nodes, x, y)
    &&& m.nodes == nodes
}

/// The character sequences of the grid rows.
pub open spec fn rows_view(rows: Seq<&str>) -> Seq<Seq<char>> {
    rows.map_values(|r: &str| r@)
}

fn is_terrain_letter_char(c: char) -> (r: bool)
    ensures
        r == is_terrain_letter(c),
{
    c == '.' || c == '#' || c == 'o' || c == 'A' || c == 'B'
}

fn terrain_tile(c: char) -> (t: Tile)
    requires
        is_terrain_letter(c),
    ensures
        tile_for_letter(t, c),
{
    if c == '.' {
        Tile::Normal
    } else if c == '#' {
        Tile::Wall
    } else if c == 'o' {
        Tile::Cover
    } else if c == 'A' {
        Tile::Spawn { team_side: TeamSide::A }
    } else {
        Tile::Spawn { team_side: TeamSide::B }
    }
}

/// The first of the first `n` nodes at position (`x`, `y`).
fn node_at(nodes: &[ControlNode], n: usize, x: i32, y: i32) -> (r: Option<usize>)
    requires
        n <= nodes@.len(),
    ensures
        match r {
            Some(i) => i < n && nodes@[i as int].position == (Position { x, y }),
            None => forall|i: int| 0 <= i < n ==> (#[trigger] nodes@[i]).position != (Position { x, y }),
        },
{
    let mut i: usize = 0;
    while i < n
        invariant
            n <= nodes@.len(),
            i <= n,
            forall|k: int| 0 <= k < i ==> (#[trigger] nodes@[k]).position != (Position { x, y }),
        decreases n - i,
    {
        if nodes[i].position.x == x && nodes[i].position.y == y {
            return Some(i);
        }
        i = i + 1;
    }
    None
}

impl GameMap {
    /// Builds a map from its terrain rows (`.`, `#`, `o`, `A`, `B`, one letter per tile)
    /// and its control nodes, each of which replaces the normal tile it stands on.
    ///
    /// # Errors
    ///
    /// Returns `DomainError::InvalidMap` when the grid is not 15 by 9, holds another
    /// letter, the nodes are not three, a node is off the grid, not on a normal tile or on
    /// another node, or a team has no spawn.
    pub fn parse(id: MapId, rows: &[&str], nodes: &[ControlNode]) -> (r: Result<GameMap, DomainError>)
        ensures
            match r {
                Ok(m) => grid_error(rows_view(rows@), nodes@) is None && map_for_grid(m@, id, rows_view(rows@), nodes@),
                Err(e) => grid_error(rows_view(rows@), nodes@) is Some && e == DomainError::InvalidMap(
                    grid_error(rows_view(rows@), nodes@)->0,
                ),
            },
    {
        let ghost rv = rows_view(rows@);
        if rows.len() != MAP_HEIGHT {
            return Err(DomainError::InvalidMap(MapValidationError::WrongHeight { actual: rows.len(), expected: MAP_HEIGHT }));
        }
        let mut grid: Vec<Vec<char>> = Vec::new();
        let mut spawn_a = false;
        let mut spawn_b = false;
        let mut y: usize = 0;
        while y < rows.len()
            invariant
                rv == rows_view(rows@),
                rv.len() == MAP_HEIGHT,
                y <= MAP_HEIGHT,
                first_grid_row_error(rv, 0) == first_grid_row_error(rv, y as int),
                grid@.len() == y,
                forall|yy: int| 0 <= yy < y ==> (#[trigger] grid@[yy])@ == rv[yy],
                forall|yy: int| 0 <= yy < y ==> (#[trigger] rv[yy]).len() == MAP_WIDTH,
                forall|yy: int, x: int| 0 <= yy < y && 0 <= x < MAP_WIDTH ==> is_terrain_letter(#[trigger] rv[yy][x]),
                spawn_a == (exists|yy: int, x: int| 0 <= yy < y && 0 <= x < rv[yy].len() && #[trigger] rv[yy][x] == 'A'),
                spawn_b == (exists|yy: int, x: int| 0 <= yy < y && 0 <= x < rv[yy].len() && #[trigger] rv[yy][x] == 'B'),
            decreases MAP_HEIGHT - y,
        {
            let line = chars_of(rows[y]);
            assert(line@ == rv[y as int]);
            if line.len() != MAP_WIDTH {
                assert(first_grid_row_error(rv, y as int) == grid_row_error(rv, y as int));
                return Err(DomainError::InvalidMap(MapValidationError::WrongWidth { actual: line.len(), expected: MAP_WIDTH }));
            }
            let mut x: usize = 0;
            while x < line.len()
                invariant
                    rv == rows_view(rows@),
                    rv.len() == MAP_HEIGHT,
                    y < rv.len(),
                    line@ == rv[y as int],
                    line@.len() == MAP_WIDTH,
                    x <= MAP_WIDTH,
                    first_grid_row_error(rv, 0) == first_grid_row_error(rv, y as int),
                    forall|xx: int| 0 <= xx < x ==> !not_terrain()(#[trigger] line@[xx]),
                    spawn_a == (exists|yy: int, xx: int|
                        0 <= yy < rv.len() && 0 <= xx < rv[yy].len() && (yy < y || (yy == y && xx < x)) && #[trigger] rv[yy][xx] == 'A'),
                    spawn_b == (exists|yy: int, xx: int|
                        0 <= yy < rv.len() && 0 <= xx < rv[yy].len() && (yy < y || (yy == y && xx < x)) && #[trigger] rv[yy][xx] == 'B'),
                decreases MAP_WIDTH - x,
            {
                let c = line[x];
                if !is_terrain_letter_char(c) {
                    proof {
                        lemma_first_index_is(rv[y as int], not_terrain(), x as int);
                        assert(first_grid_row_error(rv, y as int) == grid_row_error(rv, y as int));
                    }
                    return Err(DomainError::InvalidMap(MapValidationError::InvalidTile { x, y }));
                }
                if c == 'A' {
                    spawn_a = true;
                    assert(rv[y as int][x as int] == 'A');
                }
                if c == 'B' {
                    spawn_b = true;
                    assert(rv[y as int][x as int] == 'B');
                }
                x = x + 1;
            }
            proof {
                lemma_first_index_none(rv[y as int], not_terrain());
                assert(grid_row_error(rv, y as int) is None);
                assert forall|xx: int| 0 <= xx < MAP_WIDTH implies is_terrain_letter(#[trigger] rv[y as int][xx]) by {
                    assert(!not_terrain()(line@[xx]));
                }
            }
            let ghost before = grid@;
            grid.push(line);
            proof {
                assert forall|yy: int| 0 <= yy < y + 1 implies (#[trigger] grid@[yy])@ == rv[yy] by {
                    if yy < y {
                        assert(grid@[yy] == before[yy]);
                    }
                }
            }
            y = y + 1;
        }
        assert(first_grid_row_error(rv, MAP_HEIGHT as int) is None);
        if nodes.len() != CONTROL_NODE_COUNT {
            return Err(DomainError::InvalidMap(
                MapValidationError::WrongControlNodeCount { actual: nodes.len(), expected: CONTROL_NODE_COUNT },
            ));
        }
        let mut i: usize = 0;
        while i < nodes.len()
            invariant
                rv == rows_view(rows@),
                rv.len() == MAP_HEIGHT,
                grid@.len() == MAP_HEIGHT,
                forall|yy: int| 0 <= yy < MAP_HEIGHT ==> (#[trigger] grid@[yy])@ == rv[yy],
                forall|yy: int| 0 <= yy < MAP_HEIGHT ==> (#[trigger] rv[yy]).len() == MAP_WIDTH,
                i <= nodes@.len(),
                nodes@.len() == CONTROL_NODE_COUNT,
                first_grid_row_error(rv, 0) is None,
                first_node_error(rv, nodes@, 0) == first_node_error(rv, nodes@, i as int),
                forall|k: int| 0 <= k < i ==> node_placeable(rv, nodes@, k),
            decreases nodes@.len() - i,
        {
            let p = nodes[i].position;
            let mut ok = 0 <= p.x && p.x < MAP_WIDTH as i32 && 0 <= p.y && p.y < MAP_HEIGHT as i32;
            if ok {
                assert(grid@[p.y as int]@ == rv[p.y as int]);
                ok = grid[p.y as usize][p.x as usize] == '.';
            }
            if ok {
                ok = match node_at(nodes, i, p.x, p.y) {
                    Some(_) => false,
                    None => true,
                };
            }
            assert(ok == node_placeable(rv, nodes@, i as int));
            if !ok {
                return Err(DomainError::InvalidMap(MapValidationError::InvalidControlNodePosition { node_id: nodes[i].id.clone() }));
            }
            i = i + 1;
        }
        assert(first_node_error(rv, nodes@, CONTROL_NODE_COUNT as int) is None);
        if !spawn_a {
            return Err(DomainError::InvalidMap(MapValidationError::MissingSpawn { side: TeamSide::A }));
        }
        if !spawn_b {
            return Err(DomainError::InvalidMap(MapValidationError::MissingSpawn { side: TeamSide::B }));
        }
        let mut tiles: Vec<Vec<Tile>> = Vec::new();
        let mut y: usize = 0;
        while y < MAP_HEIGHT
            invariant
                rv == rows_view(rows@),
                rv.len() == MAP_HEIGHT,
                grid@.len() == MAP_HEIGHT,
                forall|yy: int| 0 <= yy < MAP_HEIGHT ==> (#[trigger] grid@[yy])@ == rv[yy],
                forall|yy: int| 0 <= yy < MAP_HEIGHT ==> (#[trigger] rv[yy]).len() == MAP_WIDTH,
                forall|yy: int, x: int| 0 <= yy < MAP_HEIGHT && 0 <= x < MAP_WIDTH ==> is_terrain_letter(#[trigger] rv[yy][x]),
                y <= MAP_HEIGHT,
                tiles@.len() == y,
                forall|yy: int| 0 <= yy < y ==> (#[trigger] tiles@[yy])@.len() == MAP_WIDTH,
                forall|yy: int, x: int|
                    0 <= yy < y && 0 <= x < MAP_WIDTH ==> grid_tile(#[trigger] tiles@[yy]@[x], rv, nodes@, x, yy),
                nodes@.len() == CONTROL_NODE_COUNT,
                forall|k: int| 0 <= k < CONTROL_NODE_COUNT ==> node_placeable(rv, nodes@, k),
            decreases MAP_HEIGHT - y,
        {
            let mut row_tiles: Vec<Tile> = Vec::new();
            let mut x: usize = 0;
            assert(grid@[y as int]@ == rv[y as int]);
            while x < MAP_WIDTH
                invariant
                    rv == rows_view(rows@),
                    rv.len() == MAP_HEIGHT,
                    y < MAP_HEIGHT,
                    grid@.len() == MAP_HEIGHT,
                    grid@[y as int]@ == rv[y as int],
                    rv[y as int].len() == MAP_WIDTH,
                    forall|xx: int| 0 <= xx < MAP_WIDTH ==> is_terrain_letter(#[trigger] rv[y as int][xx]),
                    x <= MAP_WIDTH,
                    row_tiles@.len() == x,
                    forall|xx: int| 0 <= xx < x ==> grid_tile(#[trigger] row_tiles@[xx], rv, nodes@, xx, y as int),
                    nodes@.len() == CONTROL_NODE_COUNT,
                    forall|k: int| 0 <= k < CONTROL_NODE_COUNT ==> node_placeable(rv, nodes@, k),
                decreases MAP_WIDTH - x,
            {
                let ghost pos = Position { x: x as i32, y: y as i32 };
                let tile = match node_at(nodes, nodes.len(), x as i32, y as i32) {
                    Some(k) => {
                        proof {
                            let j = choose|i: int| 0 <= i < nodes@.len() && (#[trigger] nodes@[i]).position == pos;
                            if j != k {
                                if j < k {
                                    assert(node_placeable(rv, nodes@, k as int));
                                    assert(nodes@[j].position != nodes@[k as int].position);
                                } else {
                                    assert(node_placeable(rv, nodes@, j));
                                    assert(nodes@[k as int].position != nodes@[j].position);
                                }
                            }
                        }
                        Tile::Node { node_id: nodes[k].id.clone() }
                    },
                    None => terrain_tile(grid[y][x]),
                };
                let ghost before = row_tiles@;
                row_tiles.push(tile);
                proof {
                    assert forall|xx: int| 0 <= xx < x + 1 implies grid_tile(#[trigger] row_tiles@[xx], rv, nodes@, xx, y as int) by {
                        if xx < x {
                            assert(row_tiles@[xx] == before[xx]);
                        }
                    }
                }
                x = x + 1;
            }
            let ghost before = tiles@;
            let ghost rt = row_tiles@;
            tiles.push(row_tiles);
            proof {
                assert forall|yy: int, x: int|
                    0 <= yy < y + 1 && 0 <= x < MAP_WIDTH implies grid_tile(#[trigger] tiles@[yy]@[x], rv, nodes@, x, yy) by {
                    if yy < y {
                        assert(tiles@[yy] == before[yy]);
                        assert(grid_tile(before[yy]@[x], rv, nodes@, x, yy));
                    } else {
                        assert(tiles@[yy]@ == rt);
                    }
                }
                assert forall|yy: int| 0 <= yy < y + 1 implies (#[trigger] tiles@[yy])@.len() == MAP_WIDTH by {
                    if yy < y {
                        assert(tiles@[yy] == before[yy]);
                    }
                }
            }
            y = y + 1;
        }
        let mut copies: Vec<ControlNode> = Vec::new();
        let mut i: usize = 0;
        while i < nodes.len()
            invariant
                i <= nodes@.len(),
                copies@ == nodes@.take(i as int),
            decreases nodes@.len() - i,
        {
            copies.push(nodes[i].clone());
            assert(nodes@.take(i + 1) =~= nodes@.take(i as int).push(nodes@[i as int]));
            i = i + 1;
        }
        assert(nodes@.take(nodes@.len() as int) =~= nodes@);
        let m = GameMap { id, width: MAP_WIDTH as u32, height: MAP_HEIGHT as u32, tiles, nodes: copies };
        proof {
            assert(grid_has(rv, 'A'));
            assert(grid_has(rv, 'B'));
            assert forall|yy: int, x: int| 0 <= yy < MAP_HEIGHT && 0 <= x < MAP_WIDTH implies grid_tile(#[trigger] m@.tiles[yy][x], rv, nodes@, x, yy) by {
                assert(m@.tiles[yy] == m.tiles@[yy]@);
                assert(grid_tile(m.tiles@[yy]@[x], rv, nodes@, x, yy));
            }
            assert forall|yy: int| 0 <= yy < MAP_HEIGHT implies (#[trigger] m@.tiles[yy]).len() == MAP_WIDTH by {
                assert(m@.tiles[yy] == m.tiles@[yy]@);
            }
        }
        Ok(m)
    }
}


/// The text of the default map: symmetric, with the North Relay, the Core Terminal and
/// the South Relay on the middle column.
pub const DEFAULT_MAP_TEXT: &'static str = "
    .  .  .  #  .  .  o  N  o  .  .  #  .  .  .
    A  A  .  #  .  .  .  .  .  .  .  #  .  B  B
    A  A  .  .  .  #  o  .  o  #  .  .  .  B  B
    .  .  .  o  .  .  .  .  .  .  .  o  .  .  .
    .  A  .  .  .  o  .  C  .  o  .  .  .  B  .
    .  .  .  o  .  .  .  .  .  .  .  o  .  .  .
    A  A  .  .  .  #  o  .  o  #  .  .  .  B  B
    A  A  .  #  .  .  .  .  .  .  .  #  .  B  B
    .  .  .  #  .  .  o  S  o  .  .  #  .  .  .
";

impl GameMap {
    /// The default 15 by 9 map, parsed from `DEFAULT_MAP_TEXT`.
    ///
    /// # Errors
    ///
    /// Returns the parser's error should the default text not be a valid map.
    pub fn default_15x9() -> (r: Result<GameMap, DomainError>)
        ensures
            match r {
                Ok(m) => {
                    &&& m@.id@ == spec_default_map_id()
                    &&& map_text_error(map_cells(DEFAULT_MAP_TEXT@)) is None
                    &&& map_for_cells(m@, m@.id, map_cells(DEFAULT_MAP_TEXT@))
                },
                Err(e) => map_text_error(map_cells(DEFAULT_MAP_TEXT@)) is Some && e == DomainError::InvalidMap(
                    map_text_error(map_cells(DEFAULT_MAP_TEXT@))->0,
                ),
            },
    {
        match parse_map(MapId::new("default-15x9"), DEFAULT_MAP_TEXT) {
            Ok((map, _nodes)) => Ok(map),
            Err(e) => Err(e),
        }
    }
}

/// Two texts with the same rows of tiles (they differ only in blank lines and in
/// the spaces between and around tokens) parse alike: to the same error, or to maps
/// with the same size, tiles and control nodes.
pub proof fn law_parse_map_reads_only_the_rows(
    id: MapId,
    a: Seq<char>,
    b: Seq<char>,
    ra: Result<(GameMap, Vec<ControlNode>), DomainError>,
    rb: Result<(GameMap, Vec<ControlNode>), DomainError>,
)
    requires
        map_cells(a) == map_cells(b),
        parse_map_result(id, a, ra),
        parse_map_result(id, b, rb),
    ensures
        ra is Err <==> rb is Err,
        ra is Err ==> ra == rb,
        ra is Ok ==> map_for_cells(rb->Ok_0.0@, id, map_cells(a)) && map_for_cells(ra->Ok_0.0@, id, map_cells(a)),
        ra is Ok ==> ra->Ok_0.0@.width == rb->Ok_0.0@.width && ra->Ok_0.0@.height == rb->Ok_0.0@.height,
{
}

/// Every map that parsing a text accepts holds exactly three control nodes: the North
/// Relay, the Core Terminal and the South Relay, one of each.
pub proof fn law_parsed_map_has_the_three_nodes(
    id: MapId,
    input: Seq<char>,
    r: Result<(GameMap, Vec<ControlNode>), DomainError>,
)
    requires
        parse_map_result(id, input, r),
        r is Ok,
    ensures
        r->Ok_0.1@.len() == 3,
        r->Ok_0.0@.nodes.len() == 3,
        exists|i: int| 0 <= i < 3 && (#[trigger] r->Ok_0.1@[i]).id@ == "north-relay"@,
        exists|i: int| 0 <= i < 3 && (#[trigger] r->Ok_0.1@[i]).id@ == "core-terminal"@,
        exists|i: int| 0 <= i < 3 && (#[trigger] r->Ok_0.1@[i]).id@ == "south-relay"@,
{
    let cells = map_cells(input);
    let es = node_entries(cells, cells.len() as int);
    let nodes = r->Ok_0.1@;
    assert(has_entry(es, 'N'));
    assert(has_entry(es, 'C'));
    assert(has_entry(es, 'S'));
    let i = choose|i: int| 0 <= i < es.len() && (#[trigger] es[i]).0 == 'N';
    let j = choose|i: int| 0 <= i < es.len() && (#[trigger] es[i]).0 == 'C';
    let k = choose|i: int| 0 <= i < es.len() && (#[trigger] es[i]).0 == 'S';
    assert(node_for_entry(nodes[i], es[i]));
    assert(node_for_entry(nodes[j], es[j]));
    assert(node_for_entry(nodes[k], es[k]));
}

/// Every map built from a grid and a list of control nodes holds exactly three of them:
/// on a grid of the right height whose rows are all fine, a list of any other length is
/// refused for its count.
pub proof fn law_grid_map_has_three_nodes(
    id: MapId,
    rows: Seq<Seq<char>>,
    nodes: Seq<ControlNode>,
    r: Result<GameMap, DomainError>,
)
    requires
        match r {
            Ok(m) => grid_error(rows, nodes) is None && map_for_grid(m@, id, rows, nodes),
            Err(e) => grid_error(rows, nodes) is Some && e == DomainError::InvalidMap(grid_error(rows, nodes)->0),
        },
    ensures
        r is Ok ==> r->Ok_0@.nodes.len() == 3,
        nodes.len() != 3 && rows.len() == MAP_HEIGHT && first_grid_row_error(rows, 0) is None ==> r == Err::<GameMap, DomainError>(
            DomainError::InvalidMap(MapValidationError::WrongControlNodeCount { actual: nodes.len() as usize, expected: 3 }),
        ),
{
}

/// Rows from `y` on with no fault all have the first row's width.
proof fn lemma_rows_have_width(cells: Seq<Seq<Option<char>>>, y: int)
    requires
        0 <= y,
        first_row_error(cells, y) is None,
    ensures
        forall|k: int| y <= k < cells.len() ==> (#[trigger] cells[k]).len() == cells[0].len(),
    decreases cells.len() - y,
{
    if y < cells.len() {
        assert(row_error(cells, y) is None);
        lemma_rows_have_width(cells, y + 1);
    }
}

/// Each control-node entry of the first `n` tiles of row `y` is a node letter standing
/// at its column of that row.
proof fn lemma_row_entries_are_cells(row: Seq<Option<char>>, y: int, n: int)
    requires
        0 <= n <= row.len(),
    ensures
        forall|k: int| 0 <= k < row_node_entries(row, y, n).len() ==> {
            let e = #[trigger] row_node_entries(row, y, n)[k];
            &&& 0 <= e.1 < n && e.2 == y
            &&& row[e.1] == Some(e.0)
            &&& is_node_letter(e.0)
        },
    decreases n,
{
    if n > 0 {
        lemma_row_entries_are_cells(row, y, n - 1);
    }
}

/// Each control-node entry of the first `m` rows is a node letter standing at its
/// column and row.
proof fn lemma_entries_are_cells(cells: Seq<Seq<Option<char>>>, m: int)
    requires
        0 <= m <= cells.len(),
    ensures
        forall|k: int| 0 <= k < node_entries(cells, m).len() ==> {
            let e = #[trigger] node_entries(cells, m)[k];
            &&& 0 <= e.2 < m
            &&& 0 <= e.1 < cells[e.2].len()
            &&& cells[e.2][e.1] == Some(e.0)
            &&& is_node_letter(e.0)
        },
    decreases m,
{
    if m > 0 {
        let prev = node_entries(cells, m - 1);
        let row = row_node_entries(cells[m - 1], m - 1, cells[m - 1].len() as int);
        lemma_entries_are_cells(cells, m - 1);
        lemma_row_entries_are_cells(cells[m - 1], m - 1, cells[m - 1].len() as int);
        assert forall|k: int| 0 <= k < node_entries(cells, m).len() implies {
            let e = #[trigger] node_entries(cells, m)[k];
            &&& 0 <= e.2 < m
            &&& 0 <= e.1 < cells[e.2].len()
            &&& cells[e.2][e.1] == Some(e.0)
            &&& is_node_letter(e.0)
        } by {
            if k < prev.len() {
                assert(node_entries(cells, m)[k] == prev[k]);
            } else {
                assert(node_entries(cells, m)[k] == row[k - prev.len()]);
            }
        }
    }
}

/// Every map that parsing a text accepts is 15 tiles wide and 9 high, has a spawn tile
/// of each team, holds the tile each terrain letter of the text stands for (`.` normal,
/// `#` wall, `o` cover, `A` and `B` the teams' spawns), and each of its control nodes
/// stands on the grid where the text has its letter (`N`, `C` or `S`), on a node tile
/// that names it, uncontrolled and worth 2 points for the Core Terminal, 1 otherwise.
pub proof fn law_parsed_map_follows_the_text(
    id: MapId,
    input: Seq<char>,
    r: Result<(GameMap, Vec<ControlNode>), DomainError>,
)
    requires
        parse_map_result(id, input, r),
        r is Ok,
    ensures
        ({
            let cells = map_cells(input);
            let m = r->Ok_0.0@;
            let nodes = r->Ok_0.1@;
            &&& m.id == id
            &&& m.width == 15 && m.height == 9 && m.tiles.len() == 9 && cells.len() == 9
            &&& forall|y: int| 0 <= y < 9 ==> (#[trigger] m.tiles[y]).len() == 15 && cells[y].len() == 15
            &&& exists|y: int, x: int| 0 <= y < 9 && 0 <= x < 15 && #[trigger] m.tiles[y][x] == (Tile::Spawn { team_side: TeamSide::A })
            &&& exists|y: int, x: int| 0 <= y < 9 && 0 <= x < 15 && #[trigger] m.tiles[y][x] == (Tile::Spawn { team_side: TeamSide::B })
            &&& forall|y: int, x: int| 0 <= y < 9 && 0 <= x < 15 ==> {
                &&& cells[y][x] == Some('.') ==> #[trigger] m.tiles[y][x] == Tile::Normal
                &&& cells[y][x] == Some('#') ==> m.tiles[y][x] == Tile::Wall
                &&& cells[y][x] == Some('o') ==> m.tiles[y][x] == Tile::Cover
                &&& cells[y][x] == Some('A') ==> m.tiles[y][x] == (Tile::Spawn { team_side: TeamSide::A })
                &&& cells[y][x] == Some('B') ==> m.tiles[y][x] == (Tile::Spawn { team_side: TeamSide::B })
            }
            &&& forall|i: int| 0 <= i < nodes.len() ==> {
                let n = #[trigger] nodes[i];
                let x = n.position.x as int;
                let y = n.position.y as int;
                &&& 0 <= x < 15 && 0 <= y < 9
                &&& m.tiles[y][x] is Node && m.tiles[y][x]->node_id@ == n.id@
                &&& (cells[y][x] == Some('N') && n.id@ == "north-relay"@) || (cells[y][x] == Some('C') && n.id@
                    == "core-terminal"@) || (cells[y][x] == Some('S') && n.id@ == "south-relay"@)
                &&& n.score_value == (if cells[y][x] == Some('C') { 2i32 } else { 1i32 })
                &&& n.controlled_by is None
            }
        }),
{
    let cells = map_cells(input);
    let m = r->Ok_0.0@;
    let nodes = r->Ok_0.1@;
    let es = node_entries(cells, cells.len() as int);
    lemma_entries_are_cells(cells, cells.len() as int);
    lemma_rows_have_width(cells, 0);
    assert forall|y: int| 0 <= y < 9 implies (#[trigger] m.tiles[y]).len() == 15 && cells[y].len() == 15 by {
        lemma_rows_have_width(cells, 0);
    }
    assert(has_cell(cells, 'A'));
    let (ya, xa) = choose|y: int, x: int| 0 <= y < cells.len() && 0 <= x < cells[y].len() && #[trigger] cells[y][x] == Some('A');
    assert(tile_for_letter(m.tiles[ya][xa], cells[ya][xa]->0));
    assert(has_cell(cells, 'B'));
    let (yb, xb) = choose|y: int, x: int| 0 <= y < cells.len() && 0 <= x < cells[y].len() && #[trigger] cells[y][x] == Some('B');
    assert(tile_for_letter(m.tiles[yb][xb], cells[yb][xb]->0));
    assert forall|i: int| 0 <= i < nodes.len() implies {
        let n = #[trigger] nodes[i];
        let x = n.position.x as int;
        let y = n.position.y as int;
        &&& 0 <= x < 15 && 0 <= y < 9
        &&& m.tiles[y][x] is Node && m.tiles[y][x]->node_id@ == n.id@
        &&& (cells[y][x] == Some('N') && n.id@ == "north-relay"@) || (cells[y][x] == Some('C') && n.id@
            == "core-terminal"@) || (cells[y][x] == Some('S') && n.id@ == "south-relay"@)
        &&& n.score_value == (if cells[y][x] == Some('C') { 2i32 } else { 1i32 })
        &&& n.controlled_by is None
    } by {
        let e = es[i];
        assert(node_for_entry(nodes[i], e));
        assert(0 <= e.2 < cells.len() && 0 <= e.1 < cells[e.2].len());
        assert(cells[e.2][e.1] == Some(e.0));
        assert(tile_for_letter(m.tiles[e.2][e.1], cells[e.2][e.1]->0));
    }
}

/// Nodes from `i` on with no placement fault can each be placed.
proof fn lemma_nodes_placeable(rows: Seq<Seq<char>>, nodes: Seq<ControlNode>, i: int)
    requires
        0 <= i,
        first_node_error(rows, nodes, i) is None,
    ensures
        forall|k: int| i <= k < nodes.len() ==> #[trigger] node_placeable(rows, nodes, k),
    decreases nodes.len() - i,
{
    if i < nodes.len() {
        lemma_nodes_placeable(rows, nodes, i + 1);
    }
}

/// Every map built from a grid and its control nodes has each node on the grid, where
/// the grid has a normal tile, no two nodes in one place, and a node tile that names the
/// node at its place.
pub proof fn law_grid_map_places_nodes_on_normal_ground(
    id: MapId,
    rows: Seq<Seq<char>>,
    nodes: Seq<ControlNode>,
    m: GameMapView,
)
    requires
        grid_error(rows, nodes) is None,
        map_for_grid(m, id, rows, nodes),
    ensures
        forall|i: int| 0 <= i < nodes.len() ==> {
            let p = (#[trigger] nodes[i]).position;
            &&& 0 <= p.x < 15 && 0 <= p.y < 9
            &&& rows[p.y as int][p.x as int] == '.'
            &&& m.tiles[p.y as int][p.x as int] == (Tile::Node { node_id: nodes[i].id })
        },
        forall|i: int, j: int| 0 <= i < nodes.len() && 0 <= j < nodes.len() && i != j ==> (#[trigger] nodes[i]).position != (#[trigger] nodes[j]).position,
{
    lemma_nodes_placeable(rows, nodes, 0);
    assert forall|i: int, j: int| 0 <= i < nodes.len() && 0 <= j < nodes.len() && i != j implies (#[trigger] nodes[i]).position != (#[trigger] nodes[j]).position by {
        if i < j {
            assert(node_placeable(rows, nodes, j));
        } else {
            assert(node_placeable(rows, nodes, i));
        }
    }
    assert forall|i: int| 0 <= i < nodes.len() implies {
        let p = (#[trigger] nodes[i]).position;
        &&& 0 <= p.x < 15 && 0 <= p.y < 9
        &&& rows[p.y as int][p.x as int] == '.'
        &&& m.tiles[p.y as int][p.x as int] == (Tile::Node { node_id: nodes[i].id })
    } by {
        let p = nodes[i].position;
        assert(node_placeable(rows, nodes, i));
        let x = p.x as int;
        let y = p.y as int;
        assert(p == (Position { x: x as i32, y: y as i32 }));
        assert(grid_tile(m.tiles[y][x], rows, nodes, x, y));
        let k = choose|k: int| 0 <= k < nodes.len() && (#[trigger] nodes[k]).position == (Position { x: x as i32, y: y as i32 });
        if k != i {
            if k < i {
                assert(node_placeable(rows, nodes, i));
            } else {
                assert(node_placeable(rows, nodes, k));
            }
        }
    }
}

} // verus!
