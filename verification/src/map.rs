use vstd::prelude::*;
use crate::components::{BoxColour, Position, BOX_SPOT_Z, BOX_Z, FLOOR_Z, PLAYER_Z, WALL_Z};
use crate::store::{
    box_frames, box_spot_frames, floor_frames, player_frames, wall_frames, EntityStore, StoreModel,
};

verus! {

/// Grid coordinates are 8-bit, so a level holds at most this many rows,
/// and at most this many columns in any row.
pub const MAX_GRID: usize = 256;

/// Characters that separate tokens within a row.
pub open spec fn is_tok_sep(c: char) -> bool {
    c == ' ' || c == '\t' || c == '\r'
}

/// The rows of a level text: the text split at every line break, kept
/// verbatim (a text without line breaks is one row; a trailing line
/// break opens a last, empty row).
pub open spec fn split_rows(s: Seq<char>) -> Seq<Seq<char>>
    decreases s.len(),
{
    if s.len() == 0 {
        seq![Seq::<char>::empty()]
    } else if s.last() == '\n' {
        split_rows(s.drop_last()).push(Seq::<char>::empty())
    } else {
        let r = split_rows(s.drop_last());
        r.update(r.len() - 1, r.last().push(s.last()))
    }
}

/// The tokens of one row: its maximal runs of non-separator characters,
/// in order. Separators themselves never appear in a token, and an empty
/// row has no tokens.
pub open spec fn row_tokens(r: Seq<char>) -> Seq<Seq<char>>
    decreases r.len(),
{
    if r.len() == 0 {
        Seq::<Seq<char>>::empty()
    } else {
        let rest = row_tokens(r.drop_last());
        if is_tok_sep(r.last()) {
            rest
        } else if r.len() == 1 || is_tok_sep(r[r.len() - 2]) {
            rest.push(seq![r.last()])
        } else {
            rest.update(rest.len() - 1, rest.last().push(r.last()))
        }
    }
}

/// A level text as a grid of tokens: row index first, column second.
pub open spec fn grid_of(s: Seq<char>) -> Seq<Seq<Seq<char>>> {
    split_rows(s).map_values(|r: Seq<char>| row_tokens(r))
}

/// What a recognized token asks to place at its cell.
#[derive(Clone, Copy, Debug, PartialEq, Eq, Structural)]
pub enum Tile {
    /// `.`: a floor tile.
    Floor,
    /// `W`: a wall standing on a floor tile.
    Wall,
    /// `P`: the player standing on a floor tile.
    Player,
    /// `N`: a void cell holding nothing, for irregular level shapes.
    Void,
    /// `RB`, `BB`, or `B` for the default colour: a box on a floor tile.
    Box(BoxColour),
    /// `RS`, `BS`, or `S` for the default colour: a target spot on a
    /// floor tile.
    BoxSpot(BoxColour),
}

/// The meaning of a token, or `None` for an unrecognized token.
///
/// A bare `B` or `S` takes the default colour.
pub open spec fn classify(t: Seq<char>) -> Option<Tile> {
    if t.len() == 1 {
        if t[0] == '.' {
            Some(Tile::Floor)
        } else if t[0] == 'W' {
            Some(Tile::Wall)
        } else if t[0] == 'P' {
            Some(Tile::Player)
        } else if t[0] == 'N' {
            Some(Tile::Void)
        } else if t[0] == 'B' {
            Some(Tile::Box(BoxColour::Red))
        } else if t[0] == 'S' {
            Some(Tile::BoxSpot(BoxColour::Red))
        } else {
            None
        }
    } else if t.len() == 2 {
        let colour = if t[0] == 'R' {
            Some(BoxColour::Red)
        } else if t[0] == 'B' {
            Some(BoxColour::Blue)
        } else {
            None
        };
        match colour {
            Some(c) => if t[1] == 'B' {
                Some(Tile::Box(c))
            } else if t[1] == 'S' {
                Some(Tile::BoxSpot(c))
            } else {
                None
            },
            None => None,
        }
    } else {
        None
    }
}

/// Every token of the grid is recognized.
pub open spec fn all_recognized(g: Seq<Seq<Seq<char>>>) -> bool {
    forall|y: int, x: int|
        0 <= y < g.len() && 0 <= x < g[y].len() ==> classify(#[trigger] g[y][x]) is Some
}

/// The grid fits the 8-bit coordinate space.
pub open spec fn size_ok(g: Seq<Seq<Seq<char>>>) -> bool {
    g.len() <= MAX_GRID && forall|y: int| 0 <= y < g.len() ==> #[trigger] g[y].len() <= MAX_GRID
}

/// Number of player tokens in one row.
pub open spec fn row_players(row: Seq<Seq<char>>) -> nat
    decreases row.len(),
{
    if row.len() == 0 {
        0
    } else {
        row_players(row.drop_last()) + if classify(row.last()) == Some(Tile::Player) {
            1nat
        } else {
            0nat
        }
    }
}

/// Number of player tokens in the whole grid.
pub open spec fn grid_players(g: Seq<Seq<Seq<char>>>) -> nat
    decreases g.len(),
{
    if g.len() == 0 {
        0
    } else {
        grid_players(g.drop_last()) + row_players(g.last())
    }
}

/// The model after creating the floor tile that underlies cell `(x, y)`.
pub open spec fn with_floor(m: StoreModel, x: u8, y: u8) -> StoreModel {
    m.push_entity(
        Some(Position { x, y, z: FLOOR_Z }),
        Some(floor_frames()),
        None,
        None,
        false,
        false,
        true,
    )
}

/// The model after creating the entities a tile asks for at cell
/// `(x, y)`: every tile but a void cell first lays a floor underneath.
pub open spec fn apply_tile(m: StoreModel, t: Tile, x: u8, y: u8) -> StoreModel {
    match t {
        Tile::Void => m,
        Tile::Floor => with_floor(m, x, y),
        Tile::Wall => with_floor(m, x, y).push_entity(
            Some(Position { x, y, z: WALL_Z }),
            Some(wall_frames()),
            None,
            None,
            false,
            true,
            false,
        ),
        Tile::Player => with_floor(m, x, y).push_entity(
            Some(Position { x, y, z: PLAYER_Z }),
            Some(player_frames()),
            None,
            None,
            true,
            false,
            false,
        ),
        Tile::Box(c) => with_floor(m, x, y).push_entity(
            Some(Position { x, y, z: BOX_Z }),
            Some(box_frames(c)),
            Some(c),
            None,
            false,
            false,
            false,
        ),
        Tile::BoxSpot(c) => with_floor(m, x, y).push_entity(
            Some(Position { x, y, z: BOX_SPOT_Z }),
            Some(box_spot_frames(c)),
            None,
            Some(c),
            false,
            false,
            false,
        ),
    }
}

/// The model after processing one row of recognized tokens, left to
/// right; the column index is the x coordinate, the row index the y.
pub open spec fn apply_row(m: StoreModel, row: Seq<Seq<char>>, y: u8) -> StoreModel
    decreases row.len(),
{
    if row.len() == 0 {
        m
    } else {
        apply_tile(
            apply_row(m, row.drop_last(), y),
            classify(row.last())->0,
            (row.len() - 1) as u8,
            y,
        )
    }
}

/// The model after processing the rows of a grid, top to bottom.
pub open spec fn apply_grid(m: StoreModel, g: Seq<Seq<Seq<char>>>) -> StoreModel
    decreases g.len(),
{
    if g.len() == 0 {
        m
    } else {
        apply_row(apply_grid(m, g.drop_last()), g.last(), (g.len() - 1) as u8)
    }
}

/// The entity store a fully recognized grid denotes, built in row-major
/// order from an empty store.
pub open spec fn parse_model(g: Seq<Seq<Seq<char>>>) -> StoreModel {
    apply_grid(StoreModel::empty(), g)
}

/// Why a level text was rejected.
#[derive(Clone, Debug, PartialEq, Eq)]
pub enum ParseError {
    /// A token is not part of the grammar; the offending token and its
    /// row and column are reported, counting from zero.
    UnrecognizedToken { token: String, row: usize, column: usize },
    /// The grid has more rows or columns than an 8-bit coordinate holds.
    MapTooLarge,
    /// No `P` token: a level must hold a player.
    NoPlayer,
    /// More than one `P` token: a level holds exactly one player.
    MultiplePlayers,
}

/// The full contract of parsing: relates a level text to the parse
/// result.
///
/// Parsing succeeds exactly on texts whose grid fits the coordinate
/// space, holds only recognized tokens, and names exactly one player; the
/// store then equals the model of the grid. Each rejection names the
/// first reason in scan order: an oversized grid first, then the first
/// unrecognized token in row-major order, then a missing or duplicated
/// player.
pub open spec fn parse_post(s: Seq<char>, r: Result<EntityStore, ParseError>) -> bool {
    let g = grid_of(s);
    match r {
        Ok(store) => store.wf() && store.model() == parse_model(g) && size_ok(g)
            && all_recognized(g) && grid_players(g) == 1,
        Err(e) => match e {
            ParseError::MapTooLarge => !size_ok(g),
            ParseError::UnrecognizedToken { token, row, column } => size_ok(g) && row < g.len()
                && column < g[row as int].len() && classify(g[row as int][column as int]) is None
                && token@ == g[row as int][column as int] && (forall|y: int, x: int|
                0 <= y < row && 0 <= x < g[y].len() ==> classify(#[trigger] g[y][x]) is Some)
                && (forall|x: int|
                0 <= x < column ==> classify(#[trigger] g[row as int][x]) is Some),
            ParseError::NoPlayer => size_ok(g) && all_recognized(g) && grid_players(g) == 0,
            ParseError::MultiplePlayers => size_ok(g) && all_recognized(g) && grid_players(g)
                >= 2,
        },
    }
}

/// Parsing is deterministic: the accepted store is a function of the
/// level text alone, so two successful parses of the same text produce
/// structurally identical entity sets.
pub proof fn lemma_parse_deterministic(s: Seq<char>, a: EntityStore, b: EntityStore)
    requires
        parse_post(s, Ok(a)),
        parse_post(s, Ok(b)),
    ensures
        a.model() == b.model(),
{
}

/// Split a level text at its line breaks.
fn split_rows_exec(s: &str) -> (rows: Vec<String>)
    ensures
        rows.deep_view() == split_rows(s@),
{
    let n = s.unicode_len();
    let mut rows: Vec<String> = Vec::new();
    let mut start: usize = 0;
    let mut i: usize = 0;
    proof {
        assert(s@.take(0) =~= Seq::<char>::empty());
        assert(s@.subrange(0, 0) =~= Seq::<char>::empty());
        assert(rows.deep_view() =~~= Seq::<Seq<char>>::empty());
        assert(split_rows(s@.take(0)) =~~= rows.deep_view().push(s@.subrange(0, 0)));
    }
    while i < n
        invariant
            n == s@.len(),
            start <= i <= n,
            split_rows(s@.take(i as int)) == rows.deep_view().push(
                s@.subrange(start as int, i as int),
            ),
        decreases n - i,
    {
        let c = s.get_char(i);
        proof {
            assert(s@.take(i + 1).drop_last() =~= s@.take(i as int));
        }
        if c == '\n' {
            let row = s.substring_char(start, i).to_owned();
            let ghost old_dv = rows.deep_view();
            rows.push(row);
            proof {
                assert(rows.deep_view() =~~= old_dv.push(s@.subrange(start as int, i as int)));
                assert(split_rows(s@.take(i + 1)) =~~= rows.deep_view().push(
                    s@.subrange(i + 1, i + 1),
                ));
            }
            start = i + 1;
        } else {
            proof {
                assert(s@.subrange(start as int, i + 1) =~= s@.subrange(start as int, i as int).push(
                    s@[i as int],
                ));
                assert(split_rows(s@.take(i + 1)) =~~= rows.deep_view().push(
                    s@.subrange(start as int, i + 1),
                ));
            }
        }
        i = i + 1;
    }
    let row = s.substring_char(start, n).to_owned();
    let ghost old_dv = rows.deep_view();
    rows.push(row);
    proof {
        assert(s@.take(n as int) =~= s@);
        assert(rows.deep_view() =~~= old_dv.push(s@.subrange(start as int, n as int)));
        assert(rows.deep_view() =~~= split_rows(s@));
    }
    rows
}

/// Split one row into its whitespace-separated tokens.
fn row_tokens_exec(row: &str) -> (toks: Vec<String>)
    ensures
        toks.deep_view() == row_tokens(row@),
{
    let n = row.unicode_len();
    let mut toks: Vec<String> = Vec::new();
    let mut start: usize = 0;
    let mut i: usize = 0;
    while i < n
        invariant
            n == row@.len(),
            start <= i <= n,
            start == i || !is_tok_sep(row@[i - 1]),
            start == i <==> (i == 0 || is_tok_sep(row@[i - 1])),
            row_tokens(row@.take(i as int)) == if start < i {
                toks.deep_view().push(row@.subrange(start as int, i as int))
            } else {
                toks.deep_view()
            },
        decreases n - i,
    {
        let c = row.get_char(i);
        proof {
            assert(row@.take(i + 1).drop_last() =~= row@.take(i as int));
        }
        if c == ' ' || c == '\t' || c == '\r' {
            if start < i {
                let tok = row.substring_char(start, i).to_owned();
                let ghost old_dv = toks.deep_view();
                toks.push(tok);
                proof {
                    assert(toks.deep_view() =~~= old_dv.push(
                        row@.subrange(start as int, i as int),
                    ));
                    assert(row_tokens(row@.take(i + 1)) =~~= toks.deep_view());
                }
            }
            start = i + 1;
        } else {
            proof {
                assert(row@.subrange(start as int, i + 1) =~= row@.subrange(
                    start as int,
                    i as int,
                ).push(row@[i as int]));
                if start < i {
                    assert(row_tokens(row@.take(i + 1)) =~~= toks.deep_view().push(
                        row@.subrange(start as int, i + 1),
                    ));
                } else {
                    assert(row@.subrange(start as int, i + 1) =~= seq![row@[i as int]]);
                    assert(row_tokens(row@.take(i + 1)) =~~= toks.deep_view().push(
                        row@.subrange(start as int, i + 1),
                    ));
                }
            }
        }
        i = i + 1;
    }
    if start < n {
        let tok = row.substring_char(start, n).to_owned();
        let ghost old_dv = toks.deep_view();
        toks.push(tok);
        proof {
            assert(toks.deep_view() =~~= old_dv.push(row@.subrange(start as int, n as int)));
        }
    }
    proof {
        assert(row@.take(n as int) =~= row@);
    }
    toks
}

/// Split a level text into its grid of tokens.
fn tokenize(s: &str) -> (grid: Vec<Vec<String>>)
    ensures
        grid.deep_view() == grid_of(s@),
{
    let rows = split_rows_exec(s);
    let mut grid: Vec<Vec<String>> = Vec::new();
    let mut k: usize = 0;
    while k < rows.len()
        invariant
            k <= rows@.len(),
            rows.deep_view() == split_rows(s@),
            grid.deep_view() == rows.deep_view().take(k as int).map_values(
                |r: Seq<char>| row_tokens(r),
            ),
        decreases rows@.len() - k,
    {
        let row = &rows[k];
        let toks = row_tokens_exec(row.as_str());
        let ghost old_dv = grid.deep_view();
        grid.push(toks);
        proof {
            assert(rows.deep_view()[k as int] == rows@[k as int]@);
            assert(grid.deep_view() =~~= old_dv.push(row_tokens(rows@[k as int]@)));
            assert(grid.deep_view() =~~= rows.deep_view().take(k + 1).map_values(
                |r: Seq<char>| row_tokens(r),
            ));
        }
        k = k + 1;
    }
    proof {
        assert(rows.deep_view().take(rows@.len() as int) =~= rows.deep_view());
        assert(grid.deep_view() =~~= grid_of(s@));
    }
    grid
}

/// The meaning of one token, or `None` if it is not in the grammar.
fn classify_token(t: &String) -> (r: Option<Tile>)
    ensures
        r == classify(t@),
{
    let s = t.as_str();
    let n = s.unicode_len();
    if n == 1 {
        let c = s.get_char(0);
        if c == '.' {
            Some(Tile::Floor)
        } else if c == 'W' {
            Some(Tile::Wall)
        } else if c == 'P' {
            Some(Tile::Player)
        } else if c == 'N' {
            Some(Tile::Void)
        } else if c == 'B' {
            Some(Tile::Box(BoxColour::Red))
        } else if c == 'S' {
            Some(Tile::BoxSpot(BoxColour::Red))
        } else {
            None
        }
    } else if n == 2 {
        let c0 = s.get_char(0);
        let c1 = s.get_char(1);
        let colour = if c0 == 'R' {
            Some(BoxColour::Red)
        } else if c0 == 'B' {
            Some(BoxColour::Blue)
        } else {
            None
        };
        match colour {
            Some(col) => if c1 == 'B' {
                Some(Tile::Box(col))
            } else if c1 == 'S' {
                Some(Tile::BoxSpot(col))
            } else {
                None
            },
            None => None,
        }
    } else {
        None
    }
}

/// Parse a level text into a freshly populated entity store.
///
/// The text is a grid: rows separated by line breaks, tokens separated
/// by blanks. Each recognized token creates its entities at the cell
/// given by its column (x) and row (y); see [`parse_post`] for the full
/// relation between the text and the result.
pub fn load_map(map_string: &str) -> (r: Result<EntityStore, ParseError>)
    ensures
        parse_post(map_string@, r),
{
    let grid = tokenize(map_string);
    let ghost g = grid.deep_view();
    proof {
        assert(g.len() == grid@.len());
    }
    if grid.len() > MAX_GRID {
        return Err(ParseError::MapTooLarge);
    }
    let mut y: usize = 0;
    while y < grid.len()
        invariant
            g == grid.deep_view(),
            g == grid_of(map_string@),
            y <= g.len() <= MAX_GRID,
            forall|yy: int| 0 <= yy < y ==> #[trigger] g[yy].len() <= MAX_GRID,
        decreases g.len() - y,
    {
        proof {
            assert(g[y as int] == grid@[y as int].deep_view());
            assert(g[y as int].len() == grid@[y as int]@.len());
        }
        if grid[y].len() > MAX_GRID {
            return Err(ParseError::MapTooLarge);
        }
        y = y + 1;
    }
    let mut store = EntityStore::new();
    let mut players: usize = 0;
    let mut y: usize = 0;
    while y < grid.len()
        invariant
            g == grid.deep_view(),
            g == grid_of(map_string@),
            y <= g.len(),
            size_ok(g),
            store.wf(),
            store.model() == apply_grid(StoreModel::empty(), g.take(y as int)),
            players == grid_players(g.take(y as int)),
            players <= 256 * y,
            forall|yy: int, xx: int|
                0 <= yy < y && 0 <= xx < g[yy].len() ==> classify(#[trigger] g[yy][xx]) is Some,
        decreases g.len() - y,
    {
        let row = &grid[y];
        proof {
            assert(row.deep_view() == g[y as int]);
        }
        let mut x: usize = 0;
        while x < row.len()
            invariant
                g == grid.deep_view(),
                g == grid_of(map_string@),
                y < g.len(),
                size_ok(g),
                row.deep_view() == g[y as int],
                x <= row@.len(),
                row@.len() == g[y as int].len(),
                store.wf(),
                store.model() == apply_row(
                    apply_grid(StoreModel::empty(), g.take(y as int)),
                    g[y as int].take(x as int),
                    y as u8,
                ),
                players == grid_players(g.take(y as int)) + row_players(
                    g[y as int].take(x as int),
                ),
                players <= 256 * y + x,
                forall|yy: int, xx: int|
                    0 <= yy < y && 0 <= xx < g[yy].len() ==> classify(
                        #[trigger] g[yy][xx],
                    ) is Some,
                forall|xx: int| 0 <= xx < x ==> classify(#[trigger] g[y as int][xx]) is Some,
            decreases row@.len() - x,
        {
            let tok = &row[x];
            proof {
                assert(tok@ == g[y as int][x as int]);
                assert(g[y as int].take(x + 1).drop_last() =~= g[y as int].take(x as int));
            }
            match classify_token(tok) {
                None => {
                    let token = tok.clone();
                    return Err(ParseError::UnrecognizedToken { token, row: y, column: x });
                },
                Some(tile) => {
                    let xu = x as u8;
                    let yu = y as u8;
                    match tile {
                        Tile::Void => {},
                        Tile::Floor => {
                            store.create_floor(xu, yu);
                        },
                        Tile::Wall => {
                            store.create_floor(xu, yu);
                            store.create_wall(xu, yu);
                        },
                        Tile::Player => {
                            store.create_floor(xu, yu);
                            store.create_player(xu, yu);
                            players = players + 1;
                        },
                        Tile::Box(c) => {
                            store.create_floor(xu, yu);
                            store.create_box(xu, yu, c);
                        },
                        Tile::BoxSpot(c) => {
                            store.create_floor(xu, yu);
                            store.create_box_spot(xu, yu, c);
                        },
                    }
                    proof {
                        assert(store.model() =~= apply_row(
                            apply_grid(StoreModel::empty(), g.take(y as int)),
                            g[y as int].take(x + 1),
                            y as u8,
                        ));
                    }
                },
            }
            x = x + 1;
        }
        proof {
            assert(g[y as int].take(row@.len() as int) =~= g[y as int]);
            assert(g.take(y + 1).drop_last() =~= g.take(y as int));
            assert(store.model() =~= apply_grid(StoreModel::empty(), g.take(y + 1)));
        }
        y = y + 1;
    }
    proof {
        assert(g.take(g.len() as int) =~= g);
    }
    if players == 0 {
        Err(ParseError::NoPlayer)
    } else if players > 1 {
        Err(ParseError::MultiplePlayers)
    } else {
        Ok(store)
    }
}


/// The text of the built-in level.
pub open spec fn default_level_text() -> Seq<char> {
    "N N W W W W W W\nW W W . . . . W\nW . . . BB . . W\nW . . RB . . . W\nW . P . . . . W\nW . . . . RS . W\nW . . BS . . . W\nW . . . . . . W\nW W W W W W W W"@
}

/// Build the entity store of the built-in level.
pub fn initialize_level() -> (r: Result<EntityStore, ParseError>)
    ensures
        parse_post(default_level_text(), r),
{
    load_map(
        "N N W W W W W W\nW W W . . . . W\nW . . . BB . . W\nW . . RB . . . W\nW . P . . . . W\nW . . . . RS . W\nW . . BS . . . W\nW . . . . . . W\nW W W W W W W W",
    )
}


/// Every entity of the model holds a position and a renderable.
pub open spec fn entities_placed(m: StoreModel) -> bool {
    forall|i: int| 0 <= i < m.len() ==> #[trigger] m.positions[i] is Some
        && m.renderables[i] is Some
}

/// Entities `i` and `j` stand on the same cell.
pub open spec fn same_cell(m: StoreModel, i: int, j: int) -> bool {
    m.positions[i]->0.x == m.positions[j]->0.x && m.positions[i]->0.y == m.positions[j]->0.y
}

/// At most one box stands on any cell.
pub open spec fn boxes_unique(m: StoreModel) -> bool {
    forall|i: int, j: int|
        0 <= i < j < m.len() && #[trigger] m.boxes[i] is Some && #[trigger] m.boxes[j] is Some
            ==> !same_cell(m, i, j)
}

/// At most one target spot stands on any cell.
pub open spec fn spots_unique(m: StoreModel) -> bool {
    forall|i: int, j: int|
        0 <= i < j < m.len() && #[trigger] m.box_spots[i] is Some
            && #[trigger] m.box_spots[j] is Some ==> !same_cell(m, i, j)
}

/// Number of `true` entries of a boolean sequence.
pub open spec fn count_true(s: Seq<bool>) -> nat
    decreases s.len(),
{
    if s.len() == 0 {
        0
    } else {
        count_true(s.drop_last()) + if s.last() {
            1nat
        } else {
            0nat
        }
    }
}

/// Number of player entities of the model.
pub open spec fn players_in(m: StoreModel) -> nat {
    count_true(m.players)
}

/// Entity `i` carries a gameplay marker: a box, a spot, or the player.
pub open spec fn marker(m: StoreModel, i: int) -> bool {
    m.boxes[i] is Some || m.box_spots[i] is Some || m.players[i]
}

/// Every marked entity stands on a cell strictly before `(x, y)` in
/// row-major order.
pub open spec fn markers_before(m: StoreModel, y: int, x: int) -> bool {
    forall|i: int|
        0 <= i < m.len() && #[trigger] marker(m, i) ==> m.positions[i] is Some
            && ((m.positions[i]->0.y as int) < y || ((m.positions[i]->0.y as int) == y
            && (m.positions[i]->0.x as int) < x))
}

proof fn lemma_push_inv(
    m: StoreModel,
    y: int,
    x: int,
    pos: Position,
    frames: Seq<Seq<char>>,
    bc: Option<BoxColour>,
    sc: Option<BoxColour>,
    player: bool,
    wall: bool,
    floor: bool,
)
    requires
        m.wf(),
        frames.len() >= 1,
        entities_placed(m),
        markers_before(m, y, x),
        boxes_unique(m),
        spots_unique(m),
        pos.x as int == x,
        pos.y as int == y,
    ensures
        ({
            let m2 = m.push_entity(Some(pos), Some(frames), bc, sc, player, wall, floor);
            &&& m2.wf()
            &&& entities_placed(m2)
            &&& markers_before(m2, y, x + 1)
            &&& (bc is None && sc is None && !player) ==> markers_before(m2, y, x)
            &&& boxes_unique(m2)
            &&& spots_unique(m2)
            &&& players_in(m2) == players_in(m) + (if player {
                1nat
            } else {
                0nat
            })
        }),
{
    let m2 = m.push_entity(Some(pos), Some(frames), bc, sc, player, wall, floor);
    let n = m.len() as int;
    assert(m2.len() == n + 1);
    assert(forall|i: int| 0 <= i < n ==> m2.positions[i] == m.positions[i]);
    assert(forall|i: int| 0 <= i < n ==> m2.renderables[i] == m.renderables[i]);
    assert(forall|i: int| 0 <= i < n ==> m2.boxes[i] == m.boxes[i]);
    assert(forall|i: int| 0 <= i < n ==> m2.box_spots[i] == m.box_spots[i]);
    assert(forall|i: int| 0 <= i < n ==> m2.players[i] == m.players[i]);
    assert(forall|i: int| 0 <= i < n && marker(m2, i) ==> marker(m, i));
    assert(m2.players.drop_last() =~= m.players);
    assert forall|i: int, j: int|
        0 <= i < j < m2.len() && m2.boxes[i] is Some && m2.boxes[j] is Some implies !same_cell(
        m2,
        i,
        j,
    ) by {
        if j == n {
            assert(marker(m, i));
            assert((m.positions[i]->0.y as int) < y || (m.positions[i]->0.x as int) < x);
        }
    }
    assert forall|i: int, j: int|
        0 <= i < j < m2.len() && m2.box_spots[i] is Some && m2.box_spots[j] is Some
        implies !same_cell(m2, i, j) by {
        if j == n {
            assert(marker(m, i));
            assert((m.positions[i]->0.y as int) < y || (m.positions[i]->0.x as int) < x);
        }
    }
}

proof fn lemma_apply_row_inv(m0: StoreModel, row: Seq<Seq<char>>, y: int)
    requires
        0 <= y <= 255,
        row.len() <= 256,
        forall|x: int| 0 <= x < row.len() ==> classify(#[trigger] row[x]) is Some,
        m0.wf(),
        entities_placed(m0),
        markers_before(m0, y, 0),
        boxes_unique(m0),
        spots_unique(m0),
    ensures
        ({
            let m = apply_row(m0, row, y as u8);
            &&& m.wf()
            &&& entities_placed(m)
            &&& markers_before(m, y, row.len() as int)
            &&& boxes_unique(m)
            &&& spots_unique(m)
            &&& players_in(m) == players_in(m0) + row_players(row)
        }),
    decreases row.len(),
{
    if row.len() > 0 {
        let prefix = row.drop_last();
        assert(forall|x: int| 0 <= x < prefix.len() ==> prefix[x] == row[x]);
        lemma_apply_row_inv(m0, prefix, y);
        let rest = apply_row(m0, prefix, y as u8);
        let x = row.len() - 1;
        let t = classify(row.last())->0;
        let pos_y = y as u8;
        let pos_x = x as u8;
        match t {
            Tile::Void => {
                assert(classify(row.last()) != Some(Tile::Player));
            },
            Tile::Floor => {
                lemma_push_inv(
                    rest,
                    y,
                    x,
                    Position { x: pos_x, y: pos_y, z: FLOOR_Z },
                    floor_frames(),
                    None,
                    None,
                    false,
                    false,
                    true,
                );
            },
            Tile::Wall => {
                lemma_push_inv(
                    rest,
                    y,
                    x,
                    Position { x: pos_x, y: pos_y, z: FLOOR_Z },
                    floor_frames(),
                    None,
                    None,
                    false,
                    false,
                    true,
                );
                lemma_push_inv(
                    with_floor(rest, pos_x, pos_y),
                    y,
                    x,
                    Position { x: pos_x, y: pos_y, z: WALL_Z },
                    wall_frames(),
                    None,
                    None,
                    false,
                    true,
                    false,
                );
            },
            Tile::Player => {
                lemma_push_inv(
                    rest,
                    y,
                    x,
                    Position { x: pos_x, y: pos_y, z: FLOOR_Z },
                    floor_frames(),
                    None,
                    None,
                    false,
                    false,
                    true,
                );
                lemma_push_inv(
                    with_floor(rest, pos_x, pos_y),
                    y,
                    x,
                    Position { x: pos_x, y: pos_y, z: PLAYER_Z },
                    player_frames(),
                    None,
                    None,
                    true,
                    false,
                    false,
                );
            },
            Tile::Box(c) => {
                lemma_push_inv(
                    rest,
                    y,
                    x,
                    Position { x: pos_x, y: pos_y, z: FLOOR_Z },
                    floor_frames(),
                    None,
                    None,
                    false,
                    false,
                    true,
                );
                lemma_push_inv(
                    with_floor(rest, pos_x, pos_y),
                    y,
                    x,
                    Position { x: pos_x, y: pos_y, z: BOX_Z },
                    box_frames(c),
                    Some(c),
                    None,
                    false,
                    false,
                    false,
                );
            },
            Tile::BoxSpot(c) => {
                lemma_push_inv(
                    rest,
                    y,
                    x,
                    Position { x: pos_x, y: pos_y, z: FLOOR_Z },
                    floor_frames(),
                    None,
                    None,
                    false,
                    false,
                    true,
                );
                lemma_push_inv(
                    with_floor(rest, pos_x, pos_y),
                    y,
                    x,
                    Position { x: pos_x, y: pos_y, z: BOX_SPOT_Z },
                    box_spot_frames(c),
                    None,
                    Some(c),
                    false,
                    false,
                    false,
                );
            },
        }
    }
}

proof fn lemma_apply_grid_inv(g: Seq<Seq<Seq<char>>>)
    requires
        size_ok(g),
        all_recognized(g),
    ensures
        ({
            let m = parse_model(g);
            &&& m.wf()
            &&& entities_placed(m)
            &&& markers_before(m, g.len() as int, 0)
            &&& boxes_unique(m)
            &&& spots_unique(m)
            &&& players_in(m) == grid_players(g)
        }),
    decreases g.len(),
{
    if g.len() > 0 {
        let prefix = g.drop_last();
        assert(forall|i: int| 0 <= i < prefix.len() ==> prefix[i] == g[i]);
        lemma_apply_grid_inv(prefix);
        let m0 = parse_model(prefix);
        let y = g.len() - 1;
        assert(forall|x: int| 0 <= x < g.last().len() ==> classify(#[trigger] g.last()[x]) is Some);
        lemma_apply_row_inv(m0, g.last(), y);
    }
}

/// The data-model invariants of a successfully parsed level: every
/// entity holds a position and a renderable, at most one box and at
/// most one target spot stand on any cell, and exactly one player
/// entity exists.
pub proof fn lemma_parsed_store_invariants(s: Seq<char>, store: EntityStore)
    requires
        parse_post(s, Ok(store)),
    ensures
        entities_placed(store.model()),
        boxes_unique(store.model()),
        spots_unique(store.model()),
        players_in(store.model()) == 1,
{
    lemma_apply_grid_inv(grid_of(s));
}

} // verus!
