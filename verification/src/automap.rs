//! Automap rules as the rule editor shapes them: pattern grids of cell
//! matchers and outputs, the brushes that paint them, and the labels shown
//! for them.
use vstd::prelude::*;

use crate::ids::{is_v4_uuid, new_uuid};
use crate::text::{decimal, decimal_string, push_decimal};

verus! {

/// Which tab is active in the pattern editor.
#[derive(Debug, Clone, Copy, PartialEq, Eq, Structural)]
pub enum AutomapEditorTab {
    InputPattern,
    OutputPatterns,
}

/// Active brush type for input pattern cells.
#[derive(Debug, Clone, Copy, PartialEq, Eq, Structural)]
pub enum InputBrushType {
    /// Always matches: ignores the cell.
    Ignore,
    /// Matches only an empty cell.
    Empty,
    /// Matches any non-empty cell.
    NonEmpty,
    /// Matches a specific tile id.
    Tile,
    /// Matches anything but a specific tile id.
    NotTile,
}

/// Active brush type for output pattern cells.
#[derive(Debug, Clone, Copy, PartialEq, Eq, Structural)]
pub enum OutputBrushType {
    /// Leave the cell unchanged when the rule fires.
    LeaveUnchanged,
    /// Write a specific tile to the cell.
    Tile,
}

/// What an input cell of a rule matches.
#[derive(Debug, Clone, Copy, PartialEq, Eq, Structural)]
pub enum CellMatcher {
    Ignore,
    Empty,
    NonEmpty,
    Tile(u32),
    NotTile(u32),
    TileFlipped { id: u32, flip_x: bool, flip_y: bool },
    Other,
}

/// What an output cell of a rule writes.
#[derive(Debug, Clone, Copy, PartialEq, Eq, Structural)]
pub enum CellOutput {
    Ignore,
    Empty,
    Tile(u32),
}

/// How cells past the level's edge are matched.
#[derive(Debug, Clone, Copy, PartialEq, Eq, Structural)]
pub enum EdgeHandling {
    Skip,
    TreatAsEmpty,
}

/// How often a rule set is applied.
#[derive(Debug, Clone, Copy, PartialEq, Eq, Structural)]
pub enum ApplyMode {
    Once,
    UntilStable,
}

/// The input pattern of a rule on one layer: a grid of
/// (2 * half_width + 1) x (2 * half_height + 1) matchers, row-major.
#[derive(Debug)]
pub struct InputConditionGroup {
    pub layer_id: u128,
    pub half_width: u32,
    pub half_height: u32,
    pub matchers: Vec<CellMatcher>,
}

/// One possible output of a rule on one layer, row-major like the input.
#[derive(Debug)]
pub struct OutputAlternative {
    pub id: u128,
    pub layer_id: u128,
    pub half_width: u32,
    pub half_height: u32,
    pub outputs: Vec<CellOutput>,
    pub weight: u32,
}

/// An automap rule.
#[derive(Debug)]
pub struct Rule {
    pub id: u128,
    pub name: String,
    pub input_groups: Vec<InputConditionGroup>,
    pub output_alternatives: Vec<OutputAlternative>,
    pub no_overlapping_output: bool,
}

/// The number of cells along a side of half-extent `h`.
pub open spec fn side(h: u32) -> int {
    2 * h + 1
}

/// The grid sizes fit a `u32`, as the editor computes them.
pub open spec fn dims_fit(hw: u32, hh: u32) -> bool {
    side(hw) * side(hh) <= u32::MAX
}

/// The matcher at `i` of a grid, `Ignore` past its end.
pub open spec fn matcher_at(m: Seq<CellMatcher>, i: int) -> CellMatcher {
    if 0 <= i < m.len() {
        m[i]
    } else {
        CellMatcher::Ignore
    }
}

/// The output at `i` of a grid, `Ignore` past its end.
pub open spec fn output_at(o: Seq<CellOutput>, i: int) -> CellOutput {
    if 0 <= i < o.len() {
        o[i]
    } else {
        CellOutput::Ignore
    }
}

/// After changing the number of columns of a grid of `rows` rows from
/// `old_cols` to `new_cols`: the cell (r, c) keeps its matcher when the
/// column existed, and new cells ignore.
pub open spec fn resized_cols(m: Seq<CellMatcher>, rows: int, old_cols: int, new_cols: int, result: Seq<CellMatcher>) -> bool {
    &&& result.len() == rows * new_cols
    &&& forall|r: int, c: int|
        0 <= r < rows && 0 <= c < new_cols ==> #[trigger] result[r * new_cols + c] == if c < old_cols {
            matcher_at(m, r * old_cols + c)
        } else {
            CellMatcher::Ignore
        }
}

/// After changing the number of rows of a grid of `cols` columns from
/// `old_rows` to `new_rows`: existing rows keep their matchers, new rows
/// ignore.
pub open spec fn resized_rows(m: Seq<CellMatcher>, cols: int, old_rows: int, new_rows: int, result: Seq<CellMatcher>) -> bool {
    &&& result.len() == new_rows * cols
    &&& forall|r: int, c: int|
        0 <= r < new_rows && 0 <= c < cols ==> #[trigger] result[r * cols + c] == if r < old_rows {
            matcher_at(m, r * cols + c)
        } else {
            CellMatcher::Ignore
        }
}

proof fn lemma_row_major_bounds(r: int, c: int, rows: int, cols: int)
    requires
        0 <= r < rows,
        0 <= c < cols,
    ensures
        0 <= r * cols + c < rows * cols,
        r * cols + c + 1 <= rows * cols,
        (r + 1) * cols == r * cols + cols,
{
    assert(0 <= r * cols) by (nonlinear_arith)
        requires
            0 <= r,
            0 <= c < cols,
    ;
    assert(r * cols + cols <= rows * cols) by (nonlinear_arith)
        requires
            0 <= r < rows,
            0 < cols,
    ;
    assert((r + 1) * cols == r * cols + cols) by (nonlinear_arith);
}

proof fn lemma_row_major_unique(r1: int, c1: int, r2: int, c2: int, cols: int)
    requires
        0 <= c1 < cols,
        0 <= c2 < cols,
        0 <= r1,
        0 <= r2,
        r1 * cols + c1 == r2 * cols + c2,
    ensures
        r1 == r2,
        c1 == c2,
{
    if r1 < r2 {
        assert(r1 * cols + cols <= r2 * cols) by (nonlinear_arith)
            requires
                r1 < r2,
                0 < cols,
        ;
    } else if r2 < r1 {
        assert(r2 * cols + cols <= r1 * cols) by (nonlinear_arith)
            requires
                r2 < r1,
                0 < cols,
        ;
    }
}

fn side_of(h: u32) -> (r: u32)
    requires
        h < 0x8000_0000,
    ensures
        r == side(h),
{
    2 * h + 1
}

/// Changes the grid's half width, keeping the matchers of the columns that
/// remain; new columns ignore.
pub fn resize_input_group_cols(group: &mut InputConditionGroup, new_half_w: u32)
    requires
        dims_fit(old(group).half_width, old(group).half_height),
        dims_fit(new_half_w, old(group).half_height),
    ensures
        final(group).half_width == new_half_w,
        final(group).half_height == old(group).half_height,
        final(group).layer_id == old(group).layer_id,
        resized_cols(
            old(group).matchers@,
            side(old(group).half_height),
            side(old(group).half_width),
            side(new_half_w),
            final(group).matchers@,
        ),
{
    proof {
        lemma_dims_fit_sides(group.half_width, group.half_height);
        lemma_dims_fit_sides(new_half_w, group.half_height);
    }
    let old_cols = side_of(group.half_width);
    let new_cols = side_of(new_half_w);
    let rows = side_of(group.half_height);
    let ghost m = group.matchers@;
    let mut out: Vec<CellMatcher> = Vec::new();
    let mut row: u32 = 0;
    while row < rows
        invariant
            row <= rows,
            rows == side(old(group).half_height),
            old_cols == side(old(group).half_width),
            new_cols == side(new_half_w),
            m == group.matchers@,
            rows * new_cols <= u32::MAX,
            rows * old_cols <= u32::MAX,
            out@.len() == row * new_cols,
            forall|r: int, c: int|
                0 <= r < row && 0 <= c < new_cols ==> #[trigger] out@[r * new_cols + c] == if c < old_cols {
                    matcher_at(m, r * old_cols + c)
                } else {
                    CellMatcher::Ignore
                },
        decreases rows - row,
    {
        let mut col: u32 = 0;
        while col < new_cols
            invariant
                row < rows,
                col <= new_cols,
                rows == side(old(group).half_height),
                old_cols == side(old(group).half_width),
                new_cols == side(new_half_w),
                m == group.matchers@,
                rows * new_cols <= u32::MAX,
                rows * old_cols <= u32::MAX,
                out@.len() == row * new_cols + col,
                forall|r: int, c: int|
                    0 <= r <= row && 0 <= c < new_cols && (r < row || c < col) ==> #[trigger] out@[r * new_cols
                        + c] == if c < old_cols {
                        matcher_at(m, r * old_cols + c)
                    } else {
                        CellMatcher::Ignore
                    },
            decreases new_cols - col,
        {
            proof {
                lemma_row_major_bounds(row as int, col as int, rows as int, new_cols as int);
            }
            let v = if col < old_cols {
                proof {
                    lemma_row_major_bounds(row as int, col as int, rows as int, old_cols as int);
                }
                let old_idx = (row * old_cols + col) as usize;
                if old_idx < group.matchers.len() {
                    group.matchers[old_idx]
                } else {
                    CellMatcher::Ignore
                }
            } else {
                CellMatcher::Ignore
            };
            let ghost before = out@;
            out.push(v);
            proof {
                assert forall|r: int, c: int|
                    0 <= r <= row && 0 <= c < new_cols && (r < row || c < col + 1) implies #[trigger] out@[r
                        * new_cols + c] == if c < old_cols {
                        matcher_at(m, r * old_cols + c)
                    } else {
                        CellMatcher::Ignore
                    } by {
                    lemma_row_major_bounds(r, c, rows as int, new_cols as int);
                    if r == row && c == col {
                    } else {
                        if r * new_cols + c == row * new_cols + col {
                            lemma_row_major_unique(r, c, row as int, col as int, new_cols as int);
                        }
                        if r < row {
                            assert(r * new_cols + c < row * new_cols) by (nonlinear_arith)
                                requires
                                    0 <= r < row,
                                    0 <= c < new_cols,
                            ;
                        }
                        assert(out@[r * new_cols + c] == before[r * new_cols + c]);
                    }
                }
            }
            col = col + 1;
        }
        proof {
            lemma_row_major_bounds(row as int, 0, rows as int, new_cols as int);
        }
        row = row + 1;
    }
    group.half_width = new_half_w;
    group.matchers = out;
}

/// Changes the grid's half height, keeping the matchers of the rows that
/// remain; new rows ignore.
pub fn resize_input_group_rows(group: &mut InputConditionGroup, new_half_h: u32)
    requires
        dims_fit(old(group).half_width, old(group).half_height),
        dims_fit(old(group).half_width, new_half_h),
    ensures
        final(group).half_height == new_half_h,
        final(group).half_width == old(group).half_width,
        final(group).layer_id == old(group).layer_id,
        resized_rows(
            old(group).matchers@,
            side(old(group).half_width),
            side(old(group).half_height),
            side(new_half_h),
            final(group).matchers@,
        ),
{
    proof {
        lemma_dims_fit_sides(group.half_width, group.half_height);
        lemma_dims_fit_sides(group.half_width, new_half_h);
    }
    let cols = side_of(group.half_width);
    let old_rows = side_of(group.half_height);
    let new_rows = side_of(new_half_h);
    let ghost m = group.matchers@;
    let mut out: Vec<CellMatcher> = Vec::new();
    let mut row: u32 = 0;
    while row < new_rows
        invariant
            row <= new_rows,
            cols == side(old(group).half_width),
            old_rows == side(old(group).half_height),
            new_rows == side(new_half_h),
            m == group.matchers@,
            new_rows * cols <= u32::MAX,
            old_rows * cols <= u32::MAX,
            out@.len() == row * cols,
            forall|r: int, c: int|
                0 <= r < row && 0 <= c < cols ==> #[trigger] out@[r * cols + c] == if r < old_rows {
                    matcher_at(m, r * cols + c)
                } else {
                    CellMatcher::Ignore
                },
        decreases new_rows - row,
    {
        let mut col: u32 = 0;
        while col < cols
            invariant
                row < new_rows,
                col <= cols,
                cols == side(old(group).half_width),
                old_rows == side(old(group).half_height),
                new_rows == side(new_half_h),
                m == group.matchers@,
                new_rows * cols <= u32::MAX,
                old_rows * cols <= u32::MAX,
                out@.len() == row * cols + col,
                forall|r: int, c: int|
                    0 <= r <= row && 0 <= c < cols && (r < row || c < col) ==> #[trigger] out@[r * cols + c]
                        == if r < old_rows {
                        matcher_at(m, r * cols + c)
                    } else {
                        CellMatcher::Ignore
                    },
            decreases cols - col,
        {
            proof {
                lemma_row_major_bounds(row as int, col as int, new_rows as int, cols as int);
            }
            let v = if row < old_rows {
                proof {
                    lemma_row_major_bounds(row as int, col as int, old_rows as int, cols as int);
                }
                let old_idx = (row * cols + col) as usize;
                if old_idx < group.matchers.len() {
                    group.matchers[old_idx]
                } else {
                    CellMatcher::Ignore
                }
            } else {
                CellMatcher::Ignore
            };
            let ghost before = out@;
            out.push(v);
            proof {
                assert forall|r: int, c: int|
                    0 <= r <= row && 0 <= c < cols && (r < row || c < col + 1) implies #[trigger] out@[r * cols
                        + c] == if r < old_rows {
                        matcher_at(m, r * cols + c)
                    } else {
                        CellMatcher::Ignore
                    } by {
                    lemma_row_major_bounds(r, c, new_rows as int, cols as int);
                    if r == row && c == col {
                    } else {
                        if r * cols + c == row * cols + col {
                            lemma_row_major_unique(r, c, row as int, col as int, cols as int);
                        }
                        if r < row {
                            assert(r * cols + c < row * cols) by (nonlinear_arith)
                                requires
                                    0 <= r < row,
                                    0 <= c < cols,
                            ;
                        }
                        assert(out@[r * cols + c] == before[r * cols + c]);
                    }
                }
            }
            col = col + 1;
        }
        proof {
            lemma_row_major_bounds(row as int, 0, new_rows as int, cols as int);
        }
        row = row + 1;
    }
    group.half_height = new_half_h;
    group.matchers = out;
}

proof fn lemma_dims_fit_sides(hw: u32, hh: u32)
    requires
        dims_fit(hw, hh),
    ensures
        hw < 0x8000_0000,
        hh < 0x8000_0000,
        side(hw) <= u32::MAX,
        side(hh) <= u32::MAX,
        side(hh) * side(hw) <= u32::MAX,
{
    assert(side(hh) * side(hw) == side(hw) * side(hh)) by (nonlinear_arith);
    assert(side(hw) <= side(hw) * side(hh)) by (nonlinear_arith)
        requires
            side(hh) >= 1,
            side(hw) >= 1,
    ;
    assert(side(hh) <= side(hw) * side(hh)) by (nonlinear_arith)
        requires
            side(hh) >= 1,
            side(hw) >= 1,
    ;
}

/// Every cell of a well-formed grid is named by one (row, column) pair.
proof fn lemma_index_split(i: int, cols: int) -> (rc: (int, int))
    requires
        0 <= i,
        0 < cols,
    ensures
        0 <= rc.0,
        0 <= rc.1 < cols,
        i == rc.0 * cols + rc.1,
{
    vstd::arithmetic::div_mod::lemma_fundamental_div_mod(i, cols);
    vstd::arithmetic::div_mod::lemma_mod_bound(i, cols);
    vstd::arithmetic::div_mod::lemma_div_pos_is_pos(i, cols);
    assert(i == cols * (i / cols) + i % cols);
    assert(cols * (i / cols) == (i / cols) * cols) by (nonlinear_arith);
    (i / cols, i % cols)
}

/// Widening a well-formed grid and narrowing it back gives the grid back.
pub proof fn law_resize_cols_round_trip(
    m: Seq<CellMatcher>,
    rows: int,
    cols1: int,
    cols2: int,
    wide: Seq<CellMatcher>,
    back: Seq<CellMatcher>,
)
    requires
        0 < rows,
        0 < cols1 <= cols2,
        m.len() == rows * cols1,
        resized_cols(m, rows, cols1, cols2, wide),
        resized_cols(wide, rows, cols2, cols1, back),
    ensures
        back == m,
{
    assert forall|i: int| 0 <= i < m.len() implies back[i] == m[i] by {
        let (r, c) = lemma_index_split(i, cols1);
        assert(r < rows) by (nonlinear_arith)
            requires
                i == r * cols1 + c,
                i < rows * cols1,
                0 <= c < cols1,
                0 <= r,
        ;
        lemma_row_major_bounds(r, c, rows, cols2);
        assert(back[r * cols1 + c] == matcher_at(wide, r * cols2 + c));
        assert(wide[r * cols2 + c] == matcher_at(m, r * cols1 + c));
    }
    assert(back =~= m);
}

/// The same for rows: adding rows and taking them away gives the grid back.
pub proof fn law_resize_rows_round_trip(
    m: Seq<CellMatcher>,
    cols: int,
    rows1: int,
    rows2: int,
    tall: Seq<CellMatcher>,
    back: Seq<CellMatcher>,
)
    requires
        0 < cols,
        0 < rows1 <= rows2,
        m.len() == rows1 * cols,
        resized_rows(m, cols, rows1, rows2, tall),
        resized_rows(tall, cols, rows2, rows1, back),
    ensures
        back == m,
{
    assert forall|i: int| 0 <= i < m.len() implies back[i] == m[i] by {
        let (r, c) = lemma_index_split(i, cols);
        assert(r < rows1) by (nonlinear_arith)
            requires
                i == r * cols + c,
                i < rows1 * cols,
                0 <= c < cols,
                0 <= r,
        ;
        lemma_row_major_bounds(r, c, rows1, cols);
        lemma_row_major_bounds(r, c, rows2, cols);
        assert(back[r * cols + c] == matcher_at(tall, r * cols + c));
    }
    assert(back =~= m);
}

/// After resizing an output grid from `old_rows` x `old_cols` to
/// `new_rows` x `new_cols`: the cells inside both grids keep their output,
/// the others ignore.
pub open spec fn resized_grid(
    o: Seq<CellOutput>,
    old_rows: int,
    old_cols: int,
    new_rows: int,
    new_cols: int,
    result: Seq<CellOutput>,
) -> bool {
    &&& result.len() == new_rows * new_cols
    &&& forall|r: int, c: int|
        0 <= r < new_rows && 0 <= c < new_cols ==> #[trigger] result[r * new_cols + c] == if r < old_rows
            && c < old_cols {
            output_at(o, r * old_cols + c)
        } else {
            CellOutput::Ignore
        }
}

/// The half extents of a rule's first input group, (1, 1) when it has none.
pub open spec fn input_half_dims(input_groups: Seq<InputConditionGroup>) -> (u32, u32) {
    if input_groups.len() > 0 {
        (input_groups[0].half_width, input_groups[0].half_height)
    } else {
        (1, 1)
    }
}

/// The half extents of a rule's first input group, (1, 1) when it has none.
pub fn get_input_half_dims(rule: &Rule) -> (dims: (u32, u32))
    ensures
        dims == input_half_dims(rule.input_groups@),
{
    if rule.input_groups.len() > 0 {
        (rule.input_groups[0].half_width, rule.input_groups[0].half_height)
    } else {
        (1, 1)
    }
}

/// A grid of `n` matchers that all ignore.
fn ignore_matchers(n: usize) -> (v: Vec<CellMatcher>)
    ensures
        v@.len() == n,
        forall|i: int| 0 <= i < n ==> v@[i] == CellMatcher::Ignore,
{
    let mut v: Vec<CellMatcher> = Vec::new();
    while v.len() < n
        invariant
            v@.len() <= n,
            forall|i: int| 0 <= i < v@.len() ==> v@[i] == CellMatcher::Ignore,
        decreases n - v@.len(),
    {
        v.push(CellMatcher::Ignore);
    }
    v
}

/// A grid of `n` outputs that all leave their cell unchanged.
fn ignore_outputs(n: usize) -> (v: Vec<CellOutput>)
    ensures
        v@.len() == n,
        forall|i: int| 0 <= i < n ==> v@[i] == CellOutput::Ignore,
{
    let mut v: Vec<CellOutput> = Vec::new();
    while v.len() < n
        invariant
            v@.len() <= n,
            forall|i: int| 0 <= i < v@.len() ==> v@[i] == CellOutput::Ignore,
        decreases n - v@.len(),
    {
        v.push(CellOutput::Ignore);
    }
    v
}

/// A new output alternative of `cell_count` cells that leave their cell
/// unchanged, with weight 1 and a fresh random id.
pub fn make_default_output_alt(hw: u32, hh: u32, cell_count: usize, layer_id: u128) -> (alt: OutputAlternative)
    ensures
        is_v4_uuid(alt.id),
        alt.layer_id == layer_id,
        alt.half_width == hw,
        alt.half_height == hh,
        alt.weight == 1,
        alt.outputs@.len() == cell_count,
        forall|i: int| 0 <= i < cell_count ==> alt.outputs@[i] == CellOutput::Ignore,
{
    OutputAlternative {
        id: new_uuid(),
        layer_id,
        half_width: hw,
        half_height: hh,
        outputs: ignore_outputs(cell_count),
        weight: 1,
    }
}

/// The 3x3 input group that matches anything, on `layer_id`.
pub open spec fn is_default_input_group(g: InputConditionGroup, layer_id: u128) -> bool {
    &&& g.layer_id == layer_id
    &&& g.half_width == 1
    &&& g.half_height == 1
    &&& g.matchers@.len() == 9
    &&& forall|i: int| 0 <= i < 9 ==> g.matchers@[i] == CellMatcher::Ignore
}

fn default_input_group(layer_id: u128) -> (g: InputConditionGroup)
    ensures
        is_default_input_group(g, layer_id),
{
    InputConditionGroup { layer_id, half_width: 1, half_height: 1, matchers: ignore_matchers(9) }
}

/// A new rule named "New Rule": one 3x3 input group that matches anything
/// on `input_layer_id`, and one 3x3 output alternative on `output_layer_id`
/// that changes nothing.
pub fn make_default_rule(input_layer_id: u128, output_layer_id: u128) -> (rule: Rule)
    ensures
        is_v4_uuid(rule.id),
        rule.name@ == "New Rule"@,
        rule.input_groups@.len() == 1,
        is_default_input_group(rule.input_groups@[0], input_layer_id),
        rule.output_alternatives@.len() == 1,
        is_v4_uuid(rule.output_alternatives@[0].id),
        rule.output_alternatives@[0].layer_id == output_layer_id,
        rule.output_alternatives@[0].half_width == 1,
        rule.output_alternatives@[0].half_height == 1,
        rule.output_alternatives@[0].weight == 1,
        rule.output_alternatives@[0].outputs@.len() == 9,
        forall|i: int| 0 <= i < 9 ==> rule.output_alternatives@[0].outputs@[i] == CellOutput::Ignore,
        !rule.no_overlapping_output,
{
    let hw: u32 = 1;
    let hh: u32 = 1;
    let cell_count: usize = 9;
    let id = new_uuid();
    let mut input_groups: Vec<InputConditionGroup> = Vec::new();
    input_groups.push(default_input_group(input_layer_id));
    let mut output_alternatives: Vec<OutputAlternative> = Vec::new();
    output_alternatives.push(make_default_output_alt(hw, hh, cell_count, output_layer_id));
    Rule {
        id,
        name: "New Rule".to_string(),
        input_groups,
        output_alternatives,
        no_overlapping_output: false,
    }
}

/// Gives a rule without input groups the default 3x3 group on `layer_id`;
/// a rule that has one is left as it is.
pub fn ensure_input_group(rule: &mut Rule, layer_id: u128)
    ensures
        final(rule).id == old(rule).id,
        final(rule).name@ == old(rule).name@,
        final(rule).output_alternatives@ == old(rule).output_alternatives@,
        final(rule).no_overlapping_output == old(rule).no_overlapping_output,
        old(rule).input_groups@.len() > 0 ==> final(rule).input_groups@ == old(rule).input_groups@,
        old(rule).input_groups@.len() == 0 ==> final(rule).input_groups@.len() == 1
            && is_default_input_group(final(rule).input_groups@[0], layer_id),
{
    if rule.input_groups.len() == 0 {
        rule.input_groups.push(default_input_group(layer_id));
    }
}

/// The output grid `outputs`, laid out for `old_hw` x `old_hh`, resized to
/// `new_hw` x `new_hh`.
fn resize_outputs(outputs: &Vec<CellOutput>, old_hw: u32, old_hh: u32, new_hw: u32, new_hh: u32) -> (out: Vec<
    CellOutput,
>)
    requires
        dims_fit(old_hw, old_hh),
        dims_fit(new_hw, new_hh),
    ensures
        resized_grid(outputs@, side(old_hh), side(old_hw), side(new_hh), side(new_hw), out@),
{
    proof {
        lemma_dims_fit_sides(old_hw, old_hh);
        lemma_dims_fit_sides(new_hw, new_hh);
    }
    let old_cols = side_of(old_hw);
    let old_rows = side_of(old_hh);
    let new_cols = side_of(new_hw);
    let new_rows = side_of(new_hh);
    let ghost o = outputs@;
    let mut out: Vec<CellOutput> = Vec::new();
    let mut row: u32 = 0;
    while row < new_rows
        invariant
            row <= new_rows,
            old_cols == side(old_hw),
            old_rows == side(old_hh),
            new_cols == side(new_hw),
            new_rows == side(new_hh),
            o == outputs@,
            new_rows * new_cols <= u32::MAX,
            old_rows * old_cols <= u32::MAX,
            out@.len() == row * new_cols,
            forall|r: int, c: int|
                0 <= r < row && 0 <= c < new_cols ==> #[trigger] out@[r * new_cols + c] == if r < old_rows
                    && c < old_cols {
                    output_at(o, r * old_cols + c)
                } else {
                    CellOutput::Ignore
                },
        decreases new_rows - row,
    {
        let mut col: u32 = 0;
        while col < new_cols
            invariant
                row < new_rows,
                col <= new_cols,
                old_cols == side(old_hw),
                old_rows == side(old_hh),
                new_cols == side(new_hw),
                new_rows == side(new_hh),
                o == outputs@,
                new_rows * new_cols <= u32::MAX,
                old_rows * old_cols <= u32::MAX,
                out@.len() == row * new_cols + col,
                forall|r: int, c: int|
                    0 <= r <= row && 0 <= c < new_cols && (r < row || c < col) ==> #[trigger] out@[r * new_cols
                        + c] == if r < old_rows && c < old_cols {
                        output_at(o, r * old_cols + c)
                    } else {
                        CellOutput::Ignore
                    },
            decreases new_cols - col,
        {
            proof {
                lemma_row_major_bounds(row as int, col as int, new_rows as int, new_cols as int);
            }
            let v = if row < old_rows && col < old_cols {
                proof {
                    lemma_row_major_bounds(row as int, col as int, old_rows as int, old_cols as int);
                }
                let old_idx = (row * old_cols + col) as usize;
                if old_idx < outputs.len() {
                    outputs[old_idx]
                } else {
                    CellOutput::Ignore
                }
            } else {
                CellOutput::Ignore
            };
            let ghost before = out@;
            out.push(v);
            proof {
                assert forall|r: int, c: int|
                    0 <= r <= row && 0 <= c < new_cols && (r < row || c < col + 1) implies #[trigger] out@[r
                        * new_cols + c] == if r < old_rows && c < old_cols {
                        output_at(o, r * old_cols + c)
                    } else {
                        CellOutput::Ignore
                    } by {
                    lemma_row_major_bounds(r, c, new_rows as int, new_cols as int);
                    if r == row && c == col {
                    } else {
                        if r * new_cols + c == row * new_cols + col {
                            lemma_row_major_unique(r, c, row as int, col as int, new_cols as int);
                        }
                        if r < row {
                            assert(r * new_cols + c < row * new_cols) by (nonlinear_arith)
                                requires
                                    0 <= r < row,
                                    0 <= c < new_cols,
                            ;
                        }
                        assert(out@[r * new_cols + c] == before[r * new_cols + c]);
                    }
                }
            }
            col = col + 1;
        }
        proof {
            lemma_row_major_bounds(row as int, 0, new_rows as int, new_cols as int);
        }
        row = row + 1;
    }
    out
}

/// Every output alternative of the rule takes the extents of the rule's
/// first input group, keeping the outputs of the cells both grids share;
/// the other cells leave their cell unchanged.
pub fn sync_output_grid_dims(rule: &mut Rule)
    requires
        dims_fit(input_half_dims(old(rule).input_groups@).0, input_half_dims(old(rule).input_groups@).1),
        forall|i: int|
            0 <= i < old(rule).output_alternatives@.len() ==> dims_fit(
                #[trigger] old(rule).output_alternatives@[i].half_width,
                old(rule).output_alternatives@[i].half_height,
            ),
    ensures
        final(rule).id == old(rule).id,
        final(rule).name@ == old(rule).name@,
        final(rule).input_groups@ == old(rule).input_groups@,
        final(rule).no_overlapping_output == old(rule).no_overlapping_output,
        final(rule).output_alternatives@.len() == old(rule).output_alternatives@.len(),
        forall|i: int|
            0 <= i < old(rule).output_alternatives@.len() ==> {
                let a = #[trigger] old(rule).output_alternatives@[i];
                let b = final(rule).output_alternatives@[i];
                let (hw, hh) = input_half_dims(old(rule).input_groups@);
                &&& b.id == a.id
                &&& b.layer_id == a.layer_id
                &&& b.weight == a.weight
                &&& b.half_width == hw
                &&& b.half_height == hh
                &&& resized_grid(
                    a.outputs@,
                    side(a.half_height),
                    side(a.half_width),
                    side(hh),
                    side(hw),
                    b.outputs@,
                )
            },
{
    let (new_hw, new_hh) = get_input_half_dims(rule);
    let mut alts: Vec<OutputAlternative> = Vec::new();
    let n = rule.output_alternatives.len();
    let mut i: usize = 0;
    while i < n
        invariant
            n == rule.output_alternatives@.len(),
            *rule == *old(rule),
            (new_hw, new_hh) == input_half_dims(old(rule).input_groups@),
            dims_fit(new_hw, new_hh),
            forall|j: int|
                0 <= j < old(rule).output_alternatives@.len() ==> dims_fit(
                    #[trigger] old(rule).output_alternatives@[j].half_width,
                    old(rule).output_alternatives@[j].half_height,
                ),
            i <= n,
            alts@.len() == i,
            forall|j: int|
                0 <= j < i ==> {
                    let a = #[trigger] old(rule).output_alternatives@[j];
                    let b = alts@[j];
                    &&& b.id == a.id
                    &&& b.layer_id == a.layer_id
                    &&& b.weight == a.weight
                    &&& b.half_width == new_hw
                    &&& b.half_height == new_hh
                    &&& resized_grid(
                        a.outputs@,
                        side(a.half_height),
                        side(a.half_width),
                        side(new_hh),
                        side(new_hw),
                        b.outputs@,
                    )
                },
        decreases n - i,
    {
        let a = &rule.output_alternatives[i];
        let outputs = resize_outputs(&a.outputs, a.half_width, a.half_height, new_hw, new_hh);
        alts.push(
            OutputAlternative {
                id: a.id,
                layer_id: a.layer_id,
                half_width: new_hw,
                half_height: new_hh,
                outputs,
                weight: a.weight,
            },
        );
        i = i + 1;
    }
    rule.output_alternatives = alts;
}

/// What painting with the input brush writes into a cell; a tile brush
/// without a chosen tile paints tile 0.
pub open spec fn brush_matcher(brush: InputBrushType, tile_id: Option<u32>) -> CellMatcher {
    let t = match tile_id {
        Some(t) => t,
        None => 0u32,
    };
    match brush {
        InputBrushType::Ignore => CellMatcher::Ignore,
        InputBrushType::Empty => CellMatcher::Empty,
        InputBrushType::NonEmpty => CellMatcher::NonEmpty,
        InputBrushType::Tile => CellMatcher::Tile(t),
        InputBrushType::NotTile => CellMatcher::NotTile(t),
    }
}

/// The matcher that the active input brush paints.
pub fn brush_to_matcher(brush: InputBrushType, tile_id: Option<u32>) -> (m: CellMatcher)
    ensures
        m == brush_matcher(brush, tile_id),
        brush == InputBrushType::NotTile ==> m == CellMatcher::NotTile(
            match tile_id {
                Some(t) => t,
                None => 0u32,
            },
        ),
        brush == InputBrushType::Tile ==> m == CellMatcher::Tile(
            match tile_id {
                Some(t) => t,
                None => 0u32,
            },
        ),
{
    proof {
        law_brush_matchers(tile_id);
    }
    let t = match tile_id {
        Some(t) => t,
        None => 0,
    };
    match brush {
        InputBrushType::Ignore => CellMatcher::Ignore,
        InputBrushType::Empty => CellMatcher::Empty,
        InputBrushType::NonEmpty => CellMatcher::NonEmpty,
        InputBrushType::Tile => CellMatcher::Tile(t),
        InputBrushType::NotTile => CellMatcher::NotTile(t),
    }
}

/// The output that the active output brush paints: leaving the cell
/// unchanged, or a tile (tile 0 when none is chosen).
pub fn output_brush_to_cell_output(brush: OutputBrushType, tile_id: Option<u32>) -> (o: CellOutput)
    ensures
        o == (match brush {
            OutputBrushType::LeaveUnchanged => CellOutput::Ignore,
            OutputBrushType::Tile => CellOutput::Tile(
                match tile_id {
                    Some(t) => t,
                    None => 0u32,
                },
            ),
        }),
{
    match brush {
        OutputBrushType::LeaveUnchanged => CellOutput::Ignore,
        OutputBrushType::Tile => CellOutput::Tile(
            match tile_id {
                Some(t) => t,
                None => 0,
            },
        ),
    }
}

/// The two tile brushes paint the same tile, one to match it and one to
/// match anything else: with a chosen tile `t`, the Tile brush paints
/// `Tile(t)` and the NOT Tile brush `NotTile(t)`; without one, both use
/// tile 0. The other brushes paint their own kind, whatever the tile.
pub proof fn law_brush_matchers(tile_id: Option<u32>)
    ensures
        match (brush_matcher(InputBrushType::Tile, tile_id), brush_matcher(InputBrushType::NotTile, tile_id)) {
            (CellMatcher::Tile(a), CellMatcher::NotTile(b)) => a == b && (tile_id matches Some(t) ==> a == t)
                && (tile_id is None ==> a == 0),
            _ => false,
        },
        brush_matcher(InputBrushType::Ignore, tile_id) == CellMatcher::Ignore,
        brush_matcher(InputBrushType::Empty, tile_id) == CellMatcher::Empty,
        brush_matcher(InputBrushType::NonEmpty, tile_id) == CellMatcher::NonEmpty,
{
}

/// The short text shown in an input grid cell.
pub open spec fn input_label(m: CellMatcher) -> Seq<char> {
    match m {
        CellMatcher::Ignore => seq!['?'],
        CellMatcher::Empty => seq!['_'],
        CellMatcher::NonEmpty => seq!['*'],
        CellMatcher::Tile(id) => decimal(id as nat),
        CellMatcher::NotTile(id) => seq!['!'] + decimal(id as nat),
        CellMatcher::TileFlipped { id, .. } => decimal(id as nat).push('f'),
        CellMatcher::Other => seq!['~'],
    }
}

/// The short text shown in an input grid cell.
pub fn input_cell_label(matcher: &CellMatcher) -> (s: String)
    ensures
        s@ == input_label(*matcher),
{
    proof {
        reveal_strlit("?");
        reveal_strlit("_");
        reveal_strlit("*");
        reveal_strlit("!");
        reveal_strlit("f");
        reveal_strlit("~");
    }
    match matcher {
        CellMatcher::Ignore => "?".to_string(),
        CellMatcher::Empty => "_".to_string(),
        CellMatcher::NonEmpty => "*".to_string(),
        CellMatcher::Tile(id) => decimal_string(*id as u64),
        CellMatcher::NotTile(id) => {
            let mut s = "!".to_string();
            push_decimal(&mut s, *id as u64);
            s
        },
        CellMatcher::TileFlipped { id, .. } => {
            let mut s = decimal_string(*id as u64);
            s.append("f");
            assert(s@ =~= decimal(*id as nat).push('f'));
            s
        },
        CellMatcher::Other => "~".to_string(),
    }
}

/// The short text shown in an output grid cell.
pub open spec fn output_label(o: CellOutput) -> Seq<char> {
    match o {
        CellOutput::Ignore => seq!['-'],
        CellOutput::Empty => seq!['_'],
        CellOutput::Tile(id) => decimal(id as nat),
    }
}

/// The short text shown in an output grid cell.
pub fn output_cell_label(output: &CellOutput) -> (s: String)
    ensures
        s@ == output_label(*output),
{
    proof {
        reveal_strlit("-");
        reveal_strlit("_");
    }
    match output {
        CellOutput::Ignore => "-".to_string(),
        CellOutput::Empty => "_".to_string(),
        CellOutput::Tile(id) => decimal_string(*id as u64),
    }
}

/// The label of an edge handling choice.
pub fn edge_handling_label(e: EdgeHandling) -> (s: &'static str)
    ensures
        s@ == (match e {
            EdgeHandling::Skip => "Ignore"@,
            EdgeHandling::TreatAsEmpty => "Fixed"@,
        }),
{
    match e {
        EdgeHandling::Skip => "Ignore",
        EdgeHandling::TreatAsEmpty => "Fixed",
    }
}

/// The label of an apply mode.
pub fn apply_mode_label(m: ApplyMode) -> (s: &'static str)
    ensures
        s@ == (match m {
            ApplyMode::Once => "Once"@,
            ApplyMode::UntilStable => "Until Stable"@,
        }),
{
    match m {
        ApplyMode::Once => "Once",
        ApplyMode::UntilStable => "Until Stable",
    }
}

/// The label of an input brush.
pub fn input_brush_label(b: InputBrushType) -> (s: &'static str)
    ensures
        s@ == (match b {
            InputBrushType::Ignore => "Ignore"@,
            InputBrushType::Empty => "Empty"@,
            InputBrushType::NonEmpty => "NonEmpty"@,
            InputBrushType::Tile => "Tile"@,
            InputBrushType::NotTile => "NOT Tile"@,
        }),
{
    match b {
        InputBrushType::Ignore => "Ignore",
        InputBrushType::Empty => "Empty",
        InputBrushType::NonEmpty => "NonEmpty",
        InputBrushType::Tile => "Tile",
        InputBrushType::NotTile => "NOT Tile",
    }
}

/// The label of an output brush.
pub fn output_brush_label(b: OutputBrushType) -> (s: &'static str)
    ensures
        s@ == (match b {
            OutputBrushType::LeaveUnchanged => "Leave Unchanged"@,
            OutputBrushType::Tile => "Tile"@,
        }),
{
    match b {
        OutputBrushType::LeaveUnchanged => "Leave Unchanged",
        OutputBrushType::Tile => "Tile",
    }
}

/// State of the automap rule editor window.
#[derive(Debug)]
pub struct AutomapEditorState {
    /// Index of the selected rule set.
    pub selected_rule_set: Option<usize>,
    /// Index of the selected rule in that set.
    pub selected_rule: Option<usize>,
    /// Active tab of the pattern editor.
    pub active_tab: AutomapEditorTab,
    /// Brush for input pattern cells.
    pub input_brush: InputBrushType,
    /// Brush for output pattern cells.
    pub output_brush: OutputBrushType,
    /// Tile painted by the tile brushes.
    pub brush_tile_id: Option<u32>,
    /// Level the rules run on.
    pub target_level: Option<u128>,
    /// Run the rules after every tile paint.
    pub auto_on_draw: bool,
    /// Status of the last run.
    pub last_run_status: Option<String>,
    /// Output alternative selected for editing.
    pub selected_output_alt: Option<usize>,
    /// Rule set awaiting delete confirmation.
    pub pending_delete_rule_set: Option<usize>,
    /// Rule awaiting deletion.
    pub pending_delete_rule: Option<usize>,
    /// Whether the rule set settings section is expanded.
    pub rule_set_settings_open: bool,
    /// Layer new input groups are made on.
    pub selected_input_layer: Option<u128>,
    /// Layer new output alternatives are made on.
    pub selected_output_layer: Option<u128>,
}

impl Default for AutomapEditorState {
    /// Nothing selected, the input tab and the ignoring brushes active, the
    /// settings section open.
    fn default() -> (r: Self)
        ensures
            r.selected_rule_set is None,
            r.selected_rule is None,
            r.active_tab == AutomapEditorTab::InputPattern,
            r.input_brush == InputBrushType::Ignore,
            r.output_brush == OutputBrushType::LeaveUnchanged,
            r.brush_tile_id is None,
            r.target_level is None,
            !r.auto_on_draw,
            r.last_run_status is None,
            r.selected_output_alt is None,
            r.pending_delete_rule_set is None,
            r.pending_delete_rule is None,
            r.rule_set_settings_open,
            r.selected_input_layer is None,
            r.selected_output_layer is None,
    {
        AutomapEditorState {
            selected_rule_set: None,
            selected_rule: None,
            active_tab: AutomapEditorTab::InputPattern,
            input_brush: InputBrushType::Ignore,
            output_brush: OutputBrushType::LeaveUnchanged,
            brush_tile_id: None,
            target_level: None,
            auto_on_draw: false,
            last_run_status: None,
            selected_output_alt: None,
            pending_delete_rule_set: None,
            pending_delete_rule: None,
            rule_set_settings_open: true,
            selected_input_layer: None,
            selected_output_layer: None,
        }
    }
}

impl Default for AutomapEditorTab {
    fn default() -> (r: Self)
        ensures
            r == AutomapEditorTab::InputPattern,
    {
        AutomapEditorTab::InputPattern
    }
}

impl Default for InputBrushType {
    fn default() -> (r: Self)
        ensures
            r == InputBrushType::Ignore,
    {
        InputBrushType::Ignore
    }
}

impl Default for OutputBrushType {
    fn default() -> (r: Self)
        ensures
            r == OutputBrushType::LeaveUnchanged,
    {
        OutputBrushType::LeaveUnchanged
    }
}

/// A named, ordered set of automap rules.
#[derive(Debug)]
pub struct RuleSet {
    pub id: u128,
    pub name: String,
    pub rules: Vec<Rule>,
    pub disabled: bool,
}

pub struct RuleSetView {
    pub id: u128,
    pub name: Seq<char>,
    pub rules: Seq<Rule>,
    pub disabled: bool,
}

impl View for RuleSet {
    type V = RuleSetView;

    open spec fn view(&self) -> RuleSetView {
        RuleSetView { id: self.id, name: self.name@, rules: self.rules@, disabled: self.disabled }
    }
}

/// The rule sets of a project, run in order.
#[derive(Debug)]
pub struct AutomapConfig {
    pub rule_sets: Vec<RuleSet>,
}

pub open spec fn rule_sets_view(s: Seq<RuleSet>) -> Seq<RuleSetView> {
    Seq::new(s.len(), |i: int| s[i]@)
}

/// The name of a rule set added with "+ Add".
pub open spec fn new_rule_set_name() -> Seq<char> {
    seq!['N', 'e', 'w', ' ', 'R', 'u', 'l', 'e', ' ', 'S', 'e', 't']
}

/// The rule set selected after deleting the one at `idx`, leaving `len`:
/// the one before it (or the first), or none when none is left.
pub open spec fn selection_after_delete(idx: usize, len: nat) -> Option<usize> {
    if len == 0 { None } else if idx == 0 { Some(0usize) } else { Some((idx - 1) as usize) }
}

impl AutomapConfig {
    /// No rule sets.
    pub fn new() -> (r: Self)
        ensures
            r.rule_sets@.len() == 0,
    {
        AutomapConfig { rule_sets: Vec::new() }
    }
}

impl AutomapEditorState {
    /// "+ Add": appends an empty, enabled rule set named `New Rule Set`
    /// with a fresh random id, selects it and clears the rule selection.
    /// Returns the new id.
    pub fn add_rule_set(&mut self, config: &mut AutomapConfig) -> (r: u128)
        ensures
            is_v4_uuid(r),
            rule_sets_view(final(config).rule_sets@) == rule_sets_view(old(config).rule_sets@).push(
                RuleSetView { id: r, name: new_rule_set_name(), rules: Seq::empty(), disabled: false },
            ),
            final(self).selected_rule_set == Some(old(config).rule_sets@.len() as usize),
            final(self).selected_rule is None,
            final(self).pending_delete_rule_set == old(self).pending_delete_rule_set,
    {
        let new_idx = config.rule_sets.len();
        let id = new_uuid();
        proof {
            reveal_strlit("New Rule Set");
        }
        let name = String::from_str("New Rule Set");
        assert(name@ =~= new_rule_set_name());
        let ghost nv = RuleSetView { id, name: name@, rules: Seq::empty(), disabled: false };
        let rules: Vec<Rule> = Vec::new();
        assert(rules@ =~= Seq::empty());
        config.rule_sets.push(RuleSet { id, name, rules, disabled: false });
        assert(rule_sets_view(config.rule_sets@) =~= rule_sets_view(old(config).rule_sets@).push(nv));
        self.selected_rule_set = Some(new_idx);
        self.selected_rule = None;
        id
    }

    /// A click on the rule set at `idx`: selecting another rule set clears
    /// the rule selection; clicking the selected one changes nothing.
    pub fn select_rule_set(&mut self, idx: usize)
        ensures
            old(self).selected_rule_set != Some(idx) ==> final(self).selected_rule_set == Some(idx)
                && final(self).selected_rule is None,
            old(self).selected_rule_set == Some(idx) ==> final(self).selected_rule_set == Some(idx)
                && final(self).selected_rule == old(self).selected_rule,
            final(self).pending_delete_rule_set == old(self).pending_delete_rule_set,
    {
        if self.selected_rule_set != Some(idx) {
            self.selected_rule_set = Some(idx);
            self.selected_rule = None;
        }
    }

    /// "Delete Rule Set" in the context menu: asks for confirmation.
    pub fn request_delete_rule_set(&mut self, idx: usize)
        ensures
            final(self).pending_delete_rule_set == Some(idx),
            final(self).selected_rule_set == old(self).selected_rule_set,
            final(self).selected_rule == old(self).selected_rule,
    {
        self.pending_delete_rule_set = Some(idx);
    }

    /// "No": the rule set stays.
    pub fn cancel_delete_rule_set(&mut self)
        ensures
            final(self).pending_delete_rule_set is None,
            final(self).selected_rule_set == old(self).selected_rule_set,
            final(self).selected_rule == old(self).selected_rule,
    {
        self.pending_delete_rule_set = None;
    }

    /// "Yes": deletes the rule set at `idx`; the one before it (or the
    /// first) is selected, or none when none is left, and no rule is.
    pub fn confirm_delete_rule_set(&mut self, config: &mut AutomapConfig, idx: usize)
        requires
            idx < old(config).rule_sets@.len(),
        ensures
            rule_sets_view(final(config).rule_sets@) == rule_sets_view(old(config).rule_sets@).remove(idx as int),
            final(self).selected_rule_set == selection_after_delete(idx, final(config).rule_sets@.len()),
            final(self).selected_rule is None,
            final(self).pending_delete_rule_set is None,
    {
        config.rule_sets.remove(idx);
        assert(rule_sets_view(config.rule_sets@) =~= rule_sets_view(old(config).rule_sets@).remove(idx as int));
        self.selected_rule_set = if config.rule_sets.len() == 0 {
            None
        } else if idx == 0 {
            Some(0)
        } else {
            Some(idx - 1)
        };
        self.selected_rule = None;
        self.pending_delete_rule_set = None;
    }

    /// "^" or "v" on the rule set at `idx`: exchanges it with its
    /// neighbour above or below; a selected rule set stays selected.
    pub fn move_rule_set(&mut self, config: &mut AutomapConfig, idx: usize, up: bool)
        requires
            up ==> 1 <= idx < old(config).rule_sets@.len(),
            !up ==> idx + 1 < old(config).rule_sets@.len(),
        ensures
            ({
                let other: int = if up { idx - 1 } else { idx + 1 };
                let before = rule_sets_view(old(config).rule_sets@);
                &&& rule_sets_view(final(config).rule_sets@) == before.update(idx as int, before[other]).update(
                    other,
                    before[idx as int],
                )
                &&& old(self).selected_rule_set == Some(idx) ==> final(self).selected_rule_set == Some(other as usize)
                &&& old(self).selected_rule_set != Some(idx) ==> final(self).selected_rule_set
                    == old(self).selected_rule_set
            }),
            final(self).selected_rule == old(self).selected_rule,
    {
        let n = config.rule_sets.len();
        assert(up || idx + 1 < n);
        let other = if up { idx - 1 } else { idx + 1 };
        let (lo, hi) = if up { (other, idx) } else { (idx, other) };
        let ghost before = rule_sets_view(config.rule_sets@);
        let moved = config.rule_sets.remove(hi);
        config.rule_sets.insert(lo, moved);
        assert(rule_sets_view(config.rule_sets@) =~= before.update(idx as int, before[other as int]).update(
            other as int,
            before[idx as int],
        ));
        if self.selected_rule_set == Some(idx) {
            self.selected_rule_set = Some(other);
        }
    }
}

} // verus!
