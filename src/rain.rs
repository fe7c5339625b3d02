use crate::config::Config;
use rand::rngs::StdRng;
use rand::Rng;
use vstd::prelude::*;
use vstd::std_specs::iter::IteratorSpec;

verus! {

#[verifier::external_type_specification]
#[verifier::external_body]
pub struct ExStdRng(StdRng);

/// Relies on rand's `Rng::gen_range` on the half-open range `0..n`: it yields
/// a value below `n`, and panics on an empty range.
#[verifier::external_body]
fn draw_below(rng: &mut StdRng, n: u64) -> (r: u64)
    requires
        n > 0,
    ensures
        r < n,
{
    rng.gen_range(0..n)
}

/// Rows past the bottom edge that a drop may fall before it is removed.
pub const CULL_MARGIN: u16 = 5;

/// Number of columns drops can fall in: `max(1, width / max(1, column_width))`.
pub open spec fn columns_spec(width: u16, column_width: u16) -> int {
    let cw = if column_width == 0 { 1int } else { column_width as int };
    let c = width as int / cw;
    if c < 1 { 1 } else { c }
}

/// Drops seeded per frame: `ceil(columns * density)`, with the density in thousandths.
pub open spec fn spawn_count_spec(columns: int, density_milli: int) -> int {
    (columns * density_milli + 999) / 1000
}

/// Number of columns drops can fall in for a terminal `width` cells wide.
pub fn resolved_columns(width: u16, column_width: u16) -> (r: u16)
    ensures
        r == columns_spec(width, column_width),
        r >= 1,
{
    let cw: u16 = if column_width == 0 { 1 } else { column_width };
    let c: u16 = width / cw;
    if c < 1 { 1 } else { c }
}

/// Number of drops to seed in one frame: the least integer not below
/// `columns * density_milli / 1000`.
pub fn spawn_count(columns: u16, density_milli: u32) -> (r: u64)
    ensures
        r == spawn_count_spec(columns as int, density_milli as int),
        r * 1000 >= columns * density_milli,
        r * 1000 < columns * density_milli + 1000,
{
    assert(columns * density_milli <= 0xffff * 0xffff_ffff) by (nonlinear_arith);
    let total: u64 = columns as u64 * density_milli as u64;
    (total + 999) / 1000
}

/// Frame budget in milliseconds: `1000 / max(1, fps)`.
pub fn frame_budget_millis(fps: u32) -> (r: u64)
    ensures
        r == 1000int / (if fps == 0 { 1int } else { fps as int }),
{
    let f: u64 = if fps == 0 { 1 } else { fps as u64 };
    1000 / f
}

/// How long to sleep after a frame that took `elapsed` of a `budget` (any
/// common unit): the remainder, or nothing when the frame ran over.
pub fn pacing_delay(elapsed: u64, budget: u64) -> (r: u64)
    ensures
        elapsed < budget ==> r == budget - elapsed,
        elapsed >= budget ==> r == 0,
{
    if elapsed < budget { budget - elapsed } else { 0 }
}

/// A key event, as far as cancellation reads it.
#[derive(Clone, Copy, Debug, PartialEq, Eq, Structural)]
pub enum KeyPress {
    /// A character key, with whether Control was held.
    Char { c: char, ctrl: bool },
    /// The Escape key.
    Esc,
    /// Any other key.
    Other,
}

/// Whether a key ends the loop: `q`, Escape, Control+C or the configured
/// cancel character.
pub open spec fn cancels(key: KeyPress, cancel_key: Option<char>) -> bool {
    match key {
        KeyPress::Char { c, ctrl } => c == 'q' || (c == 'c' && ctrl) || cancel_key == Some(c),
        KeyPress::Esc => true,
        KeyPress::Other => false,
    }
}

/// The two states of the render loop.
#[derive(Clone, Copy, Debug, PartialEq, Eq, Structural)]
pub enum LoopState {
    Running,
    Terminated,
}

/// Whether `key` ends the loop.
pub fn is_cancel(key: KeyPress, cancel_key: Option<char>) -> (r: bool)
    ensures
        r == cancels(key, cancel_key),
{
    match key {
        KeyPress::Char { c, ctrl } => {
            if c == 'q' || (c == 'c' && ctrl) {
                true
            } else {
                match cancel_key {
                    Some(k) => k == c,
                    None => false,
                }
            }
        },
        KeyPress::Esc => true,
        KeyPress::Other => false,
    }
}

/// The state after one poll of the input: `event` is the key that the poll
/// found, if any.
pub fn after_poll(event: Option<KeyPress>, cancel_key: Option<char>) -> (r: LoopState)
    ensures
        r == (if event is Some && cancels(event->0, cancel_key) {
            LoopState::Terminated
        } else {
            LoopState::Running
        }),
{
    match event {
        Some(k) => if is_cancel(k, cancel_key) { LoopState::Terminated } else { LoopState::Running },
        None => LoopState::Running,
    }
}

/// `max(1, n)`.
pub open spec fn at_least_one(n: u16) -> int {
    if n == 0 { 1 } else { n as int }
}

/// A falling glyph stream. `row` may be negative: the drop is then still
/// above the visible area.
#[derive(Clone, Copy, Debug, PartialEq, Eq, Structural)]
pub struct RainDrop {
    pub column: u16,
    pub row: i32,
    /// Rows advanced per frame.
    pub fall_speed: u16,
}

/// A glyph to draw at a cell of the screen.
#[derive(Clone, Copy, Debug, PartialEq, Eq, Structural)]
pub struct Cell {
    pub column: u16,
    pub row: u16,
    pub glyph: char,
}

/// A drop as the seeding phase creates it on a `width` by `height` screen:
/// on a column that is a multiple of the column width and inside the screen,
/// above the visible area, falling one to three rows per frame.
pub open spec fn fresh(d: RainDrop, width: u16, height: u16, column_width: u16) -> bool {
    &&& d.column as int % at_least_one(column_width) == 0
    &&& d.column < at_least_one(width)
    &&& -at_least_one(height) <= d.row < 0
    &&& 1 <= d.fall_speed <= 3
}

/// A drop that may stay in the active set on a screen `height` rows high.
pub open spec fn settled(d: RainDrop, height: u16) -> bool {
    &&& -0x10000 <= d.row < height + CULL_MARGIN
    &&& 1 <= d.fall_speed <= 3
}

/// A drop right after its advance, before culling.
pub open spec fn in_flight(d: RainDrop, height: u16) -> bool {
    &&& -0x10000 <= d.row < height + CULL_MARGIN + 3
    &&& 1 <= d.fall_speed <= 3
}

/// The drop one frame later.
pub open spec fn advanced(d: RainDrop) -> RainDrop {
    RainDrop { row: (d.row + d.fall_speed) as i32, ..d }
}

/// Whether a drop is kept by the cull on a screen `height` rows high.
pub open spec fn survives(height: u16) -> spec_fn(RainDrop) -> bool {
    |d: RainDrop| d.row < height + CULL_MARGIN
}

/// Whether a drop lies on one of the `height` visible rows.
pub open spec fn on_screen(height: u16) -> spec_fn(RainDrop) -> bool {
    |d: RainDrop| 0 <= d.row < height
}

/// Whether `c` may be drawn for the glyph set `glyphs`: one of them, or `.`
/// when the set is empty.
pub open spec fn glyph_from(c: char, glyphs: Seq<char>) -> bool {
    if glyphs.len() == 0 {
        c == '.'
    } else {
        glyphs.contains(c)
    }
}

/// The cells drawn for `visible`, in order, each with a glyph of `glyphs`.
pub open spec fn draws(cells: Seq<Cell>, visible: Seq<RainDrop>, glyphs: Seq<char>) -> bool {
    &&& cells.len() == visible.len()
    &&& forall|j: int|
        0 <= j < cells.len() ==> {
            &&& (#[trigger] cells[j]).column == visible[j].column
            &&& cells[j].row == visible[j].row
            &&& glyph_from(cells[j].glyph, glyphs)
        }
}

/// The drop made from three random draws: a column index, a row offset and a
/// speed offset.
pub fn new_drop(column_draw: u64, row_draw: u64, speed_draw: u64, column_width: u16) -> (d:
    RainDrop)
    requires
        column_draw * at_least_one(column_width) <= u16::MAX,
        row_draw < 0x10000,
        speed_draw < 3,
    ensures
        d.column == column_draw * at_least_one(column_width),
        d.row == -(row_draw + 1),
        d.fall_speed == speed_draw + 1,
{
    let cw: u64 = if column_width == 0 { 1 } else { column_width as u64 };
    RainDrop {
        column: (column_draw * cw) as u16,
        row: -(row_draw as i32) - 1,
        fall_speed: (speed_draw + 1) as u16,
    }
}

/// A glyph picked at random from `glyphs`, or `.` when there is none.
pub fn pick_glyph(glyphs: &Vec<char>, rng: &mut StdRng) -> (c: char)
    ensures
        glyph_from(c, glyphs@),
{
    if glyphs.len() == 0 {
        '.'
    } else {
        let i = draw_below(rng, glyphs.len() as u64);
        let c = glyphs[i as usize];
        assert(glyphs@[i as int] == c);
        c
    }
}

/// `seeded` is `start` followed by the drops that one seeding phase creates
/// on a `width` by `height` screen: `ceil(columns * density)` fresh drops.
pub open spec fn seeded_from(
    start: Seq<RainDrop>,
    seeded: Seq<RainDrop>,
    width: u16,
    height: u16,
    column_width: u16,
    density_milli: u32,
) -> bool {
    &&& seeded.len() == start.len() + spawn_count_spec(
        columns_spec(width, column_width),
        density_milli as int,
    )
    &&& seeded.subrange(0, start.len() as int) == start
    &&& forall|i: int|
        start.len() <= i < seeded.len() ==> fresh(#[trigger] seeded[i], width, height, column_width)
}

/// The drops that a frame keeps from the previous one: none after a resize.
pub open spec fn carried(drops: Seq<RainDrop>, resized: bool) -> Seq<RainDrop> {
    if resized {
        Seq::empty()
    } else {
        drops
    }
}

/// One frame that starts from the drops `start`: seeding yields `seeded`;
/// each drop then advances, `cells` are drawn for the advanced drops on the
/// visible rows, and `drops` are the advanced drops that the cull keeps.
pub open spec fn frame_outcome(
    start: Seq<RainDrop>,
    seeded: Seq<RainDrop>,
    cells: Seq<Cell>,
    drops: Seq<RainDrop>,
    glyphs: Seq<char>,
    width: u16,
    height: u16,
    column_width: u16,
    density_milli: u32,
) -> bool {
    let moved = seeded.map_values(|d: RainDrop| advanced(d));
    &&& seeded_from(start, seeded, width, height, column_width, density_milli)
    &&& draws(cells, moved.filter(on_screen(height)), glyphs)
    &&& drops == moved.filter(survives(height))
}

/// What one frame hands to the screen.
pub struct Frame {
    /// The terminal size changed: clear the whole screen first.
    pub clear_screen: bool,
    /// The glyphs to draw, in order.
    pub cells: Vec<Cell>,
}

/// The render loop's state carried from frame to frame: the active drops and
/// the terminal size seen at the last frame.
pub struct Rain {
    pub drops: Vec<RainDrop>,
    pub width: u16,
    pub height: u16,
}

impl Rain {
    /// Every active drop may stay in the set on the current screen.
    pub open spec fn wf(&self) -> bool {
        forall|i: int| 0 <= i < self.drops@.len() ==> settled(#[trigger] self.drops@[i], self.height)
    }

    /// No drops, and no terminal size seen yet.
    pub fn new() -> (r: Rain)
        ensures
            r.wf(),
            r.drops@.len() == 0,
            r.width == 0,
            r.height == 0,
    {
        Rain { drops: Vec::new(), width: 0, height: 0 }
    }

    /// Records the terminal size of this frame. A changed size clears the
    /// active drops, and the result says that the screen must be cleared; an
    /// unchanged size keeps them.
    pub fn observe_size(&mut self, width: u16, height: u16) -> (resized: bool)
        requires
            old(self).wf(),
        ensures
            final(self).wf(),
            resized == (width != old(self).width || height != old(self).height),
            final(self).width == width,
            final(self).height == height,
            resized ==> final(self).drops@.len() == 0,
            !resized ==> final(self).drops@ == old(self).drops@,
    {
        if width != self.width || height != self.height {
            self.drops = Vec::new();
            self.width = width;
            self.height = height;
            true
        } else {
            false
        }
    }

    /// Seeds `ceil(columns * density)` new drops at random, after the active ones.
    pub fn seed(&mut self, cfg: &Config, rng: &mut StdRng)
        requires
            old(self).wf(),
        ensures
            final(self).wf(),
            final(self).width == old(self).width,
            final(self).height == old(self).height,
            seeded_from(
                old(self).drops@,
                final(self).drops@,
                old(self).width,
                old(self).height,
                cfg.column_width,
                cfg.density_milli,
            ),
    {
        let columns = resolved_columns(self.width, cfg.column_width);
        let count = spawn_count(columns, cfg.density_milli);
        let rows: u64 = if self.height == 0 { 1 } else { self.height as u64 };
        let cw: u64 = if cfg.column_width == 0 { 1 } else { cfg.column_width as u64 };
        let ghost start = self.drops@;
        let mut k: u64 = 0;
        while k < count
            invariant
                0 <= k <= count,
                count == spawn_count_spec(columns as int, cfg.density_milli as int),
                columns == columns_spec(self.width, cfg.column_width),
                rows == at_least_one(self.height),
                cw == at_least_one(cfg.column_width),
                self.width == old(self).width,
                self.height == old(self).height,
                self.drops@.len() == start.len() + k,
                self.drops@.subrange(0, start.len() as int) == start,
                start == old(self).drops@,
                self.wf(),
                forall|i: int|
                    start.len() <= i < self.drops@.len() ==> fresh(
                        #[trigger] self.drops@[i],
                        self.width,
                        self.height,
                        cfg.column_width,
                    ),
            decreases count - k,
        {
            let col = draw_below(rng, columns as u64);
            let row = draw_below(rng, rows);
            let speed = draw_below(rng, 3);
            proof {
                let w = self.width as int;
                let c = w / cw as int;
                assert(cw >= 1);
                assert(col * cw < w || col == 0) by {
                    if c >= 1 {
                        assert(col + 1 <= c);
                        assert((col + 1) * cw <= c * cw) by (nonlinear_arith)
                            requires col + 1 <= c, cw >= 1;
                        assert(c * cw <= w) by (nonlinear_arith)
                            requires c == w / cw as int, cw >= 1, w >= 0;
                        assert((col + 1) * cw == col * cw + cw) by (nonlinear_arith);
                    }
                }
                assert(col * cw < at_least_one(self.width) || col == 0);
                assert((col * cw) % cw as int == 0) by (nonlinear_arith)
                    requires cw >= 1;
                assert(0 <= col * cw) by (nonlinear_arith)
                    requires cw >= 1, col >= 0;
            }
            let d = new_drop(col, row, speed, cfg.column_width);
            let ghost before = self.drops@;
            self.drops.push(d);
            assert(self.drops@.subrange(0, start.len() as int) =~= before.subrange(0, start.len() as int));
            k = k + 1;
        }
    }

    /// Advances every drop by its speed and returns the cells to draw, one
    /// for each advanced drop on a visible row, in order, with a random glyph.
    pub fn advance(&mut self, glyphs: &Vec<char>, rng: &mut StdRng) -> (cells: Vec<Cell>)
        requires
            old(self).wf(),
        ensures
            final(self).width == old(self).width,
            final(self).height == old(self).height,
            final(self).drops@ == old(self).drops@.map_values(|d: RainDrop| advanced(d)),
            forall|i: int|
                0 <= i < final(self).drops@.len() ==> in_flight(
                    #[trigger] final(self).drops@[i],
                    old(self).height,
                ),
            draws(cells@, final(self).drops@.filter(on_screen(old(self).height)), glyphs@),
    {
        let h = self.height;
        let ghost prev = self.drops@;
        let mut next: Vec<RainDrop> = Vec::new();
        let mut cells: Vec<Cell> = Vec::new();
        let mut i: usize = 0;
        while i < self.drops.len()
            invariant
                0 <= i <= prev.len(),
                self.drops@ == prev,
                self.height == h,
                self.wf(),
                next@ == prev.subrange(0, i as int).map_values(|d: RainDrop| advanced(d)),
                forall|j: int| 0 <= j < next@.len() ==> in_flight(#[trigger] next@[j], h),
                draws(cells@, next@.filter(on_screen(h)), glyphs@),
            decreases prev.len() - i,
        {
            let d = self.drops[i];
            assert(settled(prev[i as int], h));
            let moved = RainDrop { row: d.row + d.fall_speed as i32, ..d };
            let ghost old_next = next@;
            next.push(moved);
            assert(prev.subrange(0, i + 1) =~= prev.subrange(0, i as int).push(d));
            assert(next@ =~= prev.subrange(0, i + 1).map_values(|d: RainDrop| advanced(d)));
            assert(next@.drop_last() =~= old_next);
            proof {
                reveal(Seq::filter);
            }
            let ghost old_cells = cells@;
            if 0 <= moved.row && moved.row < h as i32 {
                let g = pick_glyph(glyphs, rng);
                cells.push(Cell { column: moved.column, row: moved.row as u16, glyph: g });
                assert(next@.filter(on_screen(h)) == old_next.filter(on_screen(h)).push(moved));
                assert forall|j: int| 0 <= j < cells@.len() implies {
                    &&& (#[trigger] cells@[j]).column == next@.filter(on_screen(h))[j].column
                    &&& cells@[j].row == next@.filter(on_screen(h))[j].row
                    &&& glyph_from(cells@[j].glyph, glyphs@)
                } by {
                    if j < old_cells.len() {
                        assert(cells@[j] == old_cells[j]);
                    }
                }
            } else {
                assert(next@.filter(on_screen(h)) == old_next.filter(on_screen(h)));
            }
            i = i + 1;
        }
        assert(prev.subrange(0, prev.len() as int) =~= prev);
        self.drops = next;
        cells
    }

    /// Removes every drop at or past `height + 5`; the others stay, in order.
    pub fn cull(&mut self)
        requires
            forall|i: int|
                0 <= i < old(self).drops@.len() ==> in_flight(
                    #[trigger] old(self).drops@[i],
                    old(self).height,
                ),
        ensures
            final(self).wf(),
            final(self).width == old(self).width,
            final(self).height == old(self).height,
            final(self).drops@ == old(self).drops@.filter(survives(old(self).height)),
    {
        let h = self.height;
        let ghost prev = self.drops@;
        let mut kept: Vec<RainDrop> = Vec::new();
        let mut i: usize = 0;
        while i < self.drops.len()
            invariant
                0 <= i <= prev.len(),
                self.drops@ == prev,
                self.height == h,
                forall|j: int| 0 <= j < prev.len() ==> in_flight(#[trigger] prev[j], h),
                kept@ == prev.subrange(0, i as int).filter(survives(h)),
                forall|j: int| 0 <= j < kept@.len() ==> settled(#[trigger] kept@[j], h),
            decreases prev.len() - i,
        {
            let d = self.drops[i];
            assert(prev.subrange(0, i + 1).drop_last() =~= prev.subrange(0, i as int));
            assert(prev.subrange(0, i + 1).last() == d);
            proof {
                reveal(Seq::filter);
            }
            if d.row < h as i32 + CULL_MARGIN as i32 {
                kept.push(d);
            }
            i = i + 1;
        }
        assert(prev.subrange(0, prev.len() as int) =~= prev);
        self.drops = kept;
    }

    /// One frame of the loop on a `width` by `height` terminal: resize
    /// detection, seeding, the advance of every drop with the cells to draw,
    /// and the cull.
    pub fn frame(
        &mut self,
        cfg: &Config,
        glyphs: &Vec<char>,
        width: u16,
        height: u16,
        rng: &mut StdRng,
    ) -> (f: Frame)
        requires
            old(self).wf(),
        ensures
            final(self).wf(),
            final(self).width == width,
            final(self).height == height,
            f.clear_screen == (width != old(self).width || height != old(self).height),
            exists|seeded: Seq<RainDrop>|
                #[trigger] frame_outcome(
                    carried(old(self).drops@, f.clear_screen),
                    seeded,
                    f.cells@,
                    final(self).drops@,
                    glyphs@,
                    width,
                    height,
                    cfg.column_width,
                    cfg.density_milli,
                ),
    {
        let clear_screen = self.observe_size(width, height);
        assert(self.drops@ =~= carried(old(self).drops@, clear_screen));
        self.seed(cfg, rng);
        let ghost seeded = self.drops@;
        let cells = self.advance(glyphs, rng);
        self.cull();
        let f = Frame { clear_screen, cells };
        assert(frame_outcome(
            carried(old(self).drops@, f.clear_screen),
            seeded,
            f.cells@,
            self.drops@,
            glyphs@,
            width,
            height,
            cfg.column_width,
            cfg.density_milli,
        ));
        f
    }
}

/// The glyphs of a charset, in order.
pub fn glyphs_of(charset: &str) -> (r: Vec<char>)
    ensures
        r@ == charset@,
{
    broadcast use vstd::string::axiom_spec_iter, vstd::string::next_postcondition;

    let mut it = charset.chars();
    let mut out: Vec<char> = Vec::new();
    loop
        invariant
            out@ + it.remaining() == charset@,
            it.decrease() is Some,
            it.obeys_prophetic_iter_laws(),
        ensures
            out@ == charset@,
        decreases it.decrease()->0,
    {
        match it.next() {
            Some(c) => {
                out.push(c);
            },
            None => {
                assert(out@ + it.remaining() =~= out@);
                break ;
            },
        }
    }
    out
}

/// Every terminal width and column width give at least one column.
pub proof fn lemma_columns_at_least_one(width: u16, column_width: u16)
    ensures
        columns_spec(width, column_width) >= 1,
{
}

/// The number of drops seeded per frame depends on the column count and the
/// density alone, and is the ceiling of their product.
pub proof fn lemma_spawn_count_is_ceiling(columns: int, density_milli: int)
    requires
        columns >= 0,
        density_milli >= 0,
    ensures
        spawn_count_spec(columns, density_milli) * 1000 >= columns * density_milli,
        spawn_count_spec(columns, density_milli) * 1000 < columns * density_milli + 1000,
{
}

/// A frame on an unchanged terminal size starts from all the drops of the
/// previous frame.
pub proof fn lemma_unchanged_size_keeps_drops(drops: Seq<RainDrop>)
    ensures
        carried(drops, false) == drops,
{
}

/// The cull keeps exactly the drops above `height + 5`: a drop at
/// `height + 5` or below is gone, and one at `height + 4` stays.
pub proof fn lemma_cull_boundary(drops: Seq<RainDrop>, height: u16, d: RainDrop)
    ensures
        drops.filter(survives(height)).contains(d) <==> (drops.contains(d) && d.row < height
            + CULL_MARGIN),
        drops.contains(d) && d.row >= height + CULL_MARGIN ==> !drops.filter(
            survives(height),
        ).contains(d),
        drops.contains(d) && d.row == height + 4 ==> drops.filter(survives(height)).contains(d),
{
    let kept = drops.filter(survives(height));
    if kept.contains(d) {
        drops.lemma_filter_contains_rev(survives(height), d);
        let j = choose|j: int| 0 <= j < kept.len() && kept[j] == d;
        drops.lemma_filter_pred(survives(height), j);
    }
    if drops.contains(d) && d.row < height + CULL_MARGIN {
        let i = choose|i: int| 0 <= i < drops.len() && drops[i] == d;
        drops.lemma_filter_contains(survives(height), i);
    }
}

/// A freshly seeded drop lies above the screen, and is drawn in its spawn
/// frame exactly when its speed carries it onto a visible row.
pub proof fn lemma_fresh_drop_drawn(d: RainDrop, width: u16, height: u16, column_width: u16)
    requires
        fresh(d, width, height, column_width),
    ensures
        d.row < 0,
        !on_screen(height)(d),
        on_screen(height)(advanced(d)) <==> 0 <= d.row + d.fall_speed < height,
{
}

/// `q`, Escape, Control+C and the configured cancel character end the loop
/// at the poll that sees them; any other character leaves it running.
pub proof fn lemma_cancel_keys(c: char, ctrl: bool, cancel_key: Option<char>)
    ensures
        cancels(KeyPress::Char { c: 'q', ctrl }, cancel_key),
        cancels(KeyPress::Esc, cancel_key),
        cancels(KeyPress::Char { c: 'c', ctrl: true }, cancel_key),
        cancel_key == Some(c) ==> cancels(KeyPress::Char { c, ctrl }, cancel_key),
        c != 'q' && !(c == 'c' && ctrl) && cancel_key != Some(c) ==> !cancels(
            KeyPress::Char { c, ctrl },
            cancel_key,
        ),
        !cancels(KeyPress::Other, cancel_key),
{
}

} // verus!
