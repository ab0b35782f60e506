use vstd::prelude::*;

use crate::text::push_char;

verus! {

/// The glyph drawn for a cell that has `units` eighths of a block filled.
pub open spec fn block_glyph(units: int) -> char {
    if units <= 0 {
        ' '
    } else if units == 1 {
        '▁'
    } else if units == 2 {
        '▂'
    } else if units == 3 {
        '▃'
    } else if units == 4 {
        '▄'
    } else if units == 5 {
        '▅'
    } else if units == 6 {
        '▆'
    } else if units == 7 {
        '▇'
    } else {
        '█'
    }
}

/// Picks the block character for a cell with `units` eighths filled.
pub fn vertical_block(units: isize) -> (c: char)
    ensures
        c == block_glyph(units as int),
{
    if units <= 0 {
        ' '
    } else if units == 1 {
        '▁'
    } else if units == 2 {
        '▂'
    } else if units == 3 {
        '▃'
    } else if units == 4 {
        '▄'
    } else if units == 5 {
        '▅'
    } else if units == 6 {
        '▆'
    } else if units == 7 {
        '▇'
    } else {
        '█'
    }
}


/// Sum of a sequence of bar heights.
pub open spec fn seq_sum(s: Seq<u16>) -> int
    decreases s.len(),
{
    if s.len() == 0 {
        0
    } else {
        seq_sum(s.drop_last()) + s.last()
    }
}

/// First bin that output slot `i` averages when `len` bins shrink to `target` slots.
pub open spec fn window_start(len: int, target: int, i: int) -> int {
    i * len / target
}

/// One past the last bin that output slot `i` averages (never an empty window).
pub open spec fn window_end(len: int, target: int, i: int) -> int {
    let e = (i + 1) * len / target;
    if e > window_start(len, target, i) + 1 {
        e
    } else {
        window_start(len, target, i) + 1
    }
}

/// Integer mean of the bins of window `i`.
pub open spec fn window_mean(bins: Seq<u16>, target: int, i: int) -> int {
    let a = window_start(bins.len() as int, target, i);
    let b = window_end(bins.len() as int, target, i);
    seq_sum(bins.subrange(a, b)) / (b - a)
}

/// The bins resampled to `target` slots: zeros for no input, the input itself
/// when it already fits, and otherwise the mean of each window.
pub open spec fn resampled(bins: Seq<u16>, target: nat) -> Seq<u16> {
    if bins.len() == 0 {
        Seq::new(target, |i: int| 0u16)
    } else if bins.len() <= target {
        bins
    } else {
        Seq::new(target, |i: int| window_mean(bins, target as int, i) as u16)
    }
}

proof fn lemma_window_bounds(len: int, target: int, i: int)
    requires
        0 < target < len,
        0 <= i < target,
    ensures
        0 <= window_start(len, target, i) < window_end(len, target, i) <= len,
{
    let a = i * len;
    let b = (i + 1) * len;
    assert(0 <= a) by (nonlinear_arith)
        requires 0 <= i, 0 < len, a == i * len;
    assert(a < target * len) by (nonlinear_arith)
        requires i < target, 0 < len, a == i * len;
    assert(b <= target * len) by (nonlinear_arith)
        requires i + 1 <= target, 0 < len, b == (i + 1) * len;
    assert(a / target < len) by (nonlinear_arith)
        requires a < target * len, 0 < target, 0 <= a;
    assert(b / target <= len) by (nonlinear_arith)
        requires b <= target * len, 0 < target, 0 <= b;
    assert(0 <= a / target) by (nonlinear_arith)
        requires 0 <= a, 0 < target;
    assert(b == a + len) by (nonlinear_arith)
        requires a == i * len, b == (i + 1) * len;
}

proof fn lemma_sum_bound(s: Seq<u16>)
    ensures
        0 <= seq_sum(s) <= 65535 * s.len(),
    decreases s.len(),
{
    if s.len() > 0 {
        lemma_sum_bound(s.drop_last());
    }
}

proof fn lemma_sum_bound_by(s: Seq<u16>, m: int)
    requires
        forall|i: int| 0 <= i < s.len() ==> #[trigger] s[i] <= m,
        m >= 0,
    ensures
        seq_sum(s) <= m * s.len(),
    decreases s.len(),
{
    if s.len() > 0 {
        lemma_sum_bound_by(s.drop_last(), m);
        assert(m * (s.len() - 1) + m == m * s.len()) by (nonlinear_arith);
    }
}

/// Resampling never makes a bar taller than the tallest input bar: when every
/// input bin is at most `m`, so is every output slot.
pub proof fn resampling_keeps_height(bins: Seq<u16>, target: nat, m: int)
    requires
        forall|i: int| 0 <= i < bins.len() ==> #[trigger] bins[i] <= m,
        m >= 0,
    ensures
        resampled(bins, target).len() == target || (0 < bins.len() <= target && resampled(bins, target) == bins),
        forall|i: int| 0 <= i < resampled(bins, target).len() ==> #[trigger] resampled(bins, target)[i] <= m,
{
    if bins.len() > target {
        assert forall|i: int| 0 <= i < target implies #[trigger] resampled(bins, target)[i] <= m by {
            lemma_window_bounds(bins.len() as int, target as int, i);
            let a = window_start(bins.len() as int, target as int, i);
            let b = window_end(bins.len() as int, target as int, i);
            let w = bins.subrange(a, b);
            lemma_sum_bound_by(w, m);
            lemma_sum_bound(w);
            let t = seq_sum(w);
            let n = b - a;
            assert(t / n <= m) by (nonlinear_arith)
                requires t <= m * n, n > 0, t >= 0;
            assert(t / n <= 65535) by (nonlinear_arith)
                requires t <= 65535 * n, n > 0, t >= 0;
            assert(t / n >= 0) by (nonlinear_arith)
                requires n > 0, t >= 0;
        }
    }
}

proof fn lemma_sum_constant(s: Seq<u16>, v: u16)
    requires
        forall|i: int| 0 <= i < s.len() ==> #[trigger] s[i] == v,
    ensures
        seq_sum(s) == v * s.len(),
    decreases s.len(),
{
    if s.len() > 0 {
        lemma_sum_constant(s.drop_last(), v);
        assert(v * (s.len() - 1) + v == v * s.len()) by (nonlinear_arith);
    }
}

/// Resampling a level row keeps its level: when every one of at least one
/// bin is `v`, every output slot is `v` too, and there are `target` of them
/// unless the bins already fit.
pub proof fn resampling_keeps_level(bins: Seq<u16>, target: nat, v: u16)
    requires
        bins.len() > 0,
        forall|i: int| 0 <= i < bins.len() ==> #[trigger] bins[i] == v,
    ensures
        bins.len() > target ==> resampled(bins, target).len() == target,
        bins.len() <= target ==> resampled(bins, target) == bins,
        forall|i: int| 0 <= i < resampled(bins, target).len() ==> #[trigger] resampled(bins, target)[i] == v,
{
    if bins.len() > target {
        assert forall|i: int| 0 <= i < target implies #[trigger] resampled(bins, target)[i] == v by {
            lemma_window_bounds(bins.len() as int, target as int, i);
            let a = window_start(bins.len() as int, target as int, i);
            let b = window_end(bins.len() as int, target as int, i);
            let w = bins.subrange(a, b);
            lemma_sum_constant(w, v);
            let n = b - a;
            assert((v * n) / n == v) by (nonlinear_arith)
                requires n > 0;
        }
    }
}

/// Shrinks (or pads) a row of bar heights to `target_count` slots.
pub fn resample_bins(bins: &[u16], target_count: usize) -> (out: Vec<u16>)
    requires
        bins@.len() > target_count ==> bins@.len() * target_count <= usize::MAX,
    ensures
        out@ == resampled(bins@, target_count as nat),
{
    let len = bins.len();
    if len == 0 {
        let mut out: Vec<u16> = Vec::new();
        let mut k: usize = 0;
        while k < target_count
            invariant
                k <= target_count,
                out@ == Seq::new(k as nat, |i: int| 0u16),
            decreases target_count - k,
        {
            out.push(0);
            k = k + 1;
            assert(out@ =~= Seq::new(k as nat, |i: int| 0u16));
        }
        assert(out@ =~= resampled(bins@, target_count as nat));
        return out;
    }
    if len <= target_count {
        let mut out: Vec<u16> = Vec::new();
        let mut k: usize = 0;
        while k < len
            invariant
                k <= len,
                len == bins@.len(),
                out@ == bins@.subrange(0, k as int),
            decreases len - k,
        {
            out.push(bins[k]);
            k = k + 1;
            assert(out@ =~= bins@.subrange(0, k as int));
        }
        assert(out@ =~= bins@);
        return out;
    }
    let ghost spec_out = resampled(bins@, target_count as nat);
    let mut out: Vec<u16> = Vec::new();
    let mut i: usize = 0;
    while i < target_count
        invariant
            target_count < len,
            len == bins@.len(),
            len * target_count <= usize::MAX,
            i <= target_count,
            spec_out == resampled(bins@, target_count as nat),
            out@ == spec_out.subrange(0, i as int),
        decreases target_count - i,
    {
        proof {
            lemma_window_bounds(len as int, target_count as int, i as int);
            assert((i + 1) * len <= target_count * len) by (nonlinear_arith)
                requires i + 1 <= target_count, 0 < len;
            assert(i * len <= (i + 1) * len) by (nonlinear_arith)
                requires 0 < len;
            assert(target_count * len == len * target_count) by (nonlinear_arith);
        }
        let start = i * len / target_count;
        let e = (i + 1) * len / target_count;
        let end = if e > start + 1 { e } else { start + 1 };
        assert(start == window_start(len as int, target_count as int, i as int));
        assert(end == window_end(len as int, target_count as int, i as int));
        let mut sum: u128 = 0;
        let mut k: usize = start;
        while k < end
            invariant
                start <= k <= end <= len,
                len == bins@.len(),
                sum == seq_sum(bins@.subrange(start as int, k as int)),
            decreases end - k,
        {
            proof {
                lemma_sum_bound(bins@.subrange(start as int, k as int));
                assert(bins@.subrange(start as int, k + 1).drop_last() =~= bins@.subrange(
                    start as int,
                    k as int,
                ));
            }
            sum = sum + bins[k] as u128;
            k = k + 1;
        }
        proof {
            lemma_sum_bound(bins@.subrange(start as int, end as int));
            let n = (end - start) as int;
            let t = sum as int;
            assert(t / n <= 65535) by (nonlinear_arith)
                requires t <= 65535 * n, n > 0, t >= 0;
        }
        let mean = (sum / ((end - start) as u128)) as u16;
        out.push(mean);
        i = i + 1;
        assert(out@ =~= spec_out.subrange(0, i as int));
    }
    assert(out@ =~= spec_out);
    out
}


/// `bars` bars, separated by equal gaps, fill exactly `width` columns.
pub open spec fn bars_fit(width: int, bars: int) -> bool {
    bars >= 2 && (width - bars) % (bars - 1) == 0
}

/// Searching down from `b` bars, the first count that leaves equal gaps in
/// `width` columns, with its gap width; a single bar when none does.
pub open spec fn layout_search(b: int, width: int) -> (int, int)
    decreases b,
{
    if b < 2 {
        (1, 0)
    } else if bars_fit(width, b) {
        (b, (width - b) / (b - 1))
    } else {
        layout_search(b - 1, width)
    }
}

/// The bar count and gap width used for `max_bars` bars in `width` columns.
pub open spec fn bar_layout(max_bars: int, width: int) -> (int, int) {
    let m = if max_bars < width { max_bars } else { width };
    if m <= 1 {
        (1, 0)
    } else {
        layout_search(m, width)
    }
}

proof fn lemma_layout_fills(width: int, bars: int, gap: int)
    requires
        bars_fit(width, bars),
        bars <= width,
        gap == (width - bars) / (bars - 1),
    ensures
        bars + gap * (bars - 1) == width,
{
    let d = bars - 1;
    let f = width - bars;
    assert(f == d * (f / d) + f % d) by (nonlinear_arith)
        requires d > 0;
    assert(gap * d == d * gap) by (nonlinear_arith);
}

/// Chooses the number of bars and the gap between them for a row `width`
/// columns wide.  With two or more bars, they fill the row exactly, and no
/// larger count up to the limit would leave equal gaps.
pub fn choose_bar_layout(max_bars: usize, width: usize) -> (r: (usize, usize))
    ensures
        (r.0 as int, r.1 as int) == bar_layout(max_bars as int, width as int),
        r.0 >= 1,
        r.0 >= 2 ==> {
            &&& r.0 <= max_bars
            &&& r.0 + r.1 * (r.0 - 1) == width
            &&& forall|b: int|
                r.0 < b <= (if max_bars < width { max_bars } else { width }) ==> !#[trigger] bars_fit(
                    width as int,
                    b,
                )
        },
{
    let m = if max_bars < width { max_bars } else { width };
    if m <= 1 {
        return (1, 0);
    }
    let mut bars: usize = m;
    loop
        invariant
            m == (if max_bars < width { max_bars } else { width }),
            2 <= bars <= m,
            m <= width,
            m <= max_bars,
            bar_layout(max_bars as int, width as int) == layout_search(bars as int, width as int),
            forall|b: int| bars < b <= m ==> !#[trigger] bars_fit(width as int, b),
        decreases bars,
    {
        let gaps = bars - 1;
        let free = width - bars;
        if free % gaps == 0 {
            let gap = free / gaps;
            proof {
                lemma_layout_fills(width as int, bars as int, gap as int);
            }
            return (bars, gap);
        }
        assert(bars != 2) by {
            if bars == 2 {
                assert(free % 1 == 0) by (nonlinear_arith);
            }
        }
        bars = bars - 1;
    }
}

proof fn lemma_layout_bounds(max_bars: int, width: int, b: int)
    requires
        2 <= b <= width,
        b <= max_bars,
    ensures
        ({
            let r = layout_search(b, width);
            2 <= r.0 <= b && r.0 + r.1 * (r.0 - 1) == width && r.1 >= 0
        }),
    decreases b,
{
    if bars_fit(width, b) {
        lemma_layout_fills(width, b, (width - b) / (b - 1));
        assert((width - b) / (b - 1) >= 0) by (nonlinear_arith)
            requires width - b >= 0, b - 1 > 0;
    } else {
        if b == 2 {
            assert((width - 2) % 1 == 0) by (nonlinear_arith);
        }
        lemma_layout_bounds(max_bars, width, b - 1);
    }
}

/// The row of `width` columns that shows `bins`: the bins resampled to the
/// chosen number of bars, one bar every `gap + 1` columns from the left, or a
/// single bar in the middle column; every other column is empty.
pub open spec fn spread(bins: Seq<u16>, width: int) -> Seq<u16> {
    let (slots, gap) = bar_layout(bins.len() as int, width);
    let sampled = resampled(bins, slots as nat);
    Seq::new(
        width as nat,
        |c: int|
            if slots <= 1 {
                if c == width / 2 {
                    sampled[0]
                } else {
                    0u16
                }
            } else if c % (gap + 1) == 0 && c / (gap + 1) < slots {
                sampled[c / (gap + 1)]
            } else {
                0u16
            },
    )
}

proof fn lemma_slot_column(c: int, i: int, k: int)
    requires
        k > 0,
        c >= 0,
        i >= 0,
    ensures
        (c % k == 0 && c / k == i) <==> c == i * k,
{
    vstd::arithmetic::div_mod::lemma_fundamental_div_mod(c, k);
    if c == i * k {
        vstd::arithmetic::div_mod::lemma_mod_multiples_basic(i, k);
        vstd::arithmetic::div_mod::lemma_div_multiples_vanish(i, k);
        assert(k * i == i * k) by (nonlinear_arith);
    }
    if c % k == 0 && c / k == i {
        assert(k * i == i * k) by (nonlinear_arith);
    }
}

/// Resampling `len` bins to the bar count chosen for `width` columns stays
/// within machine words.
pub open spec fn resample_fits(len: int, width: int) -> bool {
    let slots = bar_layout(len, width).0;
    len > slots ==> len * slots <= usize::MAX
}

/// How a row places its bars: with `b` bars and gap `g` chosen for the row and
/// the bins resampled to `b` values, the row is `width` columns wide; with two
/// or more bars, value `i` stands in column `i * (g + 1)` (so the first bar is
/// in the first column and the last in the last) and every other column is
/// empty (a column `j` holds a bar exactly when `j % (g + 1) == 0` and
/// `j / (g + 1) < b`); with one bar, it stands in the middle column and every
/// other column is empty.
pub proof fn spread_places_bars(bins: Seq<u16>, width: int)
    requires
        width > 0,
    ensures
        ({
            let (b, g) = bar_layout(bins.len() as int, width);
            let s = resampled(bins, b as nat);
            let row = spread(bins, width);
            &&& row.len() == width
            &&& s.len() == b
            &&& b >= 2 ==> {
                &&& forall|i: int| 0 <= i < b ==> #[trigger] row[i * (g + 1)] == s[i]
                &&& row[0] == s[0]
                &&& row[width - 1] == s[b - 1]
                &&& forall|j: int|
                    0 <= j < width && (j % (g + 1) != 0 || j / (g + 1) >= b) ==> #[trigger] row[j]
                        == 0
            }
            &&& b < 2 ==> {
                &&& b == 1
                &&& row[width / 2] == s[0]
                &&& forall|j: int| 0 <= j < width && j != width / 2 ==> #[trigger] row[j] == 0
            }
        }),
{
    let len = bins.len() as int;
    let m = if len < width { len } else { width };
    let (b, g) = bar_layout(len, width);
    let s = resampled(bins, b as nat);
    let row = spread(bins, width);
    if m >= 2 {
        lemma_layout_bounds(len, width, m);
        assert(g >= 0);
        let k = g + 1;
        assert forall|i: int| 0 <= i < b implies #[trigger] row[i * (g + 1)] == s[i] by {
            assert(i * k <= (b - 1) * k) by (nonlinear_arith)
                requires 0 <= i <= b - 1, k >= 1;
            assert((b - 1) * k == b - 1 + g * (b - 1)) by (nonlinear_arith)
                requires k == g + 1;
            assert(i * k >= 0) by (nonlinear_arith)
                requires i >= 0, k >= 1;
            lemma_slot_column(i * k, i, k);
        }
        assert(row[0 * (g + 1)] == s[0]);
        assert((b - 1) * (g + 1) == width - 1) by (nonlinear_arith)
            requires b + g * (b - 1) == width;
        assert(row[(b - 1) * (g + 1)] == s[b - 1]);
        assert forall|j: int|
            0 <= j < width && (j % (g + 1) != 0 || j / (g + 1) >= b) implies #[trigger] row[j]
            == 0 by {
        }
    }
}

/// Lays the bins out across a row `width` columns wide.
pub fn spread_bins(bins: &[u16], width: usize) -> (out: Vec<u16>)
    requires
        resample_fits(bins@.len() as int, width as int),
    ensures
        out@ == spread(bins@, width as int),
{
    if width == 0 {
        let out: Vec<u16> = Vec::new();
        assert(out@ =~= spread(bins@, width as int));
        return out;
    }
    let (slot_count, gap_width) = choose_bar_layout(bins.len(), width);
    let target = if slot_count > 1 { slot_count } else { 1 };
    proof {
        if slot_count >= 2 {
            lemma_layout_bounds(bins@.len() as int, width as int, if bins@.len() < width {
                bins@.len() as int
            } else {
                width as int
            });
        }
    }
    let sampled = resample_bins(bins, target);
    let ghost sampled_len = sampled@.len();
    assert(sampled_len == target);
    let mut output: Vec<u16> = Vec::new();
    let mut k: usize = 0;
    while k < width
        invariant
            k <= width,
            output@ == Seq::new(k as nat, |c: int| 0u16),
        decreases width - k,
    {
        output.push(0);
        k = k + 1;
        assert(output@ =~= Seq::new(k as nat, |c: int| 0u16));
    }
    if slot_count <= 1 {
        output.set(width / 2, sampled[0]);
        assert(output@ =~= spread(bins@, width as int));
        return output;
    }
    assert(gap_width <= gap_width * (slot_count - 1)) by (nonlinear_arith)
        requires slot_count >= 2, gap_width >= 0;
    let step = gap_width + 1;
    let mut i: usize = 0;
    while i < slot_count
        invariant
            2 <= slot_count,
            step == gap_width + 1,
            slot_count + gap_width * (slot_count - 1) == width,
            sampled@.len() == slot_count,
            i <= slot_count,
            output@.len() == width,
            forall|c: int|
                0 <= c < width ==> #[trigger] output@[c] == if c % (step as int) == 0 && c / (step as int) < i {
                    sampled@[c / (step as int)]
                } else {
                    0u16
                },
        decreases slot_count - i,
    {
        proof {
            assert(i * step <= (slot_count - 1) * step) by (nonlinear_arith)
                requires i <= slot_count - 1, step >= 1;
            assert((slot_count - 1) * step == slot_count - 1 + gap_width * (slot_count - 1))
                by (nonlinear_arith)
                requires step == gap_width + 1;
        }
        let column = i * step;
        output.set(column, sampled[i]);
        proof {
            assert forall|c: int| 0 <= c < width implies #[trigger] output@[c] == if c % (step as int) == 0
                && c / (step as int) < i + 1 {
                sampled@[c / (step as int)]
            } else {
                0u16
            } by {
                lemma_slot_column(c, i as int, step as int);
            }
        }
        i = i + 1;
    }
    assert(output@ =~= spread(bins@, width as int));
    output
}


/// Eighths of a block filled in row `row` (counted from the top) of a column
/// of height `height` that shows `value` percent.
pub open spec fn cell_units(value: u16, height: int, row: int) -> int {
    (value as int * height * 8) / 100 - (height - row - 1) * 8
}

/// One text row of the spectrum drawn from the column values `display`.
pub open spec fn spectrum_row(display: Seq<u16>, height: int, row: int) -> Seq<char> {
    Seq::new(display.len(), |c: int| block_glyph(cell_units(display[c], height, row)))
}

/// The spectrum as `height` rows of `width` characters, or nothing when either
/// dimension is zero.
pub open spec fn spectrum_rows(bins: Seq<u16>, width: int, height: int) -> Seq<Seq<char>> {
    if width == 0 || height == 0 {
        Seq::empty()
    } else {
        Seq::new(height as nat, |r: int| spectrum_row(spread(bins, width), height, r))
    }
}

/// The drawn spectrum is a grid of `height` rows of `width` cells each, and a
/// cell is filled (not blank) exactly when its column's value reaches above
/// the cell's lower edge.
pub proof fn spectrum_grid_shape(bins: Seq<u16>, width: int, height: int, r: int, c: int)
    requires
        width > 0,
        height > 0,
        0 <= r < height,
        0 <= c < width,
    ensures
        spectrum_rows(bins, width, height).len() == height,
        spectrum_rows(bins, width, height)[r].len() == width,
        (spectrum_rows(bins, width, height)[r][c] != ' ') == (cell_units(
            spread(bins, width)[c],
            height,
            r,
        ) > 0),
{
}

/// How many eighths of a cell a block character shows filled.
pub open spec fn filled_eighths(ch: char) -> int {
    if ch == '█' {
        8
    } else if ch == '▇' {
        7
    } else if ch == '▆' {
        6
    } else if ch == '▅' {
        5
    } else if ch == '▄' {
        4
    } else if ch == '▃' {
        3
    } else if ch == '▂' {
        2
    } else if ch == '▁' {
        1
    } else {
        0
    }
}

/// A column fills from the bottom: in a panel `height` rows high, a column
/// showing `v` percent has `floor(v * height * 8 / 100)` eighths filled,
/// counted from the bottom row up (capped at the panel), so the `k`-th cell
/// from the bottom holds the eighths beyond the `8 * k` below it, at most 8;
/// in particular the bottom cell is drawn once `v * height * 8` reaches 100.
pub proof fn column_fills_from_bottom(bins: Seq<u16>, width: int, height: int, r: int, c: int)
    requires
        width > 0,
        height > 0,
        0 <= r < height,
        0 <= c < width,
    ensures
        ({
            let v = spread(bins, width)[c] as int;
            let total = v * height * 8 / 100;
            let k = height - 1 - r;
            let e = filled_eighths(spectrum_rows(bins, width, height)[r][c]);
            &&& e == (if total <= 8 * k {
                0
            } else if total >= 8 * k + 8 {
                8
            } else {
                total - 8 * k
            })
            &&& (v * height * 8 >= 100 ==> spectrum_rows(bins, width, height)[height - 1][c]
                != ' ')
        }),
{
    let v = spread(bins, width)[c] as int;
    let total = v * height * 8 / 100;
    assert(v * height * 8 >= 100 ==> total >= 1) by (nonlinear_arith)
        requires total == v * height * 8 / 100;
}

/// Draws the spectrum into `height` rows of `width` block characters.
pub fn render_spectrum_text(bins: &[u16], width: u16, height: u16) -> (rows: Vec<String>)
    requires
        resample_fits(bins@.len() as int, width as int),
    ensures
        rows@.len() == spectrum_rows(bins@, width as int, height as int).len(),
        forall|r: int|
            0 <= r < rows@.len() ==> #[trigger] rows@[r]@ == spectrum_rows(
                bins@,
                width as int,
                height as int,
            )[r],
{
    let w = width as usize;
    let h = height as usize;
    let mut rows: Vec<String> = Vec::new();
    if w == 0 || h == 0 {
        return rows;
    }
    let display = spread_bins(bins, w);
    let ghost target = spectrum_rows(bins@, width as int, height as int);
    let mut row: usize = 0;
    while row < h
        invariant
            row <= h,
            h == height,
            w == width,
            w > 0 && h > 0,
            display@ == spread(bins@, w as int),
            display@.len() == w,
            target == spectrum_rows(bins@, width as int, height as int),
            rows@.len() == row,
            forall|r: int| 0 <= r < row ==> #[trigger] rows@[r]@ == target[r],
        decreases h - row,
    {
        let mut line = String::new();
        let mut col: usize = 0;
        while col < w
            invariant
                col <= w,
                row < h,
                h == height,
                display@.len() == w,
                line@ == spectrum_row(display@, h as int, row as int).subrange(0, col as int),
            decreases w - col,
        {
            let value = display[col];
            assert((value as u64) * (h as u64) <= 65535 * 65535) by (nonlinear_arith)
                requires value <= 65535, h <= 65535;
            let total_units: u64 = (value as u64) * (h as u64) * 8 / 100;
            let below: u64 = ((h - row - 1) as u64) * 8;
            let clamped: isize = if total_units >= below + 8 {
                8
            } else if total_units <= below {
                0
            } else {
                (total_units - below) as isize
            };
            let glyph = vertical_block(clamped);
            assert(glyph == block_glyph(cell_units(value, h as int, row as int)));
            push_char(&mut line, glyph);
            col = col + 1;
            assert(line@ =~= spectrum_row(display@, h as int, row as int).subrange(0, col as int));
        }
        assert(line@ =~= spectrum_row(display@, h as int, row as int));
        rows.push(line);
        row = row + 1;
    }
    rows
}

/// The glyph the tab title uses for a bar at `value` percent.
pub open spec fn tab_glyph(value: u16) -> char {
    let v: int = if value < 100 { value as int } else { 100 };
    let k = v * 8 / 100;
    if k == 0 {
        '▁'
    } else if k == 1 {
        '▁'
    } else if k == 2 {
        '▂'
    } else if k == 3 {
        '▃'
    } else if k == 4 {
        '▄'
    } else if k == 5 {
        '▅'
    } else if k == 6 {
        '▆'
    } else if k == 7 {
        '▇'
    } else {
        '█'
    }
}

/// Six glyphs sampled evenly across the spectrum, from the first bar to the
/// last, or nothing for an empty spectrum.
pub open spec fn tab_animation(spectrum: Seq<u16>) -> Seq<char> {
    if spectrum.len() == 0 {
        Seq::empty()
    } else {
        Seq::new(6, |i: int| tab_glyph(spectrum[i * (spectrum.len() - 1) / 5]))
    }
}

/// A six-character animation of the spectrum for the terminal tab title.
pub fn spectrum_tab_animation(spectrum: &[u16]) -> (s: String)
    requires
        spectrum@.len() > 0 ==> (spectrum@.len() - 1) * 5 <= usize::MAX,
    ensures
        s@ == tab_animation(spectrum@),
{
    let len = spectrum.len();
    let mut s = String::new();
    if len == 0 {
        return s;
    }
    let mut i: usize = 0;
    while i < 6
        invariant
            i <= 6,
            len == spectrum@.len(),
            len > 0,
            (len - 1) * 5 <= usize::MAX,
            s@ == tab_animation(spectrum@).subrange(0, i as int),
        decreases 6 - i,
    {
        assert(i * (len - 1) <= 5 * (len - 1)) by (nonlinear_arith)
            requires i <= 6, len > 0, i < 6;
        assert(i * (len - 1) / 5 <= len - 1) by (nonlinear_arith)
            requires i * (len - 1) <= 5 * (len - 1), len > 0;
        let idx = i * (len - 1) / 5;
        let raw = spectrum[idx];
        let val: usize = if raw < 100 { raw as usize } else { 100 };
        let k = val * 8 / 100;
        let glyph = if k == 0 {
            '▁'
        } else if k == 1 {
            '▁'
        } else if k == 2 {
            '▂'
        } else if k == 3 {
            '▃'
        } else if k == 4 {
            '▄'
        } else if k == 5 {
            '▅'
        } else if k == 6 {
            '▆'
        } else if k == 7 {
            '▇'
        } else {
            '█'
        };
        push_char(&mut s, glyph);
        i = i + 1;
        assert(s@ =~= tab_animation(spectrum@).subrange(0, i as int));
    }
    assert(s@ =~= tab_animation(spectrum@));
    s
}

} // verus!
