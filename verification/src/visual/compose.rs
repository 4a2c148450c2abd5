//! The plan of a drawn frame: which primitives are drawn, in which order, and
//! which point of the analysis each one shows.
use crate::visual::spacing::{
    bounded_count, bounded_index, drawn, picks_are_even, picks_are_in_order, spaced,
};
use vstd::prelude::*;

verus! {

/// The waterfall resolution where none is asked for.
pub const DEFAULT_SPECTROGRAM_ROWS: usize = 64;

pub const DEFAULT_SPECTROGRAM_BANDS: usize = 48;

/// The most points of each view that are drawn.
#[derive(Clone, Copy, Debug, PartialEq, Eq)]
pub struct SceneLimits {
    pub waveform_points: usize,
    pub spectrum_points: usize,
    pub goniometer_points: usize,
    pub spectrogram_rows: usize,
    pub spectrogram_bands: usize,
}

/// What there is to draw: which readings exist, and how long each row is.
#[derive(Clone, Copy, Debug, PartialEq, Eq)]
pub struct SceneShape {
    pub momentary: bool,
    pub short_term: bool,
    pub integrated: bool,
    pub range: bool,
    pub waveform: usize,
    pub spectrum: usize,
    /// How many spectrogram cells there are, row after row.
    pub spectrogram: usize,
    pub spectrogram_rows: usize,
    pub spectrogram_bands: usize,
    pub goniometer: usize,
}

/// One primitive of the scene.
#[derive(Clone, Copy, Debug, PartialEq, Eq)]
pub enum Draw {
    /// A vertical divider between the rooms.
    GridColumn { index: usize },
    /// A horizontal divider between the rooms.
    GridRow { index: usize },
    /// The runway of a meter: momentary, short-term, integrated, true peak.
    MeterRail { meter: usize },
    /// The level on a runway.
    MeterFill { meter: usize },
    /// The line on top of a level.
    MeterPeak { meter: usize },
    /// The rail of the loudness range.
    RangeRail,
    /// The loudness range on its rail.
    RangeFill,
    /// The upper edge of the waveform, up to the drawn point `draw` of `count`.
    WaveTop { draw: usize, count: usize, previous: usize, source: usize },
    /// The lower edge of the waveform, up to the drawn point `draw` of `count`.
    WaveBottom { draw: usize, count: usize, previous: usize, source: usize },
    /// A bar of the spectrum.
    SpectrumBar { draw: usize, count: usize, source: usize },
    /// A cell of the waterfall.
    Cell { row: usize, rows: usize, band: usize, bands: usize, source: usize },
    /// An axis of the goniometer.
    Axis { index: usize },
    /// A point of the goniometer.
    Point { source: usize },
}

impl Draw {
    /// Whether the primitive is a line.
    pub open spec fn is_line(self) -> bool {
        match self {
            Draw::GridColumn { .. } => true,
            Draw::GridRow { .. } => true,
            Draw::MeterPeak { .. } => true,
            Draw::WaveTop { .. } => true,
            Draw::WaveBottom { .. } => true,
            Draw::Axis { .. } => true,
            _ => false,
        }
    }

    /// Whether the primitive is a dot.
    pub open spec fn is_dot(self) -> bool {
        match self {
            Draw::Point { .. } => true,
            _ => false,
        }
    }

    /// Whether the primitive is a rectangle.
    pub open spec fn is_quad(self) -> bool {
        !self.is_line() && !self.is_dot()
    }
}

/// The dividers of the four rooms.
pub open spec fn grid_part() -> Seq<Draw> {
    Seq::new(4, |i: int| Draw::GridColumn { index: i as usize }) + Seq::new(
        4,
        |i: int| Draw::GridRow { index: i as usize },
    )
}

/// One runway, with its level where there is one.
pub open spec fn runway(meter: usize, present: bool) -> Seq<Draw> {
    if present {
        seq![
            Draw::MeterRail { meter },
            Draw::MeterFill { meter },
            Draw::MeterPeak { meter },
        ]
    } else {
        seq![Draw::MeterRail { meter }]
    }
}

/// The four runways and the rail of the loudness range.
pub open spec fn meter_part(shape: SceneShape) -> Seq<Draw> {
    runway(0, shape.momentary) + runway(1, shape.short_term) + runway(2, shape.integrated)
        + runway(3, true) + (if shape.range {
        seq![Draw::RangeRail, Draw::RangeFill]
    } else {
        seq![Draw::RangeRail]
    })
}

/// Two edges between every two neighbouring points of the waveform.
pub open spec fn waveform_part(len: int, limit: int) -> Seq<Draw> {
    let count = drawn(len, limit);
    if count <= 1 {
        Seq::empty()
    } else {
        Seq::new(
            (2 * (count - 1)) as nat,
            |k: int|
                {
                    let draw = k / 2 + 1;
                    let previous = spaced(draw - 1, count, len) as usize;
                    let source = spaced(draw, count, len) as usize;
                    if k % 2 == 0 {
                        Draw::WaveTop {
                            draw: draw as usize,
                            count: count as usize,
                            previous,
                            source,
                        }
                    } else {
                        Draw::WaveBottom {
                            draw: draw as usize,
                            count: count as usize,
                            previous,
                            source,
                        }
                    }
                },
        )
    }
}

/// One bar for each band that is shown.
pub open spec fn spectrum_part(len: int, limit: int) -> Seq<Draw> {
    let count = drawn(len, limit);
    Seq::new(
        count as nat,
        |k: int|
            Draw::SpectrumBar {
                draw: k as usize,
                count: count as usize,
                source: spaced(k, count, len) as usize,
            },
    )
}

/// How many whole rows of the waterfall there are.
pub open spec fn available_rows(cells: int, rows: int, bands: int) -> int {
    if rows == 0 || bands == 0 {
        0
    } else {
        drawn(rows, cells / bands)
    }
}

/// One cell of the waterfall.
pub open spec fn cell(
    row: int,
    band: int,
    available: int,
    bands: int,
    drawn_rows: int,
    drawn_bands: int,
) -> Draw {
    Draw::Cell {
        row: row as usize,
        rows: drawn_rows as usize,
        band: band as usize,
        bands: drawn_bands as usize,
        source: (spaced(row, drawn_rows, available) * bands + spaced(
            band,
            drawn_bands,
            bands,
        )) as usize,
    }
}

/// One cell for each row and band that is shown, row after row.
pub open spec fn spectrogram_part(shape: SceneShape, limits: SceneLimits) -> Seq<Draw> {
    let bands = shape.spectrogram_bands as int;
    let available = available_rows(
        shape.spectrogram as int,
        shape.spectrogram_rows as int,
        bands,
    );
    let drawn_rows = drawn(available, limits.spectrogram_rows as int);
    let drawn_bands = drawn(bands, limits.spectrogram_bands as int);
    Seq::new(
        (drawn_rows * drawn_bands) as nat,
        |k: int|
            cell(k / drawn_bands, k % drawn_bands, available, bands, drawn_rows, drawn_bands),
    )
}

/// The axes of the goniometer and its points.
pub open spec fn goniometer_part(len: int, limit: int) -> Seq<Draw> {
    let count = drawn(len, limit);
    seq![Draw::Axis { index: 0 }, Draw::Axis { index: 1 }] + Seq::new(
        count as nat,
        |k: int| Draw::Point { source: spaced(k, count, len) as usize },
    )
}

/// The whole scene.
pub open spec fn scene_plan(shape: SceneShape, limits: SceneLimits) -> Seq<Draw> {
    grid_part() + meter_part(shape) + waveform_part(
        shape.waveform as int,
        limits.waveform_points as int,
    ) + spectrum_part(shape.spectrum as int, limits.spectrum_points as int) + spectrogram_part(
        shape,
        limits,
    ) + goniometer_part(shape.goniometer as int, limits.goniometer_points as int)
}

/// How many primitives of a kind a plan has.
pub open spec fn counted(plan: Seq<Draw>, kind: spec_fn(Draw) -> bool) -> int
    decreases plan.len(),
{
    if plan.len() == 0 {
        0
    } else {
        counted(plan.drop_last(), kind) + (if kind(plan.last()) {
            1int
        } else {
            0int
        })
    }
}

/// The lines of two plans are those of the first and those of the second.
proof fn counted_adds(first: Seq<Draw>, second: Seq<Draw>, kind: spec_fn(Draw) -> bool)
    ensures
        counted(first + second, kind) == counted(first, kind) + counted(second, kind),
    decreases second.len(),
{
    if second.len() == 0 {
        assert(first + second =~= first);
    } else {
        assert((first + second).drop_last() =~= first + second.drop_last());
        counted_adds(first, second.drop_last(), kind);
    }
}

/// A plan whose primitives all are of a kind, or none of which is.
proof fn counted_all_or_none(plan: Seq<Draw>, kind: spec_fn(Draw) -> bool, all: bool)
    requires
        forall|i: int| 0 <= i < plan.len() ==> kind(#[trigger] plan[i]) == all,
    ensures
        counted(plan, kind) == (if all {
            plan.len() as int
        } else {
            0
        }),
    decreases plan.len(),
{
    if plan.len() > 0 {
        counted_all_or_none(plan.drop_last(), kind, all);
    }
}

/// What the runways and the range rail come to.
proof fn meters_counted(shape: SceneShape)
    ensures
        counted(meter_part(shape), |draw: Draw| draw.is_line()) <= 4,
        counted(meter_part(shape), |draw: Draw| draw.is_quad()) <= 10,
        counted(meter_part(shape), |draw: Draw| draw.is_dot()) == 0,
{
    let line = |draw: Draw| draw.is_line();
    let quad = |draw: Draw| draw.is_quad();
    let dot = |draw: Draw| draw.is_dot();
    let range = if shape.range {
        seq![Draw::RangeRail, Draw::RangeFill]
    } else {
        seq![Draw::RangeRail]
    };
    let one = runway(0, shape.momentary);
    let two = runway(1, shape.short_term);
    let three = runway(2, shape.integrated);
    let four = runway(3, true);
    runway_counted(0, shape.momentary);
    runway_counted(1, shape.short_term);
    runway_counted(2, shape.integrated);
    runway_counted(3, true);
    counted_all_or_none(range, line, false);
    counted_all_or_none(range, quad, true);
    counted_all_or_none(range, dot, false);
    counted_adds(one, two, line);
    counted_adds(one + two, three, line);
    counted_adds(one + two + three, four, line);
    counted_adds(one + two + three + four, range, line);
    counted_adds(one, two, quad);
    counted_adds(one + two, three, quad);
    counted_adds(one + two + three, four, quad);
    counted_adds(one + two + three + four, range, quad);
    counted_adds(one, two, dot);
    counted_adds(one + two, three, dot);
    counted_adds(one + two + three, four, dot);
    counted_adds(one + two + three + four, range, dot);
}

/// What one runway comes to.
proof fn runway_counted(meter: usize, present: bool)
    ensures
        counted(runway(meter, present), |draw: Draw| draw.is_line()) <= 1,
        counted(runway(meter, present), |draw: Draw| draw.is_quad()) <= 2,
        counted(runway(meter, present), |draw: Draw| draw.is_dot()) == 0,
{
    let line = |draw: Draw| draw.is_line();
    let quad = |draw: Draw| draw.is_quad();
    let dot = |draw: Draw| draw.is_dot();
    let rail = seq![Draw::MeterRail { meter }];
    let fill = seq![Draw::MeterFill { meter }];
    let peak = seq![Draw::MeterPeak { meter }];
    counted_all_or_none(rail, line, false);
    counted_all_or_none(rail, quad, true);
    counted_all_or_none(rail, dot, false);
    if present {
        counted_all_or_none(fill, line, false);
        counted_all_or_none(fill, quad, true);
        counted_all_or_none(fill, dot, false);
        counted_all_or_none(peak, line, true);
        counted_all_or_none(peak, quad, false);
        counted_all_or_none(peak, dot, false);
        counted_adds(rail, fill, line);
        counted_adds(rail + fill, peak, line);
        counted_adds(rail, fill, quad);
        counted_adds(rail + fill, peak, quad);
        counted_adds(rail, fill, dot);
        counted_adds(rail + fill, peak, dot);
        assert(runway(meter, present) =~= rail + fill + peak);
    } else {
        assert(runway(meter, present) =~= rail);
    }
}

/// What the axes and points of the goniometer come to.
proof fn goniometer_counted(len: int, limit: int)
    requires
        0 <= len,
        0 <= limit,
    ensures
        counted(goniometer_part(len, limit), |draw: Draw| draw.is_line()) == 2,
        counted(goniometer_part(len, limit), |draw: Draw| draw.is_quad()) == 0,
        counted(goniometer_part(len, limit), |draw: Draw| draw.is_dot()) == drawn(len, limit),
{
    let line = |draw: Draw| draw.is_line();
    let quad = |draw: Draw| draw.is_quad();
    let dot = |draw: Draw| draw.is_dot();
    let axes = seq![Draw::Axis { index: 0 }, Draw::Axis { index: 1 }];
    let count = drawn(len, limit);
    let points = Seq::new(
        count as nat,
        |k: int| Draw::Point { source: spaced(k, count, len) as usize },
    );
    counted_all_or_none(axes, line, true);
    counted_all_or_none(axes, quad, false);
    counted_all_or_none(axes, dot, false);
    counted_all_or_none(points, line, false);
    counted_all_or_none(points, quad, false);
    counted_all_or_none(points, dot, true);
    counted_adds(axes, points, line);
    counted_adds(axes, points, quad);
    counted_adds(axes, points, dot);
}

/// The room for lines: dividers, level lines and axes, and two edges between
/// every two neighbouring points of the waveform.
pub open spec fn line_room(limits: SceneLimits) -> int {
    20 + (if limits.waveform_points > 1 {
        2 * (limits.waveform_points - 1)
    } else {
        0
    })
}

/// The room for rectangles: runways with their levels, the range with its rail,
/// one bar for each band and one cell for each place of the waterfall.
pub open spec fn quad_room(limits: SceneLimits) -> int {
    10 + limits.spectrum_points + limits.spectrogram_rows * limits.spectrogram_bands
}

/// However much there is to draw, no scene needs more room than its limits
/// give it: a frame never makes its storage grow.
pub proof fn scene_fits_its_room(shape: SceneShape, limits: SceneLimits)
    ensures
        counted(scene_plan(shape, limits), |draw: Draw| draw.is_line()) <= line_room(limits),
        counted(scene_plan(shape, limits), |draw: Draw| draw.is_quad()) <= quad_room(limits),
        counted(scene_plan(shape, limits), |draw: Draw| draw.is_dot())
            <= limits.goniometer_points,
{
    let line = |draw: Draw| draw.is_line();
    let quad = |draw: Draw| draw.is_quad();
    let dot = |draw: Draw| draw.is_dot();
    let grid = grid_part();
    let meters = meter_part(shape);
    let waveform = waveform_part(shape.waveform as int, limits.waveform_points as int);
    let spectrum = spectrum_part(shape.spectrum as int, limits.spectrum_points as int);
    let spectrogram = spectrogram_part(shape, limits);
    let goniometer = goniometer_part(shape.goniometer as int, limits.goniometer_points as int);
    counted_all_or_none(grid, line, true);
    counted_all_or_none(grid, quad, false);
    counted_all_or_none(grid, dot, false);
    meters_counted(shape);
    counted_all_or_none(waveform, line, true);
    counted_all_or_none(waveform, quad, false);
    counted_all_or_none(waveform, dot, false);
    counted_all_or_none(spectrum, line, false);
    counted_all_or_none(spectrum, quad, true);
    counted_all_or_none(spectrum, dot, false);
    counted_all_or_none(spectrogram, line, false);
    counted_all_or_none(spectrogram, quad, true);
    counted_all_or_none(spectrogram, dot, false);
    goniometer_counted(shape.goniometer as int, limits.goniometer_points as int);
    sum_of_parts(grid, meters, waveform, spectrum, spectrogram, goniometer, line);
    sum_of_parts(grid, meters, waveform, spectrum, spectrogram, goniometer, quad);
    sum_of_parts(grid, meters, waveform, spectrum, spectrogram, goniometer, dot);
    let bands = shape.spectrogram_bands as int;
    let available = available_rows(
        shape.spectrogram as int,
        shape.spectrogram_rows as int,
        bands,
    );
    if shape.spectrogram_rows > 0 && bands > 0 {
        vstd::arithmetic::div_mod::lemma_div_pos_is_pos(shape.spectrogram as int, bands);
    }
    let drawn_rows = drawn(available, limits.spectrogram_rows as int);
    let drawn_bands = drawn(bands, limits.spectrogram_bands as int);
    assert(0 <= drawn_rows * drawn_bands <= limits.spectrogram_rows * limits.spectrogram_bands)
        by (nonlinear_arith)
        requires
            0 <= drawn_rows <= limits.spectrogram_rows,
            0 <= drawn_bands <= limits.spectrogram_bands,
    ;
}

/// The primitives of six parts one after the other.
proof fn sum_of_parts(
    a: Seq<Draw>,
    b: Seq<Draw>,
    c: Seq<Draw>,
    d: Seq<Draw>,
    e: Seq<Draw>,
    f: Seq<Draw>,
    kind: spec_fn(Draw) -> bool,
)
    ensures
        counted(a + b + c + d + e + f, kind) == counted(a, kind) + counted(b, kind) + counted(
            c,
            kind,
        ) + counted(d, kind) + counted(e, kind) + counted(f, kind),
{
    counted_adds(a, b, kind);
    counted_adds(a + b, c, kind);
    counted_adds(a + b + c, d, kind);
    counted_adds(a + b + c + d, e, kind);
    counted_adds(a + b + c + d + e, f, kind);
}

/// A product, as far as it can be counted.
fn saturating_product(one: usize, other: usize) -> (product: usize)
    ensures
        product == (if one * other <= usize::MAX {
            one * other
        } else {
            usize::MAX as int
        }),
{
    match one.checked_mul(other) {
        Some(product) => product,
        None => usize::MAX,
    }
}

impl SceneLimits {
    /// Limits with the usual waterfall.
    pub fn new(waveform_points: usize, spectrum_points: usize, goniometer_points: usize) -> (limits:
        Self)
        ensures
            limits == (SceneLimits {
                waveform_points,
                spectrum_points,
                goniometer_points,
                spectrogram_rows: 64,
                spectrogram_bands: 48,
            }),
    {
        SceneLimits {
            waveform_points,
            spectrum_points,
            goniometer_points,
            spectrogram_rows: DEFAULT_SPECTROGRAM_ROWS,
            spectrogram_bands: DEFAULT_SPECTROGRAM_BANDS,
        }
    }

    /// Limits with an explicit bounded waterfall resolution.
    pub fn with_spectrogram(
        waveform_points: usize,
        spectrum_points: usize,
        goniometer_points: usize,
        spectrogram_rows: usize,
        spectrogram_bands: usize,
    ) -> (limits: Self)
        ensures
            limits == (SceneLimits {
                waveform_points,
                spectrum_points,
                goniometer_points,
                spectrogram_rows,
                spectrogram_bands,
            }),
    {
        SceneLimits {
            waveform_points,
            spectrum_points,
            goniometer_points,
            spectrogram_rows,
            spectrogram_bands,
        }
    }

    /// The room for lines, as far as it can be counted.
    pub fn line_capacity(&self) -> (capacity: usize)
        ensures
            capacity == (if line_room(*self) <= usize::MAX {
                line_room(*self)
            } else {
                usize::MAX as int
            }),
    {
        let edges: usize = if self.waveform_points > 1 {
            saturating_product(self.waveform_points - 1, 2)
        } else {
            0
        };
        edges.saturating_add(20)
    }

    /// The room for rectangles, as far as it can be counted.
    pub fn quad_capacity(&self) -> (capacity: usize)
        ensures
            capacity == (if quad_room(*self) <= usize::MAX {
                quad_room(*self)
            } else {
                usize::MAX as int
            }),
    {
        proof {
            assert(0 <= self.spectrogram_rows * self.spectrogram_bands) by (nonlinear_arith)
                requires
                    0 <= self.spectrogram_rows,
                    0 <= self.spectrogram_bands,
            ;
        }
        let cells: usize = saturating_product(self.spectrogram_rows, self.spectrogram_bands);
        let bars: usize = self.spectrum_points.saturating_add(10);
        bars.saturating_add(cells)
    }
}

/// Plans the dividers.
fn plan_grid(plan: &mut Vec<Draw>)
    ensures
        final(plan)@ == old(plan)@ + grid_part(),
{
    let ghost before = plan@;
    plan.push(Draw::GridColumn { index: 0 });
    plan.push(Draw::GridColumn { index: 1 });
    plan.push(Draw::GridColumn { index: 2 });
    plan.push(Draw::GridColumn { index: 3 });
    plan.push(Draw::GridRow { index: 0 });
    plan.push(Draw::GridRow { index: 1 });
    plan.push(Draw::GridRow { index: 2 });
    plan.push(Draw::GridRow { index: 3 });
    assert(plan@ =~= before + grid_part());
}

/// Plans one runway.
fn plan_runway(plan: &mut Vec<Draw>, meter: usize, present: bool)
    ensures
        final(plan)@ == old(plan)@ + runway(meter, present),
{
    let ghost before = plan@;
    plan.push(Draw::MeterRail { meter });
    if present {
        plan.push(Draw::MeterFill { meter });
        plan.push(Draw::MeterPeak { meter });
    }
    assert(plan@ =~= before + runway(meter, present));
}

/// Plans the runways and the loudness range.
fn plan_meters(plan: &mut Vec<Draw>, shape: &SceneShape)
    ensures
        final(plan)@ == old(plan)@ + meter_part(*shape),
{
    let ghost before = plan@;
    plan_runway(plan, 0, shape.momentary);
    plan_runway(plan, 1, shape.short_term);
    plan_runway(plan, 2, shape.integrated);
    plan_runway(plan, 3, true);
    plan.push(Draw::RangeRail);
    if shape.range {
        plan.push(Draw::RangeFill);
    }
    assert(plan@ =~= before + meter_part(*shape));
}

/// Plans the edges of the waveform.
fn plan_waveform(plan: &mut Vec<Draw>, len: usize, limit: usize)
    ensures
        final(plan)@ == old(plan)@ + waveform_part(len as int, limit as int),
{
    let ghost before = plan@;
    let ghost part = waveform_part(len as int, limit as int);
    let count: usize = bounded_count(len, limit);
    if count <= 1 {
        assert(plan@ =~= before + part);
        return;
    }
    let mut draw: usize = 1;
    assert(plan@ =~= before + part.take(0));
    while draw < count
        invariant
            1 <= draw <= count,
            count > 1,
            count == drawn(len as int, limit as int),
            part == waveform_part(len as int, limit as int),
            part.len() == 2 * (count - 1),
            plan@ == before + part.take(2 * (draw - 1)),
        decreases count - draw,
    {
        let previous: usize = bounded_index(draw - 1, count, len);
        let source: usize = bounded_index(draw, count, len);
        plan.push(Draw::WaveTop { draw, count, previous, source });
        plan.push(Draw::WaveBottom { draw, count, previous, source });
        proof {
            let k = 2 * (draw - 1);
            assert(part[k] == (Draw::WaveTop { draw, count, previous, source }));
            assert(part[k + 1] == (Draw::WaveBottom { draw, count, previous, source }));
            assert(part.take(k + 2) =~= part.take(k).push(part[k]).push(part[k + 1]));
        }
        draw = draw + 1;
    }
    assert(part.take(2 * (count - 1)) =~= part);
}

/// Plans the bars of the spectrum.
fn plan_spectrum(plan: &mut Vec<Draw>, len: usize, limit: usize)
    ensures
        final(plan)@ == old(plan)@ + spectrum_part(len as int, limit as int),
{
    let ghost before = plan@;
    let ghost part = spectrum_part(len as int, limit as int);
    let count: usize = bounded_count(len, limit);
    let mut draw: usize = 0;
    assert(plan@ =~= before + part.take(0));
    while draw < count
        invariant
            draw <= count,
            count == drawn(len as int, limit as int),
            part == spectrum_part(len as int, limit as int),
            plan@ == before + part.take(draw as int),
        decreases count - draw,
    {
        let source: usize = bounded_index(draw, count, len);
        plan.push(Draw::SpectrumBar { draw, count, source });
        assert(part[draw as int] == (Draw::SpectrumBar { draw, count, source }));
        assert(part.take(draw + 1) =~= part.take(draw as int).push(part[draw as int]));
        draw = draw + 1;
    }
    assert(part.take(count as int) =~= part);
}

/// A cell of a whole row lies inside the cells.
proof fn cell_is_inside(row: int, band: int, available: int, bands: int, cells: int, rows: int)
    requires
        0 <= row < available,
        0 <= band < bands,
        available == available_rows(cells, rows, bands),
        0 <= cells,
        0 <= rows,
    ensures
        0 <= row * bands + band < cells,
        0 <= row * bands,
{
    vstd::arithmetic::div_mod::lemma_fundamental_div_mod(cells, bands);
    let whole = cells / bands;
    assert((row + 1) * bands <= bands * whole) by (nonlinear_arith)
        requires
            row + 1 <= whole,
            0 < bands,
    ;
    assert((row + 1) * bands == row * bands + bands) by (nonlinear_arith);
    assert(0 <= row * bands) by (nonlinear_arith)
        requires
            0 <= row,
            0 < bands,
    ;
}

/// Plans one row of the waterfall.
fn plan_row(
    plan: &mut Vec<Draw>,
    row: usize,
    available: usize,
    bands: usize,
    cells: usize,
    rows: usize,
    drawn_rows: usize,
    drawn_bands: usize,
)
    requires
        row < drawn_rows <= available,
        available == available_rows(cells as int, rows as int, bands as int),
        0 < drawn_bands <= bands,
    ensures
        final(plan)@ == old(plan)@ + Seq::new(
            drawn_bands as nat,
            |band: int|
                cell(
                    row as int,
                    band,
                    available as int,
                    bands as int,
                    drawn_rows as int,
                    drawn_bands as int,
                ),
        ),
{
    let ghost before = plan@;
    let ghost part = Seq::new(
        drawn_bands as nat,
        |band: int|
            cell(
                row as int,
                band,
                available as int,
                bands as int,
                drawn_rows as int,
                drawn_bands as int,
            ),
    );
    let source_row: usize = bounded_index(row, drawn_rows, available);
    let mut band: usize = 0;
    assert(plan@ =~= before + part.take(0));
    while band < drawn_bands
        invariant
            row < drawn_rows <= available,
            available == available_rows(cells as int, rows as int, bands as int),
            0 < drawn_bands <= bands,
            band <= drawn_bands,
            source_row == spaced(row as int, drawn_rows as int, available as int),
            source_row < available,
            part.len() == drawn_bands,
            forall|i: int|
                0 <= i < drawn_bands ==> #[trigger] part[i] == cell(
                    row as int,
                    i,
                    available as int,
                    bands as int,
                    drawn_rows as int,
                    drawn_bands as int,
                ),
            plan@ == before + part.take(band as int),
        decreases drawn_bands - band,
    {
        let source_band: usize = bounded_index(band, drawn_bands, bands);
        proof {
            cell_is_inside(
                source_row as int,
                source_band as int,
                available as int,
                bands as int,
                cells as int,
                rows as int,
            );
        }
        let source: usize = source_row * bands + source_band;
        plan.push(
            Draw::Cell { row, rows: drawn_rows, band, bands: drawn_bands, source },
        );
        assert(part.take(band + 1) =~= part.take(band as int).push(part[band as int]));
        band = band + 1;
    }
    assert(part.take(drawn_bands as int) =~= part);
}

/// Plans the cells of the waterfall.
fn plan_spectrogram(plan: &mut Vec<Draw>, shape: &SceneShape, limits: &SceneLimits)
    ensures
        final(plan)@ == old(plan)@ + spectrogram_part(*shape, *limits),
{
    let ghost before = plan@;
    let ghost part = spectrogram_part(*shape, *limits);
    let bands: usize = shape.spectrogram_bands;
    if shape.spectrogram_rows == 0 || bands == 0 {
        assert(0 * drawn(bands as int, limits.spectrogram_bands as int) == 0);
        assert(drawn(0, limits.spectrogram_rows as int) == 0);
        assert(plan@ =~= before + part);
        return;
    }
    let available: usize = bounded_count(shape.spectrogram_rows, shape.spectrogram / bands);
    let drawn_rows: usize = bounded_count(available, limits.spectrogram_rows);
    let drawn_bands: usize = bounded_count(bands, limits.spectrogram_bands);
    if drawn_rows == 0 || drawn_bands == 0 {
        assert(drawn_rows * drawn_bands == 0) by (nonlinear_arith)
            requires
                drawn_rows == 0 || drawn_bands == 0,
        ;
        assert(plan@ =~= before + part);
        return;
    }
    proof {
        assert(0 <= drawn_rows * drawn_bands) by (nonlinear_arith)
            requires
                0 <= drawn_rows,
                0 <= drawn_bands,
        ;
        assert(0 * drawn_bands == 0);
    }
    let mut row: usize = 0;
    assert(plan@ =~= before + part.take(0));
    while row < drawn_rows
        invariant
            row <= drawn_rows <= available,
            bands == shape.spectrogram_bands,
            available == available_rows(
                shape.spectrogram as int,
                shape.spectrogram_rows as int,
                bands as int,
            ),
            drawn_rows == drawn(available as int, limits.spectrogram_rows as int),
            drawn_bands == drawn(bands as int, limits.spectrogram_bands as int),
            0 < drawn_bands <= bands,
            part == spectrogram_part(*shape, *limits),
            part.len() == drawn_rows * drawn_bands,
            plan@ == before + part.take(row * drawn_bands),
        decreases drawn_rows - row,
    {
        let ghost start = row * drawn_bands;
        plan_row(
            plan,
            row,
            available,
            bands,
            shape.spectrogram,
            shape.spectrogram_rows,
            drawn_rows,
            drawn_bands,
        );
        proof {
            let width = drawn_bands as int;
            assert((row + 1) * width == start + width) by (nonlinear_arith)
                requires
                    start == row * width,
            ;
            assert((row + 1) * width <= drawn_rows * width && 0 <= start) by (nonlinear_arith)
                requires
                    row + 1 <= drawn_rows,
                    0 < width,
                    start == row * width,
                    0 <= row,
            ;
            let line = Seq::new(
                drawn_bands as nat,
                |band: int|
                    cell(
                        row as int,
                        band,
                        available as int,
                        bands as int,
                        drawn_rows as int,
                        drawn_bands as int,
                    ),
            );
            assert forall|band: int| 0 <= band < width implies #[trigger] line[band] == part[start
                + band] by {
                vstd::arithmetic::div_mod::lemma_fundamental_div_mod_converse(
                    start + band,
                    width,
                    row as int,
                    band,
                );
            }
            assert(part.take(start + width) =~= part.take(start) + line);
        }
        row = row + 1;
    }
    assert(part.take(drawn_rows * drawn_bands) =~= part);
}

/// Plans the goniometer.
fn plan_goniometer(plan: &mut Vec<Draw>, len: usize, limit: usize)
    ensures
        final(plan)@ == old(plan)@ + goniometer_part(len as int, limit as int),
{
    let ghost before = plan@;
    let ghost part = goniometer_part(len as int, limit as int);
    plan.push(Draw::Axis { index: 0 });
    plan.push(Draw::Axis { index: 1 });
    let count: usize = bounded_count(len, limit);
    let mut draw: usize = 0;
    assert(plan@ =~= before + part.take(2));
    while draw < count
        invariant
            draw <= count,
            count == drawn(len as int, limit as int),
            part == goniometer_part(len as int, limit as int),
            part.len() == count + 2,
            plan@ == before + part.take(draw + 2),
        decreases count - draw,
    {
        let source: usize = bounded_index(draw, count, len);
        plan.push(Draw::Point { source });
        assert(part[draw + 2] == (Draw::Point { source }));
        assert(part.take(draw + 3) =~= part.take(draw + 2).push(part[draw + 2]));
        draw = draw + 1;
    }
    assert(part.take(count + 2) =~= part);
}

/// Plans a frame into storage that is reused from frame to frame. Excess source
/// points are sampled rather than letting a frame grow.
pub fn compose(shape: &SceneShape, limits: &SceneLimits, plan: &mut Vec<Draw>)
    ensures
        final(plan)@ == scene_plan(*shape, *limits),
{
    plan.clear();
    plan_grid(plan);
    assert(plan@ =~= grid_part());
    plan_meters(plan, shape);
    plan_waveform(plan, shape.waveform, limits.waveform_points);
    plan_spectrum(plan, shape.spectrum, limits.spectrum_points);
    plan_spectrogram(plan, shape, limits);
    plan_goniometer(plan, shape.goniometer, limits.goniometer_points);
}

/// Whether every primitive of a plan shows a point that exists.
pub open spec fn sources_exist(plan: Seq<Draw>, shape: SceneShape) -> bool {
    forall|i: int|
        0 <= i < plan.len() ==> match #[trigger] plan[i] {
            Draw::WaveTop { previous, source, .. } => previous < shape.waveform && source
                < shape.waveform,
            Draw::WaveBottom { previous, source, .. } => previous < shape.waveform && source
                < shape.waveform,
            Draw::SpectrumBar { source, .. } => source < shape.spectrum,
            Draw::Cell { source, .. } => source < shape.spectrogram,
            Draw::Point { source } => source < shape.goniometer,
            _ => true,
        }
}

/// A plan never refers to a point past the end of its row, malformed
/// spectrograms included.
pub proof fn planned_sources_exist(shape: SceneShape, limits: SceneLimits)
    ensures
        sources_exist(scene_plan(shape, limits), shape),
{
    let plan = scene_plan(shape, limits);
    let waveform = waveform_part(shape.waveform as int, limits.waveform_points as int);
    let spectrum = spectrum_part(shape.spectrum as int, limits.spectrum_points as int);
    let spectrogram = spectrogram_part(shape, limits);
    let goniometer = goniometer_part(shape.goniometer as int, limits.goniometer_points as int);
    assert forall|k: int| 0 <= k < waveform.len() implies match #[trigger] waveform[k] {
        Draw::WaveTop { previous, source, .. } => previous < shape.waveform && source
            < shape.waveform,
        Draw::WaveBottom { previous, source, .. } => previous < shape.waveform && source
            < shape.waveform,
        _ => false,
    } by {
        let len = shape.waveform as int;
        let count = drawn(len, limits.waveform_points as int);
        pick_exists(k / 2, count, len);
        pick_exists(k / 2 + 1, count, len);
    }
    assert forall|k: int| 0 <= k < spectrum.len() implies match #[trigger] spectrum[k] {
        Draw::SpectrumBar { source, .. } => source < shape.spectrum,
        _ => false,
    } by {
        let len = shape.spectrum as int;
        pick_exists(k, drawn(len, limits.spectrum_points as int), len);
    }
    assert forall|k: int| 0 <= k < spectrogram.len() implies match #[trigger] spectrogram[k] {
        Draw::Cell { source, .. } => source < shape.spectrogram,
        _ => false,
    } by {
        cell_exists(shape, limits, k);
    }
    assert forall|k: int| 0 <= k < goniometer.len() implies match #[trigger] goniometer[k] {
        Draw::Point { source } => source < shape.goniometer,
        Draw::Axis { .. } => true,
        _ => false,
    } by {
        let len = shape.goniometer as int;
        let count = drawn(len, limits.goniometer_points as int);
        if k >= 2 {
            pick_exists(k - 2, count, len);
        }
    }
    let first = grid_part() + meter_part(shape);
    assert forall|i: int| 0 <= i < plan.len() implies match #[trigger] plan[i] {
        Draw::WaveTop { previous, source, .. } => previous < shape.waveform && source
            < shape.waveform,
        Draw::WaveBottom { previous, source, .. } => previous < shape.waveform && source
            < shape.waveform,
        Draw::SpectrumBar { source, .. } => source < shape.spectrum,
        Draw::Cell { source, .. } => source < shape.spectrogram,
        Draw::Point { source } => source < shape.goniometer,
        _ => true,
    } by {
        let a = first.len() as int;
        let b = a + waveform.len();
        let c = b + spectrum.len();
        let d = c + spectrogram.len();
        if i < a {
            assert(plan[i] == first[i]);
        } else if i < b {
            assert(plan[i] == waveform[i - a]);
        } else if i < c {
            assert(plan[i] == spectrum[i - b]);
        } else if i < d {
            assert(plan[i] == spectrogram[i - c]);
        } else {
            assert(plan[i] == goniometer[i - d]);
        }
    }
}

/// Where each part of a plan starts: waveform, spectrum, waterfall, goniometer.
spec fn part_starts(shape: SceneShape, limits: SceneLimits) -> (int, int, int, int) {
    let a = (grid_part() + meter_part(shape)).len() as int;
    let b = a + waveform_part(shape.waveform as int, limits.waveform_points as int).len();
    let c = b + spectrum_part(shape.spectrum as int, limits.spectrum_points as int).len();
    let d = c + spectrogram_part(shape, limits).len();
    (a, b, c, d)
}

/// Each primitive of a plan comes from one of its parts, which hold primitives of
/// different kinds.
proof fn plan_is_made_of_parts(shape: SceneShape, limits: SceneLimits, i: int)
    requires
        0 <= i < scene_plan(shape, limits).len(),
    ensures
        ({
            let plan = scene_plan(shape, limits);
            let first = grid_part() + meter_part(shape);
            let waveform = waveform_part(shape.waveform as int, limits.waveform_points as int);
            let spectrum = spectrum_part(shape.spectrum as int, limits.spectrum_points as int);
            let spectrogram = spectrogram_part(shape, limits);
            let goniometer = goniometer_part(
                shape.goniometer as int,
                limits.goniometer_points as int,
            );
            let (a, b, c, d) = part_starts(shape, limits);
            &&& plan.len() == d + goniometer.len()
            &&& i < a <==> plan[i] is GridColumn || plan[i] is GridRow || plan[i] is MeterRail
                || plan[i] is MeterFill || plan[i] is MeterPeak || plan[i] is RangeRail
                || plan[i] is RangeFill
            &&& a <= i < b <==> plan[i] is WaveTop || plan[i] is WaveBottom
            &&& b <= i < c <==> plan[i] is SpectrumBar
            &&& c <= i < d <==> plan[i] is Cell
            &&& d <= i <==> plan[i] is Axis || plan[i] is Point
            &&& i < a ==> plan[i] == first[i]
            &&& a <= i < b ==> plan[i] == waveform[i - a]
            &&& b <= i < c ==> plan[i] == spectrum[i - b]
            &&& c <= i < d ==> plan[i] == spectrogram[i - c]
            &&& d <= i ==> plan[i] == goniometer[i - d]
        }),
{
    let (a, b, c, d) = part_starts(shape, limits);
    let first = grid_part() + meter_part(shape);
    if i < a {
        runways_hold_meters(shape, i - 8);
        assert(scene_plan(shape, limits)[i] == first[i]);
    }
}

/// What stands among the runways.
proof fn runways_hold_meters(shape: SceneShape, k: int)
    ensures
        0 <= k < meter_part(shape).len() ==> (meter_part(shape)[k] is MeterRail || meter_part(
            shape,
        )[k] is MeterFill || meter_part(shape)[k] is MeterPeak || meter_part(shape)[k] is RangeRail
            || meter_part(shape)[k] is RangeFill),
{
}

/// Bars run along the spectrum. Of two of them the one further left shows the
/// earlier band. The first bar shows the first band and the last of several shows
/// the last band; a spectrum within its limit is drawn band for band, and a longer
/// one is spread evenly over as many bars as the limit allows.
pub proof fn bars_run_along_the_spectrum(shape: SceneShape, limits: SceneLimits, i: int, j: int)
    requires
        0 <= i < scene_plan(shape, limits).len(),
        0 <= j < scene_plan(shape, limits).len(),
        scene_plan(shape, limits)[i] is SpectrumBar,
        scene_plan(shape, limits)[j] is SpectrumBar,
    ensures
        match (scene_plan(shape, limits)[i], scene_plan(shape, limits)[j]) {
            (
                Draw::SpectrumBar { draw, count, source },
                Draw::SpectrumBar { draw: other, count: same, source: shown },
            ) => {
                &&& count == same
                &&& count <= shape.spectrum && count <= limits.spectrum_points
                &&& count == shape.spectrum || count == limits.spectrum_points
                &&& draw < count
                &&& source < shape.spectrum
                &&& draw < other <==> i < j
                &&& draw < other ==> source < shown
                &&& draw == 0 ==> source == 0
                &&& draw == count - 1 && count > 1 ==> source == shape.spectrum - 1
                &&& shape.spectrum <= limits.spectrum_points ==> source == draw
                &&& source * (count - 1) <= draw * (shape.spectrum - 1)
                &&& count > 1 ==> draw * (shape.spectrum - 1) < (source + 1) * (count - 1)
            },
            _ => false,
        },
{
    plan_is_made_of_parts(shape, limits, i);
    plan_is_made_of_parts(shape, limits, j);
    let (a, b, c, d) = part_starts(shape, limits);
    let len = shape.spectrum as int;
    let count = drawn(len, limits.spectrum_points as int);
    let one = i - b;
    let two = j - b;
    picks_are_even(one, count, len);
    picks_are_even(two, count, len);
    if one < two {
        picks_are_in_order(one, two, count, len);
    }
    if one == count - 1 && count > 1 {
        picks_are_in_order(0, one, count, len);
    }
}

/// Every bar that fits its limit is drawn.
pub proof fn every_bar_is_drawn(shape: SceneShape, limits: SceneLimits, draw: int) -> (i: int)
    requires
        0 <= draw < shape.spectrum,
        draw < limits.spectrum_points,
    ensures
        0 <= i < scene_plan(shape, limits).len(),
        match scene_plan(shape, limits)[i] {
            Draw::SpectrumBar { draw: found, .. } => found == draw,
            _ => false,
        },
{
    let (a, b, c, d) = part_starts(shape, limits);
    let i = b + draw;
    plan_is_made_of_parts(shape, limits, i);
    i
}

/// Edges of the waveform join neighbouring drawn points, above and below. They run
/// from the first point of the waveform to the last, each from where the edge in
/// front of it ends, and never go back.
pub proof fn edges_run_along_the_waveform(shape: SceneShape, limits: SceneLimits, i: int, j: int)
    requires
        0 <= i < scene_plan(shape, limits).len(),
        0 <= j < scene_plan(shape, limits).len(),
        scene_plan(shape, limits)[i] is WaveTop || scene_plan(shape, limits)[i] is WaveBottom,
        scene_plan(shape, limits)[j] is WaveTop || scene_plan(shape, limits)[j] is WaveBottom,
    ensures
        ({
            let edge = |piece: Draw|
                match piece {
                    Draw::WaveTop { draw, count, previous, source } => (
                        draw as int,
                        count as int,
                        previous as int,
                        source as int,
                    ),
                    Draw::WaveBottom { draw, count, previous, source } => (
                        draw as int,
                        count as int,
                        previous as int,
                        source as int,
                    ),
                    _ => (0int, 0int, 0int, 0int),
                };
            let (draw, count, previous, source) = edge(scene_plan(shape, limits)[i]);
            let (other, same, from, shown) = edge(scene_plan(shape, limits)[j]);
            &&& count == same
            &&& count <= shape.waveform && count <= limits.waveform_points
            &&& count == shape.waveform || count == limits.waveform_points
            &&& 1 <= draw < count
            &&& previous < source < shape.waveform
            &&& draw == other ==> previous == from && source == shown
            &&& other == draw + 1 ==> from == source
            &&& draw < other ==> source <= from
            &&& draw == 1 ==> previous == 0
            &&& draw == count - 1 ==> source == shape.waveform - 1
            &&& shape.waveform <= limits.waveform_points ==> source == draw
            &&& source * (count - 1) <= draw * (shape.waveform - 1) < (source + 1) * (count - 1)
        }),
{
    plan_is_made_of_parts(shape, limits, i);
    plan_is_made_of_parts(shape, limits, j);
    let (a, b, c, d) = part_starts(shape, limits);
    let len = shape.waveform as int;
    let count = drawn(len, limits.waveform_points as int);
    let one = (i - a) / 2 + 1;
    let two = (j - a) / 2 + 1;
    picks_are_in_order(one - 1, one, count, len);
    picks_are_in_order(two - 1, two, count, len);
    picks_are_even(one, count, len);
    if one < two - 1 {
        picks_are_in_order(one, two - 1, count, len);
    }
    if two < one - 1 {
        picks_are_in_order(two, one - 1, count, len);
    }
}

/// Both edges are drawn at every point behind the first that fits the limit.
pub proof fn every_edge_is_drawn(shape: SceneShape, limits: SceneLimits, draw: int) -> (i: int)
    requires
        1 <= draw < shape.waveform,
        draw < limits.waveform_points,
    ensures
        0 <= i < scene_plan(shape, limits).len() - 1,
        match (scene_plan(shape, limits)[i], scene_plan(shape, limits)[i + 1]) {
            (
                Draw::WaveTop { draw: above, .. },
                Draw::WaveBottom { draw: below, .. },
            ) => above == draw && below == draw,
            _ => false,
        },
{
    let (a, b, c, d) = part_starts(shape, limits);
    let i = a + 2 * (draw - 1);
    plan_is_made_of_parts(shape, limits, 0);
    assert(i + 1 < b);
    plan_is_made_of_parts(shape, limits, i);
    plan_is_made_of_parts(shape, limits, i + 1);
    i
}

/// Cells keep their rows and bands. Cells of one drawn row show one row of the
/// waterfall and cells of one drawn band show one band; a later row shows a later
/// row, a later band a later band. The first row and the first band are shown first,
/// the last band of several last, and so is the last row of a whole waterfall. Where
/// nothing has to be left out, every cell is shown in its place.
pub proof fn cells_keep_their_rows_and_bands(
    shape: SceneShape,
    limits: SceneLimits,
    i: int,
    j: int,
)
    requires
        0 <= i < scene_plan(shape, limits).len(),
        0 <= j < scene_plan(shape, limits).len(),
        scene_plan(shape, limits)[i] is Cell,
        scene_plan(shape, limits)[j] is Cell,
    ensures
        match (scene_plan(shape, limits)[i], scene_plan(shape, limits)[j]) {
            (
                Draw::Cell { row, rows, band, bands, source },
                Draw::Cell { row: other, rows: same, band: beside, bands: alike, source: shown },
            ) => {
                let width = shape.spectrogram_bands as int;
                let height = shape.spectrogram_rows as int;
                &&& width > 0
                &&& rows == same && bands == alike
                &&& row < rows && band < bands
                &&& rows <= height && rows <= limits.spectrogram_rows
                &&& bands <= width && bands <= limits.spectrogram_bands
                &&& bands == width || bands == limits.spectrogram_bands
                &&& source < shape.spectrogram && source as int / width < height
                &&& i < j <==> row < other || row == other && band < beside
                &&& row == other ==> source as int / width == shown as int / width
                &&& row < other ==> source as int / width < shown as int / width
                &&& band == beside ==> source as int % width == shown as int % width
                &&& band < beside ==> source as int % width < shown as int % width
                &&& row == 0 ==> source as int / width == 0
                &&& band == 0 ==> source as int % width == 0
                &&& band == bands - 1 && bands > 1 ==> source as int % width == width - 1
                &&& height * width <= shape.spectrogram ==> rows == height || rows
                    == limits.spectrogram_rows
                &&& height * width <= shape.spectrogram && row == rows - 1 && rows > 1 ==> source
                    as int / width == height - 1
                &&& height * width <= shape.spectrogram && height <= limits.spectrogram_rows
                    && width <= limits.spectrogram_bands ==> source == row * width + band
            },
            _ => false,
        },
{
    plan_is_made_of_parts(shape, limits, i);
    plan_is_made_of_parts(shape, limits, j);
    let (a, b, c, d) = part_starts(shape, limits);
    let one = i - c;
    let two = j - c;
    cell_parts(shape, limits, one);
    cell_parts(shape, limits, two);
    let width = shape.spectrogram_bands as int;
    let height = shape.spectrogram_rows as int;
    let available = available_rows(shape.spectrogram as int, height, width);
    let drawn_rows = drawn(available, limits.spectrogram_rows as int);
    let drawn_bands = drawn(width, limits.spectrogram_bands as int);
    let row = one / drawn_bands;
    let other = two / drawn_bands;
    let band = one % drawn_bands;
    let beside = two % drawn_bands;
    if row < other {
        picks_are_in_order(row, other, drawn_rows, available);
        assert(drawn_bands * row + drawn_bands <= drawn_bands * other) by (nonlinear_arith)
            requires
                row + 1 <= other,
                0 < drawn_bands,
        ;
    }
    if other < row {
        assert(drawn_bands * other + drawn_bands <= drawn_bands * row) by (nonlinear_arith)
            requires
                other + 1 <= row,
                0 < drawn_bands,
        ;
    }
    if band < beside {
        picks_are_in_order(band, beside, drawn_bands, width);
    }
    picks_are_even(row, drawn_rows, available);
    picks_are_even(band, drawn_bands, width);
    if drawn_bands > 1 {
        picks_are_in_order(0, drawn_bands - 1, drawn_bands, width);
    }
    if drawn_rows > 1 {
        picks_are_in_order(0, drawn_rows - 1, drawn_rows, available);
    }
    if height * width <= shape.spectrogram {
        vstd::arithmetic::div_mod::lemma_div_by_multiple(height, width);
        vstd::arithmetic::div_mod::lemma_div_is_ordered(
            height * width,
            shape.spectrogram as int,
            width,
        );
        assert(available == height);
    }
}

/// What the cell of a number shows.
proof fn cell_parts(shape: SceneShape, limits: SceneLimits, k: int)
    requires
        0 <= k < spectrogram_part(shape, limits).len(),
    ensures
        ({
            let width = shape.spectrogram_bands as int;
            let height = shape.spectrogram_rows as int;
            let available = available_rows(shape.spectrogram as int, height, width);
            let drawn_rows = drawn(available, limits.spectrogram_rows as int);
            let drawn_bands = drawn(width, limits.spectrogram_bands as int);
            let row = k / drawn_bands;
            let band = k % drawn_bands;
            let line = spaced(row, drawn_rows, available);
            let column = spaced(band, drawn_bands, width);
            &&& 0 <= row < drawn_rows <= available <= height
            &&& 0 <= band < drawn_bands <= width
            &&& k == drawn_bands * row + band
            &&& match spectrogram_part(shape, limits)[k] {
                Draw::Cell { row: r, rows, band: b, bands, source } => {
                    &&& r == row && rows == drawn_rows && b == band && bands == drawn_bands
                    &&& source == line * width + column
                    &&& source < shape.spectrogram
                    &&& source as int / width == line
                    &&& source as int % width == column
                    &&& line < available
                },
                _ => false,
            }
        }),
{
    let width = shape.spectrogram_bands as int;
    let height = shape.spectrogram_rows as int;
    let available = available_rows(shape.spectrogram as int, height, width);
    if height > 0 && width > 0 {
        vstd::arithmetic::div_mod::lemma_div_pos_is_pos(shape.spectrogram as int, width);
    }
    let drawn_rows = drawn(available, limits.spectrogram_rows as int);
    let drawn_bands = drawn(width, limits.spectrogram_bands as int);
    assert(drawn_rows > 0 && drawn_bands > 0) by (nonlinear_arith)
        requires
            0 <= drawn_rows,
            0 <= drawn_bands,
            0 < drawn_rows * drawn_bands,
    ;
    vstd::arithmetic::div_mod::lemma_fundamental_div_mod(k, drawn_bands);
    vstd::arithmetic::div_mod::lemma_div_pos_is_pos(k, drawn_bands);
    vstd::arithmetic::div_mod::lemma_multiply_divide_lt(k, drawn_bands, drawn_rows);
    let line = spaced(k / drawn_bands, drawn_rows, available);
    let column = spaced(k % drawn_bands, drawn_bands, width);
    pick_exists(k / drawn_bands, drawn_rows, available);
    pick_exists(k % drawn_bands, drawn_bands, width);
    cell_is_inside(line, column, available, width, shape.spectrogram as int, height);
    vstd::arithmetic::div_mod::lemma_fundamental_div_mod_converse(
        line * width + column,
        width,
        line,
        column,
    );
    assert(width * line == line * width) by (nonlinear_arith);
}

/// Every place of a whole waterfall that fits its limits is drawn.
pub proof fn every_cell_is_drawn(
    shape: SceneShape,
    limits: SceneLimits,
    row: int,
    band: int,
) -> (i: int)
    requires
        0 <= row < shape.spectrogram_rows,
        row < limits.spectrogram_rows,
        0 <= band < shape.spectrogram_bands,
        band < limits.spectrogram_bands,
        shape.spectrogram_rows * shape.spectrogram_bands <= shape.spectrogram,
    ensures
        0 <= i < scene_plan(shape, limits).len(),
        match scene_plan(shape, limits)[i] {
            Draw::Cell { row: r, band: b, .. } => r == row && b == band,
            _ => false,
        },
{
    let (a, b, c, d) = part_starts(shape, limits);
    let width = shape.spectrogram_bands as int;
    let height = shape.spectrogram_rows as int;
    vstd::arithmetic::div_mod::lemma_div_by_multiple(height, width);
    vstd::arithmetic::div_mod::lemma_div_is_ordered(
        height * width,
        shape.spectrogram as int,
        width,
    );
    let available = available_rows(shape.spectrogram as int, height, width);
    assert(available == height);
    let drawn_rows = drawn(available, limits.spectrogram_rows as int);
    let drawn_bands = drawn(width, limits.spectrogram_bands as int);
    let k = drawn_bands * row + band;
    assert(0 <= k < drawn_rows * drawn_bands) by (nonlinear_arith)
        requires
            k == drawn_bands * row + band,
            0 <= row <= drawn_rows - 1,
            0 <= band < drawn_bands,
    ;
    vstd::arithmetic::div_mod::lemma_fundamental_div_mod_converse(k, drawn_bands, row, band);
    let i = c + k;
    plan_is_made_of_parts(shape, limits, 0);
    assert(i < d);
    plan_is_made_of_parts(shape, limits, i);
    cell_parts(shape, limits, k);
    i
}

/// A plan ends with the points of the goniometer, behind its two axes. They run
/// along the trace: from its first point to its last, in order and evenly spread,
/// as many as the limit allows, and a trace within its limit point for point.
pub proof fn points_run_along_the_trace(
    shape: SceneShape,
    limits: SceneLimits,
    count: int,
    one: int,
    two: int,
)
    requires
        0 <= one < two < count,
        count <= shape.goniometer && count <= limits.goniometer_points,
        count == shape.goniometer || count == limits.goniometer_points,
    ensures
        ({
            let plan = scene_plan(shape, limits);
            let start = plan.len() - count;
            &&& start >= 2
            &&& plan[start - 2] == (Draw::Axis { index: 0 })
            &&& plan[start - 1] == (Draw::Axis { index: 1 })
            &&& match (plan[start + one], plan[start + two]) {
                (Draw::Point { source }, Draw::Point { source: shown }) => {
                    &&& source < shown < shape.goniometer
                    &&& one == 0 ==> source == 0
                    &&& two == count - 1 ==> shown == shape.goniometer - 1
                    &&& shape.goniometer <= limits.goniometer_points ==> source == one && shown
                        == two
                    &&& source * (count - 1) <= one * (shape.goniometer - 1) < (source + 1) * (count
                        - 1)
                },
                _ => false,
            }
        }),
{
    let (a, b, c, d) = part_starts(shape, limits);
    plan_is_made_of_parts(shape, limits, 0);
    plan_is_made_of_parts(shape, limits, d);
    plan_is_made_of_parts(shape, limits, d + 1);
    plan_is_made_of_parts(shape, limits, d + 2 + one);
    plan_is_made_of_parts(shape, limits, d + 2 + two);
    let len = shape.goniometer as int;
    picks_are_in_order(one, two, count, len);
    picks_are_even(one, count, len);
    picks_are_even(two, count, len);
}

/// Whether a reading is there for a meter; the true peak always is.
spec fn has_reading(shape: SceneShape, meter: usize) -> bool {
    match meter {
        0 => shape.momentary,
        1 => shape.short_term,
        2 => shape.integrated,
        _ => true,
    }
}

/// Where the runway of a meter starts among the runways.
spec fn runway_start(shape: SceneShape, meter: usize) -> int {
    let p = runway(0, shape.momentary).len() as int;
    let q = p + runway(1, shape.short_term).len();
    let r = q + runway(2, shape.integrated).len();
    match meter {
        0 => 0,
        1 => p,
        2 => q,
        3 => r,
        _ => r + 3,
    }
}

/// What stands on the runways.
proof fn runways_in_place(shape: SceneShape, meter: usize)
    requires
        meter < 4,
    ensures
        ({
            let part = meter_part(shape);
            let place = runway_start(shape, meter);
            let rail = runway_start(shape, 4);
            &&& 0 <= place
            &&& place + (if has_reading(shape, meter) {
                3int
            } else {
                1int
            }) <= rail < part.len()
            &&& part[place] == (Draw::MeterRail { meter })
            &&& has_reading(shape, meter) ==> part[place + 1] == (Draw::MeterFill { meter })
            &&& has_reading(shape, meter) ==> part[place + 2] == (Draw::MeterPeak { meter })
            &&& part[rail] == Draw::RangeRail
            &&& shape.range ==> part.len() == rail + 2 && part[rail + 1] == Draw::RangeFill
            &&& !shape.range ==> part.len() == rail + 1
        }),
{
}

/// What is drawn on a runway is drawn over it.
proof fn runways_below(shape: SceneShape, k: int)
    requires
        0 <= k < meter_part(shape).len(),
    ensures
        match meter_part(shape)[k] {
            Draw::MeterFill { meter } => {
                &&& k > 0
                &&& meter < 4
                &&& has_reading(shape, meter)
                &&& meter_part(shape)[k - 1] == (Draw::MeterRail { meter })
            },
            Draw::MeterPeak { meter } => {
                &&& k > 0
                &&& meter < 4
                &&& has_reading(shape, meter)
                &&& meter_part(shape)[k - 1] == (Draw::MeterFill { meter })
            },
            Draw::RangeFill => k > 0 && shape.range && meter_part(shape)[k - 1] == Draw::RangeRail,
            Draw::MeterRail { meter } => meter < 4,
            Draw::RangeRail => true,
            _ => false,
        },
{
    let p = runway_start(shape, 1);
    let q = runway_start(shape, 2);
    let r = runway_start(shape, 3);
    if k < p {
        assert(meter_part(shape)[k] == runway(0, shape.momentary)[k]);
    } else if k < q {
        assert(meter_part(shape)[k] == runway(1, shape.short_term)[k - p]);
    } else if k < r {
        assert(meter_part(shape)[k] == runway(2, shape.integrated)[k - q]);
    } else if k < r + 3 {
        assert(meter_part(shape)[k] == runway(3, true)[k - r]);
    }
}

/// A level and the line on it are drawn right over the runway of their own meter,
/// and only where there is a reading to show; the loudness range likewise on its
/// rail.
pub proof fn levels_are_drawn_over_their_runways(shape: SceneShape, limits: SceneLimits, i: int)
    requires
        0 <= i < scene_plan(shape, limits).len(),
    ensures
        match scene_plan(shape, limits)[i] {
            Draw::MeterFill { meter } => {
                &&& i > 0
                &&& scene_plan(shape, limits)[i - 1] == (Draw::MeterRail { meter })
                &&& meter < 4
                &&& meter == 0 ==> shape.momentary
                &&& meter == 1 ==> shape.short_term
                &&& meter == 2 ==> shape.integrated
            },
            Draw::MeterPeak { meter } => {
                &&& i > 0
                &&& scene_plan(shape, limits)[i - 1] == (Draw::MeterFill { meter })
            },
            Draw::RangeFill => {
                &&& i > 0
                &&& scene_plan(shape, limits)[i - 1] == Draw::RangeRail
                &&& shape.range
            },
            _ => true,
        },
{
    plan_is_made_of_parts(shape, limits, i);
    let (a, b, c, d) = part_starts(shape, limits);
    if 8 <= i < a {
        runways_below(shape, i - 8);
        plan_is_made_of_parts(shape, limits, i - 1);
    } else if i < 8 {
        assert(scene_plan(shape, limits)[i] == grid_part()[i]);
    }
}

/// Every meter has its runway, and the level of every reading that exists is drawn.
pub proof fn every_level_is_drawn(shape: SceneShape, limits: SceneLimits, meter: usize)
    requires
        meter < 4,
    ensures
        ({
            let plan = scene_plan(shape, limits);
            let present = match meter {
                0 => shape.momentary,
                1 => shape.short_term,
                2 => shape.integrated,
                _ => true,
            };
            &&& plan.contains(Draw::MeterRail { meter })
            &&& present ==> plan.contains(Draw::MeterFill { meter })
            &&& present ==> plan.contains(Draw::MeterPeak { meter })
            &&& plan.contains(Draw::RangeRail)
            &&& shape.range ==> plan.contains(Draw::RangeFill)
        }),
{
    let plan = scene_plan(shape, limits);
    runways_in_place(shape, meter);
    let place = 8 + runway_start(shape, meter);
    let rail = 8 + runway_start(shape, 4);
    assert(plan[place] == (Draw::MeterRail { meter }));
    if has_reading(shape, meter) {
        assert(plan[place + 1] == (Draw::MeterFill { meter }));
        assert(plan[place + 2] == (Draw::MeterPeak { meter }));
    }
    assert(plan[rail] == Draw::RangeRail);
    if shape.range {
        assert(plan[rail + 1] == Draw::RangeFill);
    }
}

/// A plan starts with the dividers of the rooms, under everything else: four
/// columns and four rows, each once.
pub proof fn dividers_are_drawn_first(shape: SceneShape, limits: SceneLimits, i: int)
    requires
        0 <= i < scene_plan(shape, limits).len(),
    ensures
        scene_plan(shape, limits).len() > 8,
        0 <= i < 4 ==> scene_plan(shape, limits)[i] == (Draw::GridColumn { index: i as usize }),
        4 <= i < 8 ==> scene_plan(shape, limits)[i] == (Draw::GridRow { index: (i - 4) as usize }),
        8 <= i ==> !(scene_plan(shape, limits)[i] is GridColumn) && !(scene_plan(
            shape,
            limits,
        )[i] is GridRow),
{
    plan_is_made_of_parts(shape, limits, i);
    let (a, b, c, d) = part_starts(shape, limits);
    if 8 <= i < a {
        runways_below(shape, i - 8);
    }
}

/// A picked point is one of the row.
proof fn pick_exists(index: int, count: int, len: int)
    requires
        0 <= index < count <= len,
    ensures
        0 <= spaced(index, count, len) < len,
{
    if index + 1 < count {
        picks_are_in_order(index, index + 1, count, len);
    } else if index > 0 {
        picks_are_in_order(index - 1, index, count, len);
    }
}

/// A planned cell is one of the spectrogram.
proof fn cell_exists(shape: SceneShape, limits: SceneLimits, k: int)
    requires
        0 <= k < spectrogram_part(shape, limits).len(),
    ensures
        match spectrogram_part(shape, limits)[k] {
            Draw::Cell { source, .. } => source < shape.spectrogram,
            _ => false,
        },
{
    let bands = shape.spectrogram_bands as int;
    let available = available_rows(
        shape.spectrogram as int,
        shape.spectrogram_rows as int,
        bands,
    );
    if shape.spectrogram_rows > 0 && bands > 0 {
        vstd::arithmetic::div_mod::lemma_div_pos_is_pos(shape.spectrogram as int, bands);
    }
    let drawn_rows = drawn(available, limits.spectrogram_rows as int);
    let drawn_bands = drawn(bands, limits.spectrogram_bands as int);
    assert(drawn_rows > 0 && drawn_bands > 0) by (nonlinear_arith)
        requires
            0 <= drawn_rows,
            0 <= drawn_bands,
            0 < drawn_rows * drawn_bands,
    ;
    vstd::arithmetic::div_mod::lemma_fundamental_div_mod(k, drawn_bands);
    vstd::arithmetic::div_mod::lemma_div_pos_is_pos(k, drawn_bands);
    vstd::arithmetic::div_mod::lemma_multiply_divide_lt(k, drawn_bands, drawn_rows);
    let row = spaced(k / drawn_bands, drawn_rows, available);
    let band = spaced(k % drawn_bands, drawn_bands, bands);
    pick_exists(k / drawn_bands, drawn_rows, available);
    pick_exists(k % drawn_bands, drawn_bands, bands);
    cell_is_inside(
        row,
        band,
        available,
        bands,
        shape.spectrogram as int,
        shape.spectrogram_rows as int,
    );
}

} // verus!
