use vstd::prelude::*;
use crate::geometry::{abs_spec, Point, Rect, clamp, clamp_spec, COORD_LIMIT};

verus! {

/// Largest magnitude of a value, level or range bound held by a widget.
pub const VALUE_LIMIT: i64 = 1_000_000;

/// Height of a panel's title bar; also the height of a collapsed panel.
pub const TITLE_BAR_HEIGHT: i64 = 40;

/// Side of the square glyph a container shrinks to when minimized to an icon.
pub const ICON_SIZE: i64 = 40;

pub const PANEL_MIN_WIDTH: i64 = 100;
pub const PANEL_MAX_WIDTH: i64 = 500;
pub const PANEL_MIN_HEIGHT: i64 = 100;
pub const PANEL_MAX_HEIGHT: i64 = 400;
pub const STATUS_MIN_WIDTH: i64 = 200;
pub const STATUS_MAX_WIDTH: i64 = 800;
pub const STATUS_MIN_HEIGHT: i64 = 40;
pub const STATUS_MAX_HEIGHT: i64 = 120;

/// Length of a slider's track, in pixels.
pub const TRACK_LENGTH: i64 = 96;

/// Thickness of a slider's track, in pixels.
pub const TRACK_THICKNESS: i64 = 8;

/// Offset of a slider's track from the widget's center along the track.
pub const TRACK_OFFSET: i64 = 10;

/// Pointer travel, in pixels, that sweeps a knob through its whole range.
pub const KNOB_TRAVEL: i64 = 200;

/// Distance from a knob's top edge to the center of its dial.
pub const DIAL_CENTER_OFFSET: i64 = 37;

/// The angular sweep of a knob, in degrees, starting at minus half of it.
pub const KNOB_SWEEP_DEGREES: i64 = 270;

/// The kind of a widget, with the state that belongs to that kind.
///
/// Values, levels and ranges are whole numbers; the size of a widget is a
/// function of its kind and state (see `size_of`).
#[derive(Clone, Copy, Debug, PartialEq, Eq, Structural)]
pub enum WidgetKind {
    Knob { value: i64, min: i64, max: i64 },
    ToggleSwitch { on: bool },
    PushButton { active: bool },
    VuMeter { level: i64, peak: i64 },
    HorizontalSlider { value: i64, min: i64, max: i64 },
    VerticalSlider { value: i64, min: i64, max: i64 },
    LevelIndicator { level: i64, segments: u32 },
    TextLabel,
    Panel { width: i64, height: i64, collapsed: bool, collapse_to_icon: bool },
    StatusBar { width: i64, height: i64, online: bool },
    IconButton { active: bool },
    Settings { minimized: bool },
}

pub open spec fn ranged_wf(value: i64, min: i64, max: i64) -> bool {
    -VALUE_LIMIT <= min <= value <= max <= VALUE_LIMIT
}

impl WidgetKind {
    pub open spec fn wf(self) -> bool {
        match self {
            WidgetKind::Knob { value, min, max } => ranged_wf(value, min, max),
            WidgetKind::HorizontalSlider { value, min, max } => ranged_wf(value, min, max),
            WidgetKind::VerticalSlider { value, min, max } => ranged_wf(value, min, max),
            WidgetKind::VuMeter { level, peak } => 0 <= level <= VALUE_LIMIT && 0 <= peak
                <= VALUE_LIMIT,
            WidgetKind::LevelIndicator { level, .. } => 0 <= level <= VALUE_LIMIT,
            WidgetKind::Panel { width, height, .. } => PANEL_MIN_WIDTH <= width <= PANEL_MAX_WIDTH
                && PANEL_MIN_HEIGHT <= height <= PANEL_MAX_HEIGHT,
            WidgetKind::StatusBar { width, height, .. } => STATUS_MIN_WIDTH <= width
                <= STATUS_MAX_WIDTH && STATUS_MIN_HEIGHT <= height <= STATUS_MAX_HEIGHT,
            _ => true,
        }
    }

    /// Panels and settings panels hold other widgets.
    pub open spec fn is_container(self) -> bool {
        self is Panel || self is Settings
    }

    /// A container that is collapsed or minimized.
    pub open spec fn folded(self) -> bool {
        match self {
            WidgetKind::Panel { collapsed, .. } => collapsed,
            WidgetKind::Settings { minimized } => minimized,
            _ => false,
        }
    }

    /// A container that takes new children: one that is not folded.
    pub open spec fn accepting(self) -> bool {
        self.is_container() && !self.folded()
    }

    /// Width and height of a widget of this kind in this state.
    pub open spec fn size_of(self) -> (int, int) {
        match self {
            WidgetKind::Knob { .. } => (90, 110),
            WidgetKind::ToggleSwitch { .. } => (80, 60),
            WidgetKind::PushButton { .. } => (80, 80),
            WidgetKind::VuMeter { .. } => (40, 160),
            WidgetKind::HorizontalSlider { .. } => (150, 40),
            WidgetKind::VerticalSlider { .. } => (40, 120),
            WidgetKind::LevelIndicator { .. } => (120, 40),
            WidgetKind::TextLabel => (100, 30),
            WidgetKind::Panel { width, height, collapsed, collapse_to_icon } => if !collapsed {
                (width as int, height as int)
            } else if collapse_to_icon {
                (ICON_SIZE as int, ICON_SIZE as int)
            } else {
                (width as int, TITLE_BAR_HEIGHT as int)
            },
            WidgetKind::StatusBar { width, height, .. } => (width as int, height as int),
            WidgetKind::IconButton { .. } => (60, 80),
            WidgetKind::Settings { minimized } => if minimized {
                (ICON_SIZE as int, ICON_SIZE as int)
            } else {
                (250, 300)
            },
        }
    }

    pub fn is_container_kind(&self) -> (r: bool)
        ensures
            r == self.is_container(),
    {
        match self {
            WidgetKind::Panel { .. } | WidgetKind::Settings { .. } => true,
            _ => false,
        }
    }

    pub fn is_folded(&self) -> (r: bool)
        ensures
            r == self.folded(),
    {
        match self {
            WidgetKind::Panel { collapsed, .. } => *collapsed,
            WidgetKind::Settings { minimized } => *minimized,
            _ => false,
        }
    }

    /// Whether a container of this kind takes new children.
    pub fn is_accepting_widgets(&self) -> (r: bool)
        ensures
            r == self.accepting(),
    {
        self.is_container_kind() && !self.is_folded()
    }

    /// Width and height of a widget of this kind in this state.
    pub fn size(&self) -> (r: (i64, i64))
        requires
            self.wf(),
        ensures
            r.0 == self.size_of().0,
            r.1 == self.size_of().1,
            0 <= r.0 <= STATUS_MAX_WIDTH,
            0 <= r.1 <= STATUS_MAX_WIDTH,
    {
        match self {
            WidgetKind::Knob { .. } => (90, 110),
            WidgetKind::ToggleSwitch { .. } => (80, 60),
            WidgetKind::PushButton { .. } => (80, 80),
            WidgetKind::VuMeter { .. } => (40, 160),
            WidgetKind::HorizontalSlider { .. } => (150, 40),
            WidgetKind::VerticalSlider { .. } => (40, 120),
            WidgetKind::LevelIndicator { .. } => (120, 40),
            WidgetKind::TextLabel => (100, 30),
            WidgetKind::Panel { width, height, collapsed, collapse_to_icon } => {
                if !*collapsed {
                    (*width, *height)
                } else if *collapse_to_icon {
                    (ICON_SIZE, ICON_SIZE)
                } else {
                    (*width, TITLE_BAR_HEIGHT)
                }
            },
            WidgetKind::StatusBar { width, height, .. } => (*width, *height),
            WidgetKind::IconButton { .. } => (60, 80),
            WidgetKind::Settings { minimized } => {
                if *minimized {
                    (ICON_SIZE, ICON_SIZE)
                } else {
                    (250, 300)
                }
            },
        }
    }
}

/// A placed widget: a unique id, its kind and state, and its top-left corner.
#[derive(Clone, Copy, Debug, PartialEq, Eq, Structural)]
pub struct Widget {
    pub id: u64,
    pub kind: WidgetKind,
    pub pos: Point,
}

impl Widget {
    pub open spec fn wf(self) -> bool {
        self.pos.wf() && self.kind.wf()
    }

    pub open spec fn bounds(self) -> Rect {
        Rect {
            x: self.pos.x,
            y: self.pos.y,
            w: self.kind.size_of().0 as i64,
            h: self.kind.size_of().1 as i64,
        }
    }

    pub proof fn lemma_bounds_wf(self)
        requires
            self.wf(),
        ensures
            self.bounds().wf(),
            0 <= self.kind.size_of().0 <= STATUS_MAX_WIDTH,
            0 <= self.kind.size_of().1 <= STATUS_MAX_WIDTH,
            self.bounds().w == self.kind.size_of().0,
            self.bounds().h == self.kind.size_of().1,
    {
    }

    /// The rectangle the widget covers.
    pub fn rect(&self) -> (r: Rect)
        requires
            self.wf(),
        ensures
            r == self.bounds(),
            r.wf(),
    {
        let (w, h) = self.kind.size();
        Rect { x: self.pos.x, y: self.pos.y, w, h }
    }
}

/// The change a knob's value takes for `delta` pixels of upward pointer travel.
pub open spec fn knob_step(delta: int, range: int) -> int {
    if delta >= 0 {
        delta * range / (KNOB_TRAVEL as int)
    } else {
        -((-delta) * range / (KNOB_TRAVEL as int))
    }
}

/// A knob's value after `delta` pixels of upward travel, clamped to its range.
pub open spec fn knob_adjusted(value: int, min: int, max: int, delta: int) -> int {
    clamp_spec(value + knob_step(delta, max - min), min, max)
}

/// A slider's value when its track is hit `offset` pixels from the end that
/// stands for `min`.
pub open spec fn track_value(offset: int, min: int, max: int) -> int {
    min + offset * (max - min) / (TRACK_LENGTH as int)
}

/// The track of a horizontal slider covering `r`.
pub open spec fn horizontal_track(r: Rect) -> Rect {
    Rect {
        x: (r.center_x2() / 2 + TRACK_OFFSET - TRACK_LENGTH / 2) as i64,
        y: (r.center_y2() / 2 - TRACK_THICKNESS / 2) as i64,
        w: TRACK_LENGTH,
        h: TRACK_THICKNESS,
    }
}

/// The track of a vertical slider covering `r`.
pub open spec fn vertical_track(r: Rect) -> Rect {
    Rect {
        x: (r.center_x2() / 2 - TRACK_THICKNESS / 2) as i64,
        y: (r.center_y2() / 2 - TRACK_OFFSET - TRACK_LENGTH / 2) as i64,
        w: TRACK_THICKNESS,
        h: TRACK_LENGTH,
    }
}

/// `tan(k - 1/2)` for the angle `k - 1/2` in degrees, times 10^6 and
/// rounded, for `k` from 1 to 45: the bounds between whole degrees from 0 to
/// 45.
pub open spec fn half_degree_tangent(k: int) -> int {
    if k == 1 {
        8727
    } else if k == 2 {
        26186
    } else if k == 3 {
        43661
    } else if k == 4 {
        61163
    } else if k == 5 {
        78702
    } else if k == 6 {
        96289
    } else if k == 7 {
        113936
    } else if k == 8 {
        131652
    } else if k == 9 {
        149451
    } else if k == 10 {
        167343
    } else if k == 11 {
        185339
    } else if k == 12 {
        203452
    } else if k == 13 {
        221695
    } else if k == 14 {
        240079
    } else if k == 15 {
        258618
    } else if k == 16 {
        277325
    } else if k == 17 {
        296213
    } else if k == 18 {
        315299
    } else if k == 19 {
        334595
    } else if k == 20 {
        354119
    } else if k == 21 {
        373885
    } else if k == 22 {
        393910
    } else if k == 23 {
        414214
    } else if k == 24 {
        434812
    } else if k == 25 {
        455726
    } else if k == 26 {
        476976
    } else if k == 27 {
        498582
    } else if k == 28 {
        520567
    } else if k == 29 {
        542956
    } else if k == 30 {
        565773
    } else if k == 31 {
        589045
    } else if k == 32 {
        612801
    } else if k == 33 {
        637070
    } else if k == 34 {
        661886
    } else if k == 35 {
        687281
    } else if k == 36 {
        713293
    } else if k == 37 {
        739961
    } else if k == 38 {
        767327
    } else if k == 39 {
        795436
    } else if k == 40 {
        824336
    } else if k == 41 {
        854081
    } else if k == 42 {
        884725
    } else if k == 43 {
        916331
    } else if k == 44 {
        948965
    } else if k == 45 {
        982697
    } else {
        0
    }
}

/// How many of the first `n` half-degree bounds the slope `small / big`
/// reaches: for `n` = 45 and `small <= big`, its angle to the nearest whole
/// degree.
pub open spec fn bounds_reached(small: int, big: int, n: nat) -> int
    decreases n,
{
    if n == 0 {
        0
    } else {
        bounds_reached(small, big, (n - 1) as nat) + if half_degree_tangent(n as int) * big <= small
            * 1_000_000 {
            1int
        } else {
            0int
        }
    }
}

/// The direction of `(dx, dy)` to the nearest whole degree, clockwise from
/// the positive x axis (y grows downwards), in `[-180, 180]`: within each
/// half quadrant the slope is compared against the tangents of the half
/// degrees. The zero vector gives 0.
pub open spec fn angle_degrees(dx: int, dy: int) -> int {
    let ax = abs_spec(dx);
    let ay = abs_spec(dy);
    if ax + ay == 0 {
        0
    } else {
        let t = if ay <= ax {
            bounds_reached(ay, ax, 45)
        } else {
            90 - bounds_reached(ax, ay, 45)
        };
        if dy >= 0 {
            if dx >= 0 {
                t
            } else {
                180 - t
            }
        } else {
            if dx >= 0 {
                -t
            } else {
                t - 180
            }
        }
    }
}

/// The angle of `p` around the dial center of a knob covering `r` (doubled
/// coordinates keep the center whole; the angle does not change).
pub open spec fn dial_angle(r: Rect, p: Point) -> int {
    angle_degrees(2 * p.x - r.center_x2(), 2 * (p.y - r.y - DIAL_CENTER_OFFSET))
}

/// What a click at `p` does to a widget of kind `k` covering `r`.
///
/// Switches and buttons flip, containers fold or unfold, a slider hit on its
/// track takes the value under the pointer, a knob takes the value of the
/// pointer's angle around its dial; every other kind stays as it is.
pub open spec fn clicked(k: WidgetKind, r: Rect, p: Point) -> WidgetKind {
    match k {
        WidgetKind::ToggleSwitch { on } => WidgetKind::ToggleSwitch { on: !on },
        WidgetKind::PushButton { active } => WidgetKind::PushButton { active: !active },
        WidgetKind::IconButton { active } => WidgetKind::IconButton { active: !active },
        WidgetKind::StatusBar { width, height, online } => WidgetKind::StatusBar {
            width,
            height,
            online: !online,
        },
        WidgetKind::Panel { width, height, collapsed, collapse_to_icon } => WidgetKind::Panel {
            width,
            height,
            collapsed: !collapsed,
            collapse_to_icon,
        },
        WidgetKind::Settings { minimized } => WidgetKind::Settings { minimized: !minimized },
        WidgetKind::Knob { value, min, max } => WidgetKind::Knob {
            value: knob_angle_value(dial_angle(r, p), min as int, max as int) as i64,
            min,
            max,
        },
        WidgetKind::HorizontalSlider { value, min, max } => if horizontal_track(r).holds(p) {
            WidgetKind::HorizontalSlider {
                value: track_value(p.x - horizontal_track(r).x, min as int, max as int) as i64,
                min,
                max,
            }
        } else {
            k
        },
        WidgetKind::VerticalSlider { value, min, max } => if vertical_track(r).holds(p) {
            WidgetKind::VerticalSlider {
                value: track_value(
                    vertical_track(r).bottom() - p.y,
                    min as int,
                    max as int,
                ) as i64,
                min,
                max,
            }
        } else {
            k
        },
        _ => k,
    }
}

/// What a resize drag by `(dx, dy)` does to a widget of kind `k`: panels and
/// status bars take the new declared size, clamped to their bounds.
pub open spec fn resized(k: WidgetKind, dx: int, dy: int) -> WidgetKind {
    match k {
        WidgetKind::Panel { width, height, collapsed, collapse_to_icon } => WidgetKind::Panel {
            width: clamp_spec(width + dx, PANEL_MIN_WIDTH as int, PANEL_MAX_WIDTH as int) as i64,
            height: clamp_spec(
                height + dy,
                PANEL_MIN_HEIGHT as int,
                PANEL_MAX_HEIGHT as int,
            ) as i64,
            collapsed,
            collapse_to_icon,
        },
        WidgetKind::StatusBar { width, height, online } => WidgetKind::StatusBar {
            width: clamp_spec(width + dx, STATUS_MIN_WIDTH as int, STATUS_MAX_WIDTH as int) as i64,
            height: clamp_spec(
                height + dy,
                STATUS_MIN_HEIGHT as int,
                STATUS_MAX_HEIGHT as int,
            ) as i64,
            online,
        },
        _ => k,
    }
}

/// What dragging a knob's value by `delta` pixels of upward travel does.
pub open spec fn adjusted(k: WidgetKind, delta: int) -> WidgetKind {
    match k {
        WidgetKind::Knob { value, min, max } => WidgetKind::Knob {
            value: knob_adjusted(value as int, min as int, max as int, delta) as i64,
            min,
            max,
        },
        _ => k,
    }
}

/// A knob's value for a pointer at `angle` degrees from the knob's center
/// (clockwise from the positive x axis): the sweep starts at minus half of it.
pub open spec fn knob_angle_value(angle: int, min: int, max: int) -> int {
    min + clamp_spec(angle + KNOB_SWEEP_DEGREES / 2, 0, KNOB_SWEEP_DEGREES as int) * (max - min)
        / (KNOB_SWEEP_DEGREES as int)
}

proof fn lemma_scaled_within(a: int, range: int, n: int)
    requires
        0 <= a <= n,
        0 <= range,
        0 < n,
    ensures
        0 <= a * range / n <= range,
{
    assert(0 <= a * range) by (nonlinear_arith)
        requires
            0 <= a,
            0 <= range,
    ;
    assert(a * range <= n * range) by (nonlinear_arith)
        requires
            a <= n,
            0 <= range,
    ;
    assert(n * range / n == range) by (nonlinear_arith)
        requires
            0 < n,
    ;
    vstd::arithmetic::div_mod::lemma_div_is_ordered(a * range, n * range, n);
    vstd::arithmetic::div_mod::lemma_div_pos_is_pos(a * range, n);
}

/// A slider's value for a hit `offset` pixels along its track.
fn track_value_exec(offset: i64, min: i64, max: i64) -> (r: i64)
    requires
        0 <= offset <= TRACK_LENGTH,
        -VALUE_LIMIT <= min <= max <= VALUE_LIMIT,
    ensures
        r == track_value(offset as int, min as int, max as int),
        min <= r <= max,
{
    proof {
        lemma_scaled_within(offset as int, max - min, TRACK_LENGTH as int);
    }
    assert(offset * (max - min) <= TRACK_LENGTH * 2 * VALUE_LIMIT) by (nonlinear_arith)
        requires
            0 <= offset <= TRACK_LENGTH,
            0 <= max - min <= 2 * VALUE_LIMIT,
    ;
    min + offset * (max - min) / TRACK_LENGTH
}

/// A knob's value for a pointer at `angle` degrees from the knob's center,
/// mapped over the knob's sweep and clamped to `[min, max]`.
pub fn knob_value_for_angle(angle: i64, min: i64, max: i64) -> (r: i64)
    requires
        -VALUE_LIMIT <= min <= max <= VALUE_LIMIT,
        -VALUE_LIMIT <= angle <= VALUE_LIMIT,
    ensures
        r == knob_angle_value(angle as int, min as int, max as int),
        min <= r <= max,
{
    let a = clamp(angle + KNOB_SWEEP_DEGREES / 2, 0, KNOB_SWEEP_DEGREES);
    proof {
        lemma_scaled_within(a as int, max - min, KNOB_SWEEP_DEGREES as int);
    }
    assert(a * (max - min) <= KNOB_SWEEP_DEGREES * 2 * VALUE_LIMIT) by (nonlinear_arith)
        requires
            0 <= a <= KNOB_SWEEP_DEGREES,
            0 <= max - min <= 2 * VALUE_LIMIT,
    ;
    min + a * (max - min) / KNOB_SWEEP_DEGREES
}

/// The change of a knob's value for `delta` pixels of upward pointer travel
/// over a range of `range`.
fn knob_step_exec(delta: i64, range: i64) -> (r: i64)
    requires
        -4 * COORD_LIMIT <= delta <= 4 * COORD_LIMIT,
        0 <= range <= 2 * VALUE_LIMIT,
    ensures
        r == knob_step(delta as int, range as int),
        -8 * COORD_LIMIT * VALUE_LIMIT <= r <= 8 * COORD_LIMIT * VALUE_LIMIT,
{
    let d: i64 = if delta >= 0 {
        delta
    } else {
        -delta
    };
    assert(d * range <= 4 * COORD_LIMIT * 2 * VALUE_LIMIT) by (nonlinear_arith)
        requires
            0 <= d <= 4 * COORD_LIMIT,
            0 <= range <= 2 * VALUE_LIMIT,
    ;
    assert(0 <= d * range) by (nonlinear_arith)
        requires
            0 <= d,
            0 <= range,
    ;
    let q = d * range / KNOB_TRAVEL;
    assert(0 <= q <= d * range) by (nonlinear_arith)
        requires
            q == d * range / (KNOB_TRAVEL as int),
            0 <= d * range,
    ;
    if delta >= 0 {
        q
    } else {
        -q
    }
}

fn half_degree_tangent_exec(k: i64) -> (r: i64)
    ensures
        r == half_degree_tangent(k as int),
        0 <= r <= 1_000_000,
{
    if k == 1 {
        8727
    } else if k == 2 {
        26186
    } else if k == 3 {
        43661
    } else if k == 4 {
        61163
    } else if k == 5 {
        78702
    } else if k == 6 {
        96289
    } else if k == 7 {
        113936
    } else if k == 8 {
        131652
    } else if k == 9 {
        149451
    } else if k == 10 {
        167343
    } else if k == 11 {
        185339
    } else if k == 12 {
        203452
    } else if k == 13 {
        221695
    } else if k == 14 {
        240079
    } else if k == 15 {
        258618
    } else if k == 16 {
        277325
    } else if k == 17 {
        296213
    } else if k == 18 {
        315299
    } else if k == 19 {
        334595
    } else if k == 20 {
        354119
    } else if k == 21 {
        373885
    } else if k == 22 {
        393910
    } else if k == 23 {
        414214
    } else if k == 24 {
        434812
    } else if k == 25 {
        455726
    } else if k == 26 {
        476976
    } else if k == 27 {
        498582
    } else if k == 28 {
        520567
    } else if k == 29 {
        542956
    } else if k == 30 {
        565773
    } else if k == 31 {
        589045
    } else if k == 32 {
        612801
    } else if k == 33 {
        637070
    } else if k == 34 {
        661886
    } else if k == 35 {
        687281
    } else if k == 36 {
        713293
    } else if k == 37 {
        739961
    } else if k == 38 {
        767327
    } else if k == 39 {
        795436
    } else if k == 40 {
        824336
    } else if k == 41 {
        854081
    } else if k == 42 {
        884725
    } else if k == 43 {
        916331
    } else if k == 44 {
        948965
    } else if k == 45 {
        982697
    } else {
        0
    }
}

/// How many of the 45 half-degree bounds the slope `small / big` reaches.
fn bounds_reached_exec(small: i64, big: i64) -> (r: i64)
    requires
        0 <= small <= big <= 10 * COORD_LIMIT,
    ensures
        r == bounds_reached(small as int, big as int, 45),
        0 <= r <= 45,
{
    let mut k: i64 = 0;
    let mut count: i64 = 0;
    while k < 45
        invariant
            0 <= small <= big <= 10 * COORD_LIMIT,
            0 <= k <= 45,
            0 <= count <= k,
            count == bounds_reached(small as int, big as int, k as nat),
        decreases 45 - k,
    {
        k = k + 1;
        let t = half_degree_tangent_exec(k);
        assert(t * big <= 1_000_000 * (10 * COORD_LIMIT)) by (nonlinear_arith)
            requires
                0 <= t <= 1_000_000,
                0 <= big <= 10 * COORD_LIMIT,
        ;
        assert(0 <= t * big) by (nonlinear_arith)
            requires
                0 <= t,
                0 <= big,
        ;
        if t * big <= small * 1_000_000 {
            count = count + 1;
        }
    }
    count
}

/// The direction of `(dx, dy)` to the nearest whole degree.
fn angle_degrees_exec(dx: i64, dy: i64) -> (r: i64)
    requires
        -10 * COORD_LIMIT <= dx <= 10 * COORD_LIMIT,
        -10 * COORD_LIMIT <= dy <= 10 * COORD_LIMIT,
    ensures
        r == angle_degrees(dx as int, dy as int),
        -180 <= r <= 180,
{
    let ax: i64 = if dx < 0 {
        -dx
    } else {
        dx
    };
    let ay: i64 = if dy < 0 {
        -dy
    } else {
        dy
    };
    if ax + ay == 0 {
        return 0;
    }
    let t = if ay <= ax {
        bounds_reached_exec(ay, ax)
    } else {
        90 - bounds_reached_exec(ax, ay)
    };
    if dy >= 0 {
        if dx >= 0 {
            t
        } else {
            180 - t
        }
    } else {
        if dx >= 0 {
            -t
        } else {
            t - 180
        }
    }
}

/// The kind after a click at `p` on a widget of kind `k` covering `r`.
pub fn click_kind(k: WidgetKind, r: Rect, p: Point) -> (out: WidgetKind)
    requires
        k.wf(),
        r.wf(),
        p.wf(),
    ensures
        out == clicked(k, r, p),
        out.wf(),
{
    match k {
        WidgetKind::ToggleSwitch { on } => WidgetKind::ToggleSwitch { on: !on },
        WidgetKind::PushButton { active } => WidgetKind::PushButton { active: !active },
        WidgetKind::IconButton { active } => WidgetKind::IconButton { active: !active },
        WidgetKind::StatusBar { width, height, online } => WidgetKind::StatusBar {
            width,
            height,
            online: !online,
        },
        WidgetKind::Panel { width, height, collapsed, collapse_to_icon } => WidgetKind::Panel {
            width,
            height,
            collapsed: !collapsed,
            collapse_to_icon,
        },
        WidgetKind::Settings { minimized } => WidgetKind::Settings { minimized: !minimized },
        WidgetKind::Knob { value, min, max } => {
            let a = angle_degrees_exec(
                2 * p.x - (2 * r.x + r.w),
                2 * (p.y - r.y - DIAL_CENTER_OFFSET),
            );
            WidgetKind::Knob { value: knob_value_for_angle(a, min, max), min, max }
        },
        WidgetKind::HorizontalSlider { value, min, max } => {
            let c = r.center();
            let track = Rect::new(
                c.x + TRACK_OFFSET - TRACK_LENGTH / 2,
                c.y - TRACK_THICKNESS / 2,
                TRACK_LENGTH,
                TRACK_THICKNESS,
            );
            assert(track == horizontal_track(r));
            if track.contains(p) {
                let v = track_value_exec(p.x - track.x, min, max);
                WidgetKind::HorizontalSlider { value: v, min, max }
            } else {
                k
            }
        },
        WidgetKind::VerticalSlider { value, min, max } => {
            let c = r.center();
            let track = Rect::new(
                c.x - TRACK_THICKNESS / 2,
                c.y - TRACK_OFFSET - TRACK_LENGTH / 2,
                TRACK_THICKNESS,
                TRACK_LENGTH,
            );
            assert(track == vertical_track(r));
            if track.contains(p) {
                let v = track_value_exec(track.y + track.h - p.y, min, max);
                WidgetKind::VerticalSlider { value: v, min, max }
            } else {
                k
            }
        },
        _ => k,
    }
}

/// The kind after a resize drag by `(dx, dy)`.
pub fn resize_kind(k: WidgetKind, dx: i64, dy: i64) -> (out: WidgetKind)
    requires
        k.wf(),
        -4 * COORD_LIMIT <= dx <= 4 * COORD_LIMIT,
        -4 * COORD_LIMIT <= dy <= 4 * COORD_LIMIT,
    ensures
        out == resized(k, dx as int, dy as int),
        out.wf(),
{
    match k {
        WidgetKind::Panel { width, height, collapsed, collapse_to_icon } => WidgetKind::Panel {
            width: clamp(width + dx, PANEL_MIN_WIDTH, PANEL_MAX_WIDTH),
            height: clamp(height + dy, PANEL_MIN_HEIGHT, PANEL_MAX_HEIGHT),
            collapsed,
            collapse_to_icon,
        },
        WidgetKind::StatusBar { width, height, online } => WidgetKind::StatusBar {
            width: clamp(width + dx, STATUS_MIN_WIDTH, STATUS_MAX_WIDTH),
            height: clamp(height + dy, STATUS_MIN_HEIGHT, STATUS_MAX_HEIGHT),
            online,
        },
        _ => k,
    }
}

/// The kind after `delta` pixels of upward pointer travel while adjusting.
pub fn adjust_kind(k: WidgetKind, delta: i64) -> (out: WidgetKind)
    requires
        k.wf(),
        -4 * COORD_LIMIT <= delta <= 4 * COORD_LIMIT,
    ensures
        out == adjusted(k, delta as int),
        out.wf(),
{
    match k {
        WidgetKind::Knob { value, min, max } => {
            let step = knob_step_exec(delta, max - min);
            WidgetKind::Knob { value: clamp(value + step, min, max), min, max }
        },
        _ => k,
    }
}

} // verus!
