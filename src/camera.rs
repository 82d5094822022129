//! Orbit-camera input handling: which drag a held button starts, how the
//! pointer motion of one tick adds up, how scrolling or a zoom key changes
//! the orthographic scale or the orbit radius, and how a rotation moves the
//! camera's azimuth and polar angle.
//!
//! Pointer motion is held in fixed point, in thousandths of a pixel; a zoom
//! scale, an orbit radius and a scroll amount in thousandths; angles in
//! microradians.
use vstd::prelude::*;

verus! {

/// Smallest orthographic scale, in thousandths.
pub const ZOOM_SCALE_MIN: u32 = 100;

/// Largest orthographic scale, in thousandths.
pub const ZOOM_SCALE_MAX: u32 = 10_000;

/// One line of scroll changes the scale by a tenth: a scroll of `s`
/// thousandths multiplies the scale by `(ZOOM_DIVISOR - s) / ZOOM_DIVISOR`.
pub const ZOOM_DIVISOR: i128 = 10_000;

/// Microradians of rotation per thousandth of a pixel of pointer motion.
pub const ROTATION_PER_UNIT: i64 = 5;

/// Pi, in microradians.
pub const PI_MICRORAD: i64 = 3_141_593;

/// How close the polar angle may come to either pole, in microradians.
pub const POLE_MARGIN: i64 = 10_000;

/// The largest motion total, in thousandths of a pixel, that a rotation takes.
pub const MOTION_TOTAL_LIMIT: i64 = 0x1_0000_0000;

/// What the pointer motion of a tick drives.
#[derive(PartialEq, Eq, Structural, Clone, Copy, Debug)]
pub enum DragMode {
    /// The primary button is held: the camera orbits its focus.
    Rotate,
    /// The secondary button is held: the focus moves across the screen.
    Pan,
    /// No button is held: motion is discarded.
    Idle,
}

/// One raw pointer motion sample, in thousandths of a pixel.
#[derive(PartialEq, Eq, Structural, Clone, Copy, Debug)]
pub struct MotionSample {
    pub x: i32,
    pub y: i32,
}

/// A sum of pointer motion, in thousandths of a pixel.
#[derive(PartialEq, Eq, Structural, Clone, Copy, Debug)]
pub struct MotionTotal {
    pub x: i64,
    pub y: i64,
}

/// What the motion events of one tick amount to.
#[derive(PartialEq, Eq, Structural, Clone, Copy, Debug)]
pub struct MotionAccumulation {
    /// Motion that rotates the camera.
    pub rotation: MotionTotal,
    /// Motion that pans the camera.
    pub pan: MotionTotal,
    /// The raw sample that the next event is measured against.
    pub last_sample: Option<MotionSample>,
}

/// Azimuth and polar angle of the camera around its focus, in microradians.
#[derive(PartialEq, Eq, Structural, Clone, Copy, Debug)]
pub struct OrbitAngles {
    pub theta: i64,
    pub phi: i64,
}

pub open spec fn drag_mode_of(left: bool, right: bool) -> DragMode {
    if left {
        DragMode::Rotate
    } else if right {
        DragMode::Pan
    } else {
        DragMode::Idle
    }
}

/// The primary button wins over the secondary one.
pub fn drag_mode(left_held: bool, right_held: bool) -> (r: DragMode)
    ensures
        r == drag_mode_of(left_held, right_held),
{
    if left_held {
        DragMode::Rotate
    } else if right_held {
        DragMode::Pan
    } else {
        DragMode::Idle
    }
}

/// The sample that event `i` of `events` is measured against.
pub open spec fn sample_before(
    last: Option<MotionSample>,
    events: Seq<MotionSample>,
    i: int,
) -> Option<MotionSample> {
    if i == 0 {
        last
    } else {
        Some(events[i - 1])
    }
}

/// The sum, over the events, of each event's sample minus the sample before
/// it; an event with no sample before it adds nothing.
pub open spec fn motion_sum(last: Option<MotionSample>, events: Seq<MotionSample>) -> (int, int)
    decreases events.len(),
{
    if events.len() == 0 {
        (0, 0)
    } else {
        let n = events.len() - 1;
        let prev = motion_sum(last, events.take(n));
        match sample_before(last, events, n) {
            Some(p) => (prev.0 + events[n].x - p.x, prev.1 + events[n].y - p.y),
            None => prev,
        }
    }
}

/// The sample that the next tick is measured against.
pub open spec fn sample_after(last: Option<MotionSample>, events: Seq<MotionSample>) -> Option<
    MotionSample,
> {
    if events.len() == 0 {
        last
    } else {
        Some(events.last())
    }
}

pub open spec fn total_of(p: (int, int)) -> MotionTotal {
    MotionTotal { x: p.0 as i64, y: p.1 as i64 }
}

pub open spec fn zero_total() -> MotionTotal {
    MotionTotal { x: 0, y: 0 }
}

pub open spec fn accumulation_of(
    mode: DragMode,
    last: Option<MotionSample>,
    events: Seq<MotionSample>,
) -> MotionAccumulation {
    match mode {
        DragMode::Rotate => MotionAccumulation {
            rotation: total_of(motion_sum(last, events)),
            pan: zero_total(),
            last_sample: sample_after(last, events),
        },
        DragMode::Pan => MotionAccumulation {
            rotation: zero_total(),
            pan: total_of(motion_sum(last, events)),
            last_sample: sample_after(last, events),
        },
        DragMode::Idle => MotionAccumulation {
            rotation: zero_total(),
            pan: zero_total(),
            last_sample: None,
        },
    }
}

/// The motion sum telescopes: it is the last sample minus the first
/// reference sample (the one held from before, or else the first event).
pub proof fn lemma_motion_telescopes(last: Option<MotionSample>, events: Seq<MotionSample>)
    ensures
        events.len() == 0 ==> motion_sum(last, events) == (0int, 0int),
        events.len() > 0 ==> motion_sum(last, events) == match last {
            Some(s) => (events.last().x - s.x, events.last().y - s.y),
            None => (events.last().x - events[0].x, events.last().y - events[0].y),
        },
    decreases events.len(),
{
    if events.len() > 0 {
        let n = events.len() - 1;
        let prefix = events.take(n);
        lemma_motion_telescopes(last, prefix);
        if n > 0 {
            assert(prefix.last() == events[n - 1]);
            assert(prefix[0] == events[0]);
        }
    }
}

/// Sums the motion events of one tick in the given mode. Every event is
/// consumed; with no button held the reference sample is forgotten, so that
/// the next press does not measure against a stale one.
pub fn accumulate_motion(
    mode: DragMode,
    last_sample: Option<MotionSample>,
    events: &Vec<MotionSample>,
) -> (r: MotionAccumulation)
    ensures
        r == accumulation_of(mode, last_sample, events@),
        -MOTION_TOTAL_LIMIT <= r.rotation.x <= MOTION_TOTAL_LIMIT,
        -MOTION_TOTAL_LIMIT <= r.rotation.y <= MOTION_TOTAL_LIMIT,
        -MOTION_TOTAL_LIMIT <= r.pan.x <= MOTION_TOTAL_LIMIT,
        -MOTION_TOTAL_LIMIT <= r.pan.y <= MOTION_TOTAL_LIMIT,
{
    if mode == DragMode::Idle {
        return MotionAccumulation {
            rotation: MotionTotal { x: 0, y: 0 },
            pan: MotionTotal { x: 0, y: 0 },
            last_sample: None,
        };
    }
    let mut sum_x: i64 = 0;
    let mut sum_y: i64 = 0;
    let mut last = last_sample;
    let mut i: usize = 0;
    while i < events.len()
        invariant
            0 <= i <= events.len(),
            last == sample_after(last_sample, events@.take(i as int)),
            (sum_x as int, sum_y as int) == motion_sum(last_sample, events@.take(i as int)),
            -MOTION_TOTAL_LIMIT <= sum_x <= MOTION_TOTAL_LIMIT,
            -MOTION_TOTAL_LIMIT <= sum_y <= MOTION_TOTAL_LIMIT,
        decreases events.len() - i,
    {
        let e = events[i];
        let ghost prefix = events@.take(i as int + 1);
        assert(prefix.take(i as int) == events@.take(i as int));
        proof {
            lemma_motion_telescopes(last_sample, prefix);
        }
        match last {
            Some(p) => {
                sum_x = sum_x + (e.x as i64 - p.x as i64);
                sum_y = sum_y + (e.y as i64 - p.y as i64);
            },
            None => {},
        }
        last = Some(e);
        i = i + 1;
    }
    assert(events@.take(events.len() as int) == events@);
    let total = MotionTotal { x: sum_x, y: sum_y };
    if mode == DragMode::Rotate {
        MotionAccumulation { rotation: total, pan: MotionTotal { x: 0, y: 0 }, last_sample: last }
    } else {
        MotionAccumulation { rotation: MotionTotal { x: 0, y: 0 }, pan: total, last_sample: last }
    }
}

pub open spec fn clamp_int(v: int, lo: int, hi: int) -> int {
    if v < lo {
        lo
    } else if v > hi {
        hi
    } else {
        v
    }
}

/// The orthographic scale after one tick of scrolling: unchanged without a
/// scroll, else scaled by `1 - scroll / 10` and clamped into its range.
pub open spec fn zoomed_scale(scale: int, scroll: int) -> int {
    if scroll == 0 {
        scale
    } else {
        clamp_int(
            scale * (ZOOM_DIVISOR - scroll) / (ZOOM_DIVISOR as int),
            ZOOM_SCALE_MIN as int,
            ZOOM_SCALE_MAX as int,
        )
    }
}

/// The scale after a sequence of ticks, one scroll amount each.
pub open spec fn zoomed_scale_after(scale: int, scrolls: Seq<int>) -> int
    decreases scrolls.len(),
{
    if scrolls.len() == 0 {
        scale
    } else {
        zoomed_scale(zoomed_scale_after(scale, scrolls.drop_last()), scrolls.last())
    }
}

pub open spec fn scale_in_range(scale: int) -> bool {
    ZOOM_SCALE_MIN <= scale <= ZOOM_SCALE_MAX
}

/// Applies one tick of scrolling to an orthographic scale.
pub fn zoom_scale(scale: u32, scroll: i64) -> (r: u32)
    ensures
        r == zoomed_scale(scale as int, scroll as int),
        scroll != 0 ==> scale_in_range(r as int),
        scale_in_range(scale as int) ==> scale_in_range(r as int),
{
    if scroll == 0 {
        return scale;
    }
    let factor: i128 = ZOOM_DIVISOR - scroll as i128;
    assert(-0x1_0000_0000_0000_0000 <= factor <= 0x1_0000_0000_0000_0000);
    assert(-0x1_0000_0000_0000_0000_0000_0000 <= scale as int * factor
        <= 0x1_0000_0000_0000_0000_0000_0000) by (nonlinear_arith)
        requires
            -0x1_0000_0000_0000_0000 <= factor <= 0x1_0000_0000_0000_0000,
            0 <= scale <= 0xffff_ffff,
    ;
    let product: i128 = scale as i128 * factor;
    if product <= 0 {
        assert(product / ZOOM_DIVISOR <= 0);
        return ZOOM_SCALE_MIN;
    }
    let scaled: i128 = product / ZOOM_DIVISOR;
    if scaled < ZOOM_SCALE_MIN as i128 {
        ZOOM_SCALE_MIN
    } else if scaled > ZOOM_SCALE_MAX as i128 {
        ZOOM_SCALE_MAX
    } else {
        scaled as u32
    }
}

/// Whatever the scrolling, a scale that starts in its range stays there.
pub proof fn lemma_zoom_stays_in_range(scale: int, scrolls: Seq<int>)
    requires
        scale_in_range(scale),
    ensures
        scale_in_range(zoomed_scale_after(scale, scrolls)),
    decreases scrolls.len(),
{
    if scrolls.len() > 0 {
        lemma_zoom_stays_in_range(scale, scrolls.drop_last());
    }
}

/// Parts per million in a radius zoom factor.
pub const RADIUS_ZOOM_DIVISOR: i128 = 1_000_000;

/// A held zoom key.
#[derive(PartialEq, Eq, Structural, Clone, Copy, Debug)]
pub enum ZoomKey {
    /// The zoom-in key: the camera moves toward its focus.
    In,
    /// The zoom-out key: the camera moves away from its focus.
    Out,
    /// Neither key.
    Neither,
}

/// How a perspective camera's orbit radius zooms, all in thousandths: the
/// radius range, the share of the radius that one line of scroll takes away,
/// and the step of a held zoom key.
#[derive(PartialEq, Eq, Structural, Clone, Copy, Debug)]
pub struct RadiusZoom {
    pub min: u32,
    pub max: u32,
    pub gain: u16,
    pub step: u32,
}

/// The orbit radius after one tick: scrolling takes `scroll * radius * gain`
/// away; without a scroll a held key moves the radius by a step; either way
/// the radius is then clamped into its range.
pub open spec fn zoomed_radius(radius: int, scroll: int, key: ZoomKey, zoom: RadiusZoom) -> int {
    clamp_int(
        if scroll != 0 {
            radius * (RADIUS_ZOOM_DIVISOR - scroll * zoom.gain) / (RADIUS_ZOOM_DIVISOR as int)
        } else {
            match key {
                ZoomKey::In => radius - zoom.step,
                ZoomKey::Out => radius + zoom.step,
                ZoomKey::Neither => radius,
            }
        },
        zoom.min as int,
        zoom.max as int,
    )
}

/// The radius after a sequence of ticks, one scroll amount and key each.
pub open spec fn zoomed_radius_after(radius: int, inputs: Seq<(int, ZoomKey)>, zoom: RadiusZoom) -> int
    decreases inputs.len(),
{
    if inputs.len() == 0 {
        radius
    } else {
        zoomed_radius(
            zoomed_radius_after(radius, inputs.drop_last(), zoom),
            inputs.last().0,
            inputs.last().1,
            zoom,
        )
    }
}

/// Applies one tick of scrolling, or else of a held zoom key, to the orbit
/// radius of a perspective camera.
pub fn zoom_radius(radius: u32, scroll: i64, key: ZoomKey, zoom: RadiusZoom) -> (r: u32)
    requires
        zoom.min <= zoom.max,
    ensures
        r == zoomed_radius(radius as int, scroll as int, key, zoom),
        zoom.min <= r <= zoom.max,
{
    let moved: i128 = if scroll != 0 {
        assert(-0x1_0000_0000_0000_0000_0000 <= scroll as int * zoom.gain as int
            <= 0x1_0000_0000_0000_0000_0000) by (nonlinear_arith)
            requires
                -0x8000_0000_0000_0000 <= scroll <= 0x7fff_ffff_ffff_ffff,
                0 <= zoom.gain <= 0xffff,
        ;
        let taken: i128 = scroll as i128 * zoom.gain as i128;
        let factor: i128 = RADIUS_ZOOM_DIVISOR - taken;
        assert(-0x2_0000_0000_0000_0000_0000_0000_0000 <= radius as int * factor
            <= 0x2_0000_0000_0000_0000_0000_0000_0000) by (nonlinear_arith)
            requires
                -0x2_0000_0000_0000_0000_0000 <= factor <= 0x2_0000_0000_0000_0000_0000,
                0 <= radius <= 0xffff_ffff,
        ;
        let product: i128 = radius as i128 * factor;
        if product <= 0 {
            assert(product / RADIUS_ZOOM_DIVISOR <= 0);
            0
        } else {
            product / RADIUS_ZOOM_DIVISOR
        }
    } else {
        match key {
            ZoomKey::In => radius as i128 - zoom.step as i128,
            ZoomKey::Out => radius as i128 + zoom.step as i128,
            ZoomKey::Neither => radius as i128,
        }
    };
    if moved < zoom.min as i128 {
        zoom.min
    } else if moved > zoom.max as i128 {
        zoom.max
    } else {
        moved as u32
    }
}

/// Whatever the scrolling and the keys, the orbit radius after one or more
/// ticks lies in its range, and a radius that starts there stays there.
pub proof fn lemma_radius_stays_in_range(radius: int, inputs: Seq<(int, ZoomKey)>, zoom: RadiusZoom)
    requires
        zoom.min <= zoom.max,
    ensures
        inputs.len() > 0 ==> zoom.min <= zoomed_radius_after(radius, inputs, zoom) <= zoom.max,
        zoom.min <= radius <= zoom.max ==> zoom.min <= zoomed_radius_after(radius, inputs, zoom)
            <= zoom.max,
    decreases inputs.len(),
{
    if inputs.len() > 0 {
        lemma_radius_stays_in_range(radius, inputs.drop_last(), zoom);
    }
}

pub open spec fn clamp_polar(phi: int) -> int {
    clamp_int(phi, POLE_MARGIN as int, PI_MICRORAD - POLE_MARGIN)
}

/// The angles after a rotation: the azimuth follows horizontal motion, the
/// polar angle goes against vertical motion and stays off the poles.
pub open spec fn rotated_angles(angles: OrbitAngles, motion: MotionTotal) -> OrbitAngles {
    OrbitAngles {
        theta: (angles.theta + motion.x * ROTATION_PER_UNIT) as i64,
        phi: clamp_polar(angles.phi - motion.y * ROTATION_PER_UNIT) as i64,
    }
}

/// Turns the camera's spherical angles by a motion total. The azimuth comes
/// from `atan2` and the polar angle from `acos`, hence their ranges.
pub fn rotate_angles(angles: OrbitAngles, motion: MotionTotal) -> (r: OrbitAngles)
    requires
        -PI_MICRORAD <= angles.theta <= PI_MICRORAD,
        0 <= angles.phi <= PI_MICRORAD,
        -MOTION_TOTAL_LIMIT <= motion.x <= MOTION_TOTAL_LIMIT,
        -MOTION_TOTAL_LIMIT <= motion.y <= MOTION_TOTAL_LIMIT,
    ensures
        r == rotated_angles(angles, motion),
        r.theta == angles.theta + motion.x * ROTATION_PER_UNIT,
        POLE_MARGIN <= r.phi <= PI_MICRORAD - POLE_MARGIN,
{
    let theta = angles.theta + motion.x * ROTATION_PER_UNIT;
    let raw_phi = angles.phi - motion.y * ROTATION_PER_UNIT;
    let phi = if raw_phi < POLE_MARGIN {
        POLE_MARGIN
    } else if raw_phi > PI_MICRORAD - POLE_MARGIN {
        PI_MICRORAD - POLE_MARGIN
    } else {
        raw_phi
    };
    OrbitAngles { theta, phi }
}

/// Whatever the motion, the polar angle after a rotation is neither zero nor
/// pi: it keeps at least the margin from both poles.
pub proof fn lemma_polar_angle_avoids_poles(angles: OrbitAngles, motion: MotionTotal)
    ensures
        POLE_MARGIN <= rotated_angles(angles, motion).phi <= PI_MICRORAD - POLE_MARGIN,
        rotated_angles(angles, motion).phi != 0,
        rotated_angles(angles, motion).phi != PI_MICRORAD,
{
}

} // verus!
