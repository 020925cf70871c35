//! The scene catalogue and each scene's derived data, rebuilt whenever
//! the active body set or a scene setting changes.

use vstd::prelude::*;
use crate::units::MICRO;
use crate::units::clamp_spec;
use crate::geometry::Pos2;
use crate::geometry::Pos3;
use crate::colour::Colour;
use crate::body::PlanetaryObject;
use crate::body::PlanetarySystem;
use crate::body::object_valid;
use crate::body::distance_order_spec;
use crate::body::sorted_order_by_distance;
use crate::table::TimeAngle;
use crate::table::sorted_by_time;
use crate::kepler::build_angle_time_table;
use crate::kepler::angle_time_table_spec;
use crate::kepler::sample_count;
use crate::kepler::MAX_TABLE_ECCENTRICITY;
use crate::kepler::MAX_PERIOD;
use crate::lookup::table_entries_ok;
use crate::sampler::sample_orbit2;
use crate::sampler::sample_orbit3;
use crate::sampler::sample_orbit2_rotated;
use crate::sampler::sample_uniform_line;
use crate::sampler::orbit_path2_spec;
use crate::sampler::orbit_path3_spec;
use crate::sampler::orbit_path2_rotated_spec;
use crate::sampler::uniform_line_spec;
use crate::animation::AnimationClock;
use crate::animation::uniform_angle;
use crate::animation::uniform_angle_spec;
use crate::animation::animated_position;
use crate::animation::animated_position_spec;
use crate::animation::recentre;
use crate::animation::push_trail;
use crate::animation::positions_within;
use crate::animation::MAX_SIM_TIME;
use crate::animation::MAX_FRAME_DELTA;
use crate::geometry::MAX_DISTANCE;
use crate::geometry::position2;
use crate::geometry::position3;
use crate::geometry::pos2_x_spec;
use crate::geometry::pos2_y_spec;
use crate::geometry::pos3_x_spec;
use crate::geometry::pos3_y_spec;
use crate::geometry::pos3_z_spec;
use crate::scene::SceneConfig;
use crate::scene::scene_config_wf;
use crate::spiro::PairSelection;
use crate::spiro::selection_wf;
use crate::spiro::ordered_pair_spec;
use crate::spiro::spirograph_trace;
use crate::spiro::spiro_segment_spec;
use crate::spiro::SpiroSegment;
use crate::regression::PlotPoint;
use crate::regression::pow_three_halves;
use crate::regression::pow_three_halves_spec;
use crate::regression::fit_points;
use crate::regression::slope_spec;
use crate::regression::r_squared_spec;
use crate::regression::sum_y_spec;
use crate::regression::points_ok;
use crate::regression::MAX_POINTS;
use crate::units::tdiv;

verus! {

/// How many scenes the application offers.
pub const TASKS_NUM: usize = 10;

/// The number of path steps the planar orbit plots use.
pub const TASK_2_STEPS: i64 = 1_000;

/// The number of path steps the spatial orbit plots use.
pub const TASK_4_STEPS: i64 = 10_000;

/// The number of path steps the angle-versus-time plot uses.
pub const TASK_5A_STEPS: i64 = 1_000;

pub const TASK_5B_STEPS: i64 = 1_000;

pub const TASK_6_STEPS: i64 = 1_000;

/// The scenes, in menu order.
#[derive(PartialEq, Eq, Structural, Clone, Copy, Debug)]
pub enum Task {
    Task1,
    Task2,
    Task2Rotated,
    Task3,
    Task4,
    Task5A,
    Task5B,
    Task5C,
    Task6,
    Task7,
}

impl Task {
    /// The scene's stable position in the menu.
    pub fn task_index(&self) -> (r: usize)
        ensures
            r < TASKS_NUM,
            Task::from_index_spec(r as int) == *self,
    {
        match *self {
            Self::Task1 => 0,
            Self::Task2 => 1,
            Self::Task2Rotated => 2,
            Self::Task3 => 3,
            Self::Task4 => 4,
            Self::Task5A => 5,
            Self::Task5B => 6,
            Self::Task5C => 7,
            Self::Task6 => 8,
            Self::Task7 => 9,
        }
    }

    /// The scene at a menu position.
    pub open spec fn from_index_spec(index: int) -> Task {
        if index == 0 {
            Task::Task1
        } else if index == 1 {
            Task::Task2
        } else if index == 2 {
            Task::Task2Rotated
        } else if index == 3 {
            Task::Task3
        } else if index == 4 {
            Task::Task4
        } else if index == 5 {
            Task::Task5A
        } else if index == 6 {
            Task::Task5B
        } else if index == 7 {
            Task::Task5C
        } else if index == 8 {
            Task::Task6
        } else {
            Task::Task7
        }
    }

    pub fn from_index(index: usize) -> (r: Task)
        requires
            index < TASKS_NUM,
        ensures
            r == Task::from_index_spec(index as int),
    {
        match index {
            0 => Self::Task1,
            1 => Self::Task2,
            2 => Self::Task2Rotated,
            3 => Self::Task3,
            4 => Self::Task4,
            5 => Self::Task5A,
            6 => Self::Task5B,
            7 => Self::Task5C,
            8 => Self::Task6,
            _ => Self::Task7,
        }
    }

    /// The scene's menu caption. (The engine's types carry no display
    /// trait; callers wanting one wrap this method.)
    pub fn display_name(&self) -> (r: String)
        ensures
            r@ == match *self {
                Task::Task1 => "Task 1"@,
                Task::Task2 => "Task 2"@,
                Task::Task2Rotated => "Task 2 with rotation"@,
                Task::Task3 => "Task 3"@,
                Task::Task4 => "Task 4"@,
                Task::Task5A => "Task 5a"@,
                Task::Task5B => "Task 5b"@,
                Task::Task5C => "Task 5c"@,
                Task::Task6 => "Task 6"@,
                Task::Task7 => "Task 7"@,
            },
    {
        match *self {
            Self::Task1 => "Task 1".to_owned(),
            Self::Task2 => "Task 2".to_owned(),
            Self::Task2Rotated => "Task 2 with rotation".to_owned(),
            Self::Task3 => "Task 3".to_owned(),
            Self::Task4 => "Task 4".to_owned(),
            Self::Task5A => "Task 5a".to_owned(),
            Self::Task5B => "Task 5b".to_owned(),
            Self::Task5C => "Task 5c".to_owned(),
            Self::Task6 => "Task 6".to_owned(),
            Self::Task7 => "Task 7".to_owned(),
        }
    }

    /// Whether the scene draws under the top panel, so the panel must be
    /// laid out first.
    pub fn render_after_top_panel(&self) -> (r: bool)
        ensures
            r == match *self {
                Task::Task1
                | Task::Task2
                | Task::Task2Rotated
                | Task::Task3
                | Task::Task5A
                | Task::Task5B => true,
                Task::Task4 | Task::Task5C | Task::Task6 | Task::Task7 => false,
            },
    {
        match *self {
            Self::Task1 | Self::Task2 | Self::Task2Rotated | Self::Task3 | Self::Task5A
                | Self::Task5B => true,
            Self::Task4 | Self::Task5C | Self::Task6 | Self::Task7 => false,
        }
    }

    /// Whether the scene animates, so every frame must be repainted.
    pub fn should_request_repaint(&self) -> (r: bool)
        ensures
            r == match *self {
                Task::Task3 | Task::Task4 | Task::Task5B | Task::Task5C | Task::Task7 => true,
                Task::Task1 | Task::Task2 | Task::Task2Rotated | Task::Task5A | Task::Task6
                    => false,
            },
    {
        match *self {
            Self::Task3 | Self::Task4 | Self::Task5B | Self::Task5C | Self::Task7 => true,
            Self::Task1 | Self::Task2 | Self::Task2Rotated | Self::Task5A | Self::Task6 => false,
        }
    }
}

/// Whether body `i` is displayed: the flag at its index, true when the
/// map carries no entry for it.
pub open spec fn body_active_spec(active: Seq<bool>, i: int) -> bool {
    i >= active.len() || active[i]
}

pub fn body_active(active: &Vec<bool>, i: usize) -> (r: bool)
    ensures
        r == body_active_spec(active@, i as int),
{
    i >= active.len() || active[i]
}

/// The bodies in ascending order of distance, as indices.
pub open spec fn body_order_spec(objects: Seq<PlanetaryObject>) -> Seq<usize> {
    Seq::new(objects.len(), |k: int| distance_order_spec(objects)[k].angle as usize)
}

/// The active bodies of an ordered index list, in order.
pub open spec fn visible_order_spec(order: Seq<usize>, active: Seq<bool>) -> Seq<usize>
    decreases order.len(),
{
    if order.len() == 0 {
        Seq::empty()
    } else {
        let rest = visible_order_spec(order.drop_last(), active);
        if body_active_spec(active, order.last() as int) {
            rest.push(order.last())
        } else {
            rest
        }
    }
}

/// The displayed bodies in ascending order of distance.
pub open spec fn visible_bodies_spec(objects: Seq<PlanetaryObject>, active: Seq<bool>) -> Seq<
    usize,
> {
    visible_order_spec(body_order_spec(objects), active)
}

proof fn lemma_visible_order_bounds(order: Seq<usize>, active: Seq<bool>, n: int)
    requires
        forall|k: int| 0 <= k < order.len() ==> (#[trigger] order[k]) < n,
    ensures
        visible_order_spec(order, active).len() <= order.len(),
        forall|k: int|
            0 <= k < visible_order_spec(order, active).len() ==> (#[trigger] visible_order_spec(
                order,
                active,
            )[k]) < n,
    decreases order.len(),
{
    if order.len() > 0 {
        assert(forall|k: int|
            0 <= k < order.drop_last().len() ==> (#[trigger] order.drop_last()[k]) < n);
        lemma_visible_order_bounds(order.drop_last(), active, n);
        assert(order[order.len() - 1] == order.last());
    }
}

/// List the displayed bodies, nearest first.
pub fn visible_bodies(objects: &Vec<PlanetaryObject>, active: &Vec<bool>) -> (r: Vec<usize>)
    requires
        objects@.len() < 0x8000_0000,
    ensures
        r@ == visible_bodies_spec(objects@, active@),
        r@.len() <= objects@.len(),
        forall|k: int| 0 <= k < r@.len() ==> (#[trigger] r@[k]) < objects@.len(),
{
    let order = sorted_order_by_distance(objects);
    proof {
        assert(order@ =~= body_order_spec(objects@));
        lemma_visible_order_bounds(order@, active@, objects@.len() as int);
    }
    let mut out: Vec<usize> = Vec::new();
    let mut i: usize = 0;
    while i < order.len()
        invariant
            0 <= i <= order@.len(),
            order@ == body_order_spec(objects@),
            order@.len() == objects@.len(),
            forall|k: int| 0 <= k < order@.len() ==> (#[trigger] order@[k]) < objects@.len(),
            out@ == visible_order_spec(order@.take(i as int), active@),
            forall|k: int| 0 <= k < out@.len() ==> (#[trigger] out@[k]) < objects@.len(),
        decreases order@.len() - i,
    {
        proof {
            assert(order@.take(i as int + 1).drop_last() =~= order@.take(i as int));
            assert(order@.take(i as int + 1).last() == order@[i as int]);
        }
        if body_active(active, order[i]) {
            let idx = order[i];
            out.push(idx);
        }
        i = i + 1;
    }
    proof {
        assert(order@.take(order@.len() as int) =~= order@);
    }
    out
}

/// All bodies of a system lie in the engine's ranges.
pub open spec fn objects_valid(s: Seq<PlanetaryObject>) -> bool {
    forall|i: int| 0 <= i < s.len() ==> object_valid(#[trigger] s[i])
}

/// A drawn orbit path in the plane.
pub struct OrbitPath2 {
    pub path: Vec<Pos2>,
    pub colour: Colour,
    pub body: usize,
    pub marker_at_origin: bool,
}

/// A drawn orbit path in space.
pub struct OrbitPath3 {
    pub path: Vec<Pos3>,
    pub colour: Colour,
    pub body: usize,
}

/// A drawn marker in the plane.
#[derive(Clone, Copy, PartialEq, Eq, Structural, Debug)]
pub struct Marker2 {
    pub pos: Pos2,
    pub colour: Colour,
    pub body: usize,
}

/// A drawn marker in space; ring markers are stroke-only.
#[derive(Clone, Copy, PartialEq, Eq, Structural, Debug)]
pub struct Marker3 {
    pub pos: Pos3,
    pub colour: Colour,
    pub body: usize,
    pub stroke_only: bool,
}

/// One curve of the time-versus-angle plot.
pub struct AngleLine {
    pub samples: Vec<TimeAngle>,
    pub colour: Colour,
    pub body: usize,
    pub is_reference: bool,
}


/// The angle-time table a scene keeps for one body: empty when the body
/// is hidden, has no orbital radius, or its eccentricity lies beyond the
/// solver's range; otherwise one full turn sampled every ten steps.
pub open spec fn body_table_spec(o: PlanetaryObject, shown: bool) -> Seq<TimeAngle> {
    if shown && o.distance_au != 0 && o.eccentricity <= MAX_TABLE_ECCENTRICITY {
        angle_time_table_spec(o.period_years as int, o.eccentricity as int, 1, 10)
    } else {
        Seq::empty()
    }
}

/// Build each body's angle-time table, indexed by the stable body index.
/// A hidden body, a body of zero orbital radius and a body whose
/// eccentricity lies at or beyond the solver's range all keep an empty
/// table — and a body without a table never shows a solver-driven
/// marker.
pub fn build_body_tables(objects: &Vec<PlanetaryObject>, active: &Vec<bool>) -> (r: Vec<
    Vec<TimeAngle>,
>)
    requires
        objects_valid(objects@),
    ensures
        r@.len() == objects@.len(),
        forall|i: int|
            0 <= i < r@.len() ==> (#[trigger] r@[i])@ == body_table_spec(
                objects@[i],
                body_active_spec(active@, i),
            ),
        forall|i: int|
            0 <= i < r@.len() ==> sorted_by_time((#[trigger] r@[i])@) && table_entries_ok(r@[i]@),
{
    let mut out: Vec<Vec<TimeAngle>> = Vec::new();
    let mut i: usize = 0;
    while i < objects.len()
        invariant
            0 <= i <= objects@.len(),
            objects_valid(objects@),
            out@.len() == i,
            forall|k: int|
                0 <= k < i ==> (#[trigger] out@[k])@ == body_table_spec(
                    objects@[k],
                    body_active_spec(active@, k),
                ),
            forall|k: int|
                0 <= k < i ==> sorted_by_time((#[trigger] out@[k])@) && table_entries_ok(
                    out@[k]@,
                ),
        decreases objects@.len() - i,
    {
        let o = &objects[i];
        let shown = body_active(active, i);
        let table: Vec<TimeAngle> = if shown && o.distance_au != 0 && o.eccentricity
            <= MAX_TABLE_ECCENTRICITY {
            build_angle_time_table(o.period_years, o.eccentricity, 1, 10)
        } else {
            Vec::new()
        };
        out.push(table);
        i = i + 1;
    }
    out
}

/// One point of the third-law plot, keyed back to its body.
#[derive(Clone, Copy, PartialEq, Eq, Structural, Debug)]
pub struct Task1Point {
    pub x: i64,
    pub y: i64,
    pub colour: Colour,
    pub body: usize,
}

/// The fit points of the displayed bodies, nearest first.
pub open spec fn task1_plot_spec(objects: Seq<PlanetaryObject>, vis: Seq<usize>) -> Seq<
    PlotPoint,
> {
    Seq::new(
        vis.len(),
        |k: int|
            PlotPoint {
                x: pow_three_halves_spec(objects[vis[k] as int].distance_au as int) as i64,
                y: objects[vis[k] as int].period_years,
            },
    )
}

/// The third-law scene: period against distance to the three halves,
/// with the least-squares slope and its coefficient of determination.
pub struct Task1Data {
    pub points: Vec<Task1Point>,
    pub slope: i64,
    pub r_squared: i64,
}


/// Everything one rebuild of the third-law scene does: the plot holds
/// one point per displayed body, nearest first, and the fit matches the
/// plot (a perfect unit fit stands in when nothing is displayed).
pub open spec fn task1_init_post(
    objects: Seq<PlanetaryObject>,
    active: Seq<bool>,
    post: Task1Data,
) -> bool {
    &&& post.points@.len() == visible_bodies_spec(objects, active).len()
    &&& forall|k: int|
        0 <= k < post.points@.len() ==> {
            let vis = visible_bodies_spec(objects, active);
            let o = objects[vis[k] as int];
            (#[trigger] post.points@[k]) == (Task1Point {
                x: pow_three_halves_spec(o.distance_au as int) as i64,
                y: o.period_years,
                colour: o.colour,
                body: vis[k],
            })
        }
    &&& ({
        let plot = task1_plot_spec(objects, visible_bodies_spec(objects, active));
        if plot.len() > 0 {
            post.slope as int == slope_spec(plot) && post.r_squared as int == r_squared_spec(
                plot,
                slope_spec(plot),
                tdiv(sum_y_spec(plot), plot.len() as int),
            )
        } else {
            post.slope == MICRO && post.r_squared == MICRO
        }
    })
}

impl Task1Data {
    pub fn new() -> (r: Task1Data)
        ensures
            r.points@.len() == 0,
            r.slope == MICRO,
            r.r_squared == MICRO,
    {
        Task1Data { points: Vec::new(), slope: MICRO, r_squared: MICRO }
    }

    /// Rebuild the plot and the fit from the displayed bodies; with no
    /// body displayed, a perfect unit fit stands in.
    pub fn init(&mut self, objects: &Vec<PlanetaryObject>, active: &Vec<bool>)
        requires
            objects_valid(objects@),
            objects@.len() <= MAX_POINTS,
        ensures
            task1_init_post(objects@, active@, *final(self)),
    {
        let ghost vis_spec = visible_bodies_spec(objects@, active@);
        let ghost plot_spec = task1_plot_spec(objects@, vis_spec);
        let vis = visible_bodies(objects, active);
        let mut points: Vec<Task1Point> = Vec::new();
        let mut plot: Vec<PlotPoint> = Vec::new();
        let mut k: usize = 0;
        while k < vis.len()
            invariant
                0 <= k <= vis@.len(),
                objects_valid(objects@),
                objects@.len() <= MAX_POINTS,
                vis@ == vis_spec,
                vis@.len() <= objects@.len(),
                forall|j: int| 0 <= j < vis@.len() ==> (#[trigger] vis@[j]) < objects@.len(),
                plot_spec == task1_plot_spec(objects@, vis_spec),
                points@.len() == k,
                plot@.len() == k,
                forall|j: int|
                    0 <= j < k ==> (#[trigger] points@[j]) == (Task1Point {
                        x: pow_three_halves_spec(
                            objects@[vis_spec[j] as int].distance_au as int,
                        ) as i64,
                        y: objects@[vis_spec[j] as int].period_years,
                        colour: objects@[vis_spec[j] as int].colour,
                        body: vis_spec[j],
                    }),
                forall|j: int| 0 <= j < k ==> (#[trigger] plot@[j]) == plot_spec[j],
                points_ok(plot@),
            decreases vis@.len() - k,
        {
            let idx = vis[k];
            let o = &objects[idx];
            let x = pow_three_halves(o.distance_au);
            points.push(Task1Point { x, y: o.period_years, colour: o.colour, body: idx });
            plot.push(PlotPoint { x, y: o.period_years });
            k = k + 1;
        }
        proof {
            assert(plot@ =~= plot_spec);
        }
        if plot.len() > 0 {
            let fit = fit_points(&plot);
            self.slope = fit.slope;
            self.r_squared = fit.r_squared;
        } else {
            self.slope = MICRO;
            self.r_squared = MICRO;
        }
        self.points = points;
    }
}

/// The planar orbit-shape scene.
pub struct Task2Data {
    pub points: Vec<OrbitPath2>,
}


/// Everything one rebuild of the planar orbit scene does: one drawn
/// orbit per displayed body, nearest first, a zero-radius body flagged
/// for its origin marker.
pub open spec fn task2_init_post(
    objects: Seq<PlanetaryObject>,
    active: Seq<bool>,
    post: Task2Data,
) -> bool {
    &&& post.points@.len() == visible_bodies_spec(objects, active).len()
    &&& forall|k: int|
        0 <= k < post.points@.len() ==> {
            let vis = visible_bodies_spec(objects, active);
            let o = objects[vis[k] as int];
            (#[trigger] post.points@[k]).path@ == orbit_path2_spec(
                o.distance_au as int,
                o.eccentricity as int,
                TASK_2_STEPS as int,
            ) && post.points@[k].colour == o.colour && post.points@[k].body == vis[k]
                && post.points@[k].marker_at_origin == (o.distance_au == 0)
        }
}

impl Task2Data {
    pub fn new() -> (r: Task2Data)
        ensures
            r.points@.len() == 0,
    {
        Task2Data { points: Vec::new() }
    }

    /// Rebuild the drawn orbits of the displayed bodies, nearest first.
    /// A body of zero orbital radius keeps a marker at the origin.
    pub fn init(&mut self, objects: &Vec<PlanetaryObject>, active: &Vec<bool>)
        requires
            objects_valid(objects@),
            objects@.len() < 0x8000_0000,
        ensures
            task2_init_post(objects@, active@, *final(self)),
    {
        let ghost vis_spec = visible_bodies_spec(objects@, active@);
        let vis = visible_bodies(objects, active);
        let mut points: Vec<OrbitPath2> = Vec::new();
        let mut k: usize = 0;
        while k < vis.len()
            invariant
                0 <= k <= vis@.len(),
                objects_valid(objects@),
                vis@ == vis_spec,
                forall|j: int| 0 <= j < vis@.len() ==> (#[trigger] vis@[j]) < objects@.len(),
                points@.len() == k,
                forall|j: int|
                    0 <= j < k ==> {
                        let o = objects@[vis_spec[j] as int];
                        (#[trigger] points@[j]).path@ == orbit_path2_spec(
                            o.distance_au as int,
                            o.eccentricity as int,
                            TASK_2_STEPS as int,
                        ) && points@[j].colour == o.colour && points@[j].body == vis_spec[j]
                            && points@[j].marker_at_origin == (o.distance_au == 0)
                    },
            decreases vis@.len() - k,
        {
            let idx = vis[k];
            let o = &objects[idx];
            let path = sample_orbit2(o.distance_au, o.eccentricity, TASK_2_STEPS);
            points.push(
                OrbitPath2 {
                    path,
                    colour: o.colour,
                    body: idx,
                    marker_at_origin: o.distance_au == 0,
                },
            );
            k = k + 1;
        }
        self.points = points;
    }
}

/// The oriented-ellipse scene: as the planar scene, but each ellipse
/// turned by its longitude of perihelion.
pub struct Task2RotatedData {
    pub points: Vec<OrbitPath2>,
}


/// As the planar orbit scene, with each ellipse oriented by its
/// longitude of perihelion.
pub open spec fn task2_rotated_init_post(
    objects: Seq<PlanetaryObject>,
    active: Seq<bool>,
    post: Task2RotatedData,
) -> bool {
    &&& post.points@.len() == visible_bodies_spec(objects, active).len()
    &&& forall|k: int|
        0 <= k < post.points@.len() ==> {
            let vis = visible_bodies_spec(objects, active);
            let o = objects[vis[k] as int];
            (#[trigger] post.points@[k]).path@ == orbit_path2_rotated_spec(
                o.distance_au as int,
                o.eccentricity as int,
                o.longitude_of_perihelion as int,
                TASK_2_STEPS as int,
            ) && post.points@[k].colour == o.colour && post.points@[k].body == vis[k]
                && post.points@[k].marker_at_origin == (o.distance_au == 0)
        }
}

impl Task2RotatedData {
    pub fn new() -> (r: Task2RotatedData)
        ensures
            r.points@.len() == 0,
    {
        Task2RotatedData { points: Vec::new() }
    }

    pub fn init(&mut self, objects: &Vec<PlanetaryObject>, active: &Vec<bool>)
        requires
            objects_valid(objects@),
            objects@.len() < 0x8000_0000,
        ensures
            task2_rotated_init_post(objects@, active@, *final(self)),
    {
        let ghost vis_spec = visible_bodies_spec(objects@, active@);
        let vis = visible_bodies(objects, active);
        let mut points: Vec<OrbitPath2> = Vec::new();
        let mut k: usize = 0;
        while k < vis.len()
            invariant
                0 <= k <= vis@.len(),
                objects_valid(objects@),
                vis@ == vis_spec,
                forall|j: int| 0 <= j < vis@.len() ==> (#[trigger] vis@[j]) < objects@.len(),
                points@.len() == k,
                forall|j: int|
                    0 <= j < k ==> {
                        let o = objects@[vis_spec[j] as int];
                        (#[trigger] points@[j]).path@ == orbit_path2_rotated_spec(
                            o.distance_au as int,
                            o.eccentricity as int,
                            o.longitude_of_perihelion as int,
                            TASK_2_STEPS as int,
                        ) && points@[j].colour == o.colour && points@[j].body == vis_spec[j]
                            && points@[j].marker_at_origin == (o.distance_au == 0)
                    },
            decreases vis@.len() - k,
        {
            let idx = vis[k];
            let o = &objects[idx];
            let path = sample_orbit2_rotated(
                o.distance_au,
                o.eccentricity,
                o.longitude_of_perihelion,
                TASK_2_STEPS,
            );
            points.push(
                OrbitPath2 {
                    path,
                    colour: o.colour,
                    body: idx,
                    marker_at_origin: o.distance_au == 0,
                },
            );
            k = k + 1;
        }
        self.points = points;
    }
}

/// The planar marker a uniformly circling body shows at a clock reading.
pub open spec fn uniform_marker2_spec(o: PlanetaryObject, time: int) -> Pos2 {
    let theta = uniform_angle_spec(time, o.period_years as int);
    Pos2 {
        x: pos2_x_spec(o.distance_au as int, o.eccentricity as int, theta) as i64,
        y: pos2_y_spec(o.distance_au as int, o.eccentricity as int, theta) as i64,
    }
}

/// The spatial marker a uniformly circling body shows at a clock reading.
pub open spec fn uniform_marker3_spec(o: PlanetaryObject, time: int) -> Pos3 {
    let theta = uniform_angle_spec(time, o.period_years as int);
    Pos3 {
        x: pos3_x_spec(
            o.distance_au as int,
            o.eccentricity as int,
            o.inclination as int,
            theta,
        ) as i64,
        y: pos3_y_spec(
            o.distance_au as int,
            o.eccentricity as int,
            o.inclination as int,
            theta,
        ) as i64,
        z: pos3_z_spec(
            o.distance_au as int,
            o.eccentricity as int,
            o.inclination as int,
            theta,
        ) as i64,
    }
}

/// The animated planar scene: static orbit paths and markers moved at a
/// uniform angular rate.
pub struct Task3Data {
    pub points: Vec<OrbitPath2>,
    pub markers: Vec<Marker2>,
    pub speed: i64,
    pub clock: AnimationClock,
}


/// Everything one rebuild of the animated planar scene does: the static
/// orbit paths are rebuilt; the clock, speed and markers carry on.
pub open spec fn task3_init_post(
    objects: Seq<PlanetaryObject>,
    active: Seq<bool>,
    pre: Task3Data,
    post: Task3Data,
) -> bool {
    &&& post.points@.len() == visible_bodies_spec(objects, active).len()
    &&& forall|k: int|
        0 <= k < post.points@.len() ==> {
            let vis = visible_bodies_spec(objects, active);
            let o = objects[vis[k] as int];
            (#[trigger] post.points@[k]).path@ == orbit_path2_spec(
                o.distance_au as int,
                o.eccentricity as int,
                TASK_2_STEPS as int,
            ) && post.points@[k].colour == o.colour && post.points@[k].body == vis[k]
        }
    &&& post.markers == pre.markers
    &&& post.speed == pre.speed
    &&& post.clock == pre.clock
}

impl Task3Data {
    pub fn new() -> (r: Task3Data)
        ensures
            r.points@.len() == 0,
            r.markers@.len() == 0,
            r.speed == MICRO,
            r.clock.time == 0,
    {
        Task3Data {
            points: Vec::new(),
            markers: Vec::new(),
            speed: MICRO,
            clock: AnimationClock::new(),
        }
    }

    /// Rebuild the static orbit paths; the clock and markers carry on.
    pub fn init(&mut self, objects: &Vec<PlanetaryObject>, active: &Vec<bool>)
        requires
            objects_valid(objects@),
            objects@.len() < 0x8000_0000,
        ensures
            task3_init_post(objects@, active@, *old(self), *final(self)),
    {
        let ghost vis_spec = visible_bodies_spec(objects@, active@);
        let vis = visible_bodies(objects, active);
        let mut points: Vec<OrbitPath2> = Vec::new();
        let mut k: usize = 0;
        while k < vis.len()
            invariant
                0 <= k <= vis@.len(),
                objects_valid(objects@),
                vis@ == vis_spec,
                forall|j: int| 0 <= j < vis@.len() ==> (#[trigger] vis@[j]) < objects@.len(),
                points@.len() == k,
                forall|j: int|
                    0 <= j < k ==> {
                        let o = objects@[vis_spec[j] as int];
                        (#[trigger] points@[j]).path@ == orbit_path2_spec(
                            o.distance_au as int,
                            o.eccentricity as int,
                            TASK_2_STEPS as int,
                        ) && points@[j].colour == o.colour && points@[j].body == vis_spec[j]
                    },
            decreases vis@.len() - k,
        {
            let idx = vis[k];
            let o = &objects[idx];
            let path = sample_orbit2(o.distance_au, o.eccentricity, TASK_2_STEPS);
            points.push(
                OrbitPath2 {
                    path,
                    colour: o.colour,
                    body: idx,
                    marker_at_origin: o.distance_au == 0,
                },
            );
            k = k + 1;
        }
        self.points = points;
    }

    /// Advance the clock by one frame and recompute every displayed
    /// body's marker at its new uniform angle.
    pub fn move_markers(
        &mut self,
        objects: &Vec<PlanetaryObject>,
        active: &Vec<bool>,
        frame_delta: i64,
    )
        requires
            objects_valid(objects@),
            objects@.len() < 0x8000_0000,
            0 <= frame_delta <= MAX_FRAME_DELTA,
            -MAX_SIM_TIME <= old(self).clock.time <= MAX_SIM_TIME,
            -crate::animation::MAX_SPEED <= old(self).speed <= crate::animation::MAX_SPEED,
        ensures
            final(self).clock.time as int == clamp_spec(
                old(self).clock.time + crate::units::muldiv(
                    frame_delta as int,
                    old(self).speed as int,
                    MICRO as int,
                ),
                -MAX_SIM_TIME as int,
                MAX_SIM_TIME as int,
            ),
            final(self).markers@.len() == visible_bodies_spec(objects@, active@).len(),
            forall|k: int|
                0 <= k < final(self).markers@.len() ==> {
                    let vis = visible_bodies_spec(objects@, active@);
                    let o = objects@[vis[k] as int];
                    (#[trigger] final(self).markers@[k]) == (Marker2 {
                        pos: uniform_marker2_spec(o, final(self).clock.time as int),
                        colour: o.colour,
                        body: vis[k],
                    })
                },
            final(self).points == old(self).points,
            final(self).speed == old(self).speed,
    {
        let speed = self.speed;
        self.clock.advance(frame_delta, speed);
        let time = self.clock.time;
        let ghost vis_spec = visible_bodies_spec(objects@, active@);
        let vis = visible_bodies(objects, active);
        let mut markers: Vec<Marker2> = Vec::new();
        let mut k: usize = 0;
        while k < vis.len()
            invariant
                0 <= k <= vis@.len(),
                objects_valid(objects@),
                vis@ == vis_spec,
                forall|j: int| 0 <= j < vis@.len() ==> (#[trigger] vis@[j]) < objects@.len(),
                -MAX_SIM_TIME <= time <= MAX_SIM_TIME,
                markers@.len() == k,
                forall|j: int|
                    0 <= j < k ==> {
                        let o = objects@[vis_spec[j] as int];
                        (#[trigger] markers@[j]) == (Marker2 {
                            pos: uniform_marker2_spec(o, time as int),
                            colour: o.colour,
                            body: vis_spec[j],
                        })
                    },
            decreases vis@.len() - k,
        {
            let idx = vis[k];
            let o = &objects[idx];
            let theta = uniform_angle(time, o.period_years);
            let pos = position2(o.distance_au, o.eccentricity, theta);
            markers.push(Marker2 { pos, colour: o.colour, body: idx });
            k = k + 1;
        }
        self.markers = markers;
    }
}

/// The animated spatial scene: tilted orbit paths, markers on a uniform
/// angular rate, a view configuration for the projection.
pub struct Task4Data {
    pub points: Vec<OrbitPath3>,
    pub markers: Vec<Marker3>,
    pub clock: AnimationClock,
    pub config: SceneConfig,
}

/// The displayed bodies that draw an orbit path: those of a nonzero
/// orbital radius (a point has no path).
pub open spec fn path_bodies_spec(objects: Seq<PlanetaryObject>, vis: Seq<usize>) -> Seq<usize>
    decreases vis.len(),
{
    if vis.len() == 0 {
        Seq::empty()
    } else {
        let rest = path_bodies_spec(objects, vis.drop_last());
        if objects[vis.last() as int].distance_au != 0 {
            rest.push(vis.last())
        } else {
            rest
        }
    }
}

proof fn lemma_path_bodies_bounds(objects: Seq<PlanetaryObject>, vis: Seq<usize>, n: int)
    requires
        forall|k: int| 0 <= k < vis.len() ==> (#[trigger] vis[k]) < n,
    ensures
        path_bodies_spec(objects, vis).len() <= vis.len(),
        forall|k: int|
            0 <= k < path_bodies_spec(objects, vis).len() ==> (#[trigger] path_bodies_spec(
                objects,
                vis,
            )[k]) < n,
    decreases vis.len(),
{
    if vis.len() > 0 {
        assert(forall|k: int|
            0 <= k < vis.drop_last().len() ==> (#[trigger] vis.drop_last()[k]) < n);
        lemma_path_bodies_bounds(objects, vis.drop_last(), n);
        assert(vis[vis.len() - 1] == vis.last());
    }
}


/// Everything one rebuild of the animated spatial scene does: tilted
/// paths for the displayed bodies of nonzero radius; markers, clock and
/// view carry on.
pub open spec fn task4_init_post(
    objects: Seq<PlanetaryObject>,
    active: Seq<bool>,
    pre: Task4Data,
    post: Task4Data,
) -> bool {
    &&& ({
        let path_vis = path_bodies_spec(objects, visible_bodies_spec(objects, active));
        post.points@.len() == path_vis.len() && forall|k: int|
            0 <= k < post.points@.len() ==> {
                let o = objects[path_vis[k] as int];
                (#[trigger] post.points@[k]).path@ == orbit_path3_spec(
                    o.distance_au as int,
                    o.eccentricity as int,
                    o.inclination as int,
                    TASK_4_STEPS as int,
                ) && post.points@[k].colour == o.colour && post.points@[k].body == path_vis[k]
            }
    })
    &&& post.markers == pre.markers
    &&& post.clock == pre.clock
    &&& post.config == pre.config
}

impl Task4Data {
    pub fn new() -> (r: Task4Data)
        ensures
            r.points@.len() == 0,
            r.markers@.len() == 0,
            r.clock.time == 0,
            scene_config_wf(r.config),
    {
        Task4Data {
            points: Vec::new(),
            markers: Vec::new(),
            clock: AnimationClock::new(),
            config: SceneConfig::new(),
        }
    }

    /// Rebuild the tilted orbit paths of the displayed bodies; a body of
    /// zero orbital radius draws no path.
    pub fn init(&mut self, objects: &Vec<PlanetaryObject>, active: &Vec<bool>)
        requires
            objects_valid(objects@),
            objects@.len() < 0x8000_0000,
        ensures
            task4_init_post(objects@, active@, *old(self), *final(self)),
    {
        let ghost vis_spec = visible_bodies_spec(objects@, active@);
        let vis = visible_bodies(objects, active);
        proof {
            lemma_path_bodies_bounds(objects@, vis_spec, objects@.len() as int);
        }
        let mut points: Vec<OrbitPath3> = Vec::new();
        let mut k: usize = 0;
        while k < vis.len()
            invariant
                0 <= k <= vis@.len(),
                objects_valid(objects@),
                vis@ == vis_spec,
                forall|j: int| 0 <= j < vis@.len() ==> (#[trigger] vis@[j]) < objects@.len(),
                points@.len() == path_bodies_spec(objects@, vis_spec.take(k as int)).len(),
                forall|j: int|
                    0 <= j < points@.len() ==> {
                        let pv = path_bodies_spec(objects@, vis_spec.take(k as int));
                        let o = objects@[pv[j] as int];
                        (#[trigger] points@[j]).path@ == orbit_path3_spec(
                            o.distance_au as int,
                            o.eccentricity as int,
                            o.inclination as int,
                            TASK_4_STEPS as int,
                        ) && points@[j].colour == o.colour && points@[j].body == pv[j]
                    },
            decreases vis@.len() - k,
        {
            proof {
                assert(vis_spec.take(k as int + 1).drop_last() =~= vis_spec.take(k as int));
                assert(vis_spec.take(k as int + 1).last() == vis_spec[k as int]);
            }
            let idx = vis[k];
            let o = &objects[idx];
            if o.distance_au != 0 {
                let path = sample_orbit3(
                    o.distance_au,
                    o.eccentricity,
                    o.inclination,
                    TASK_4_STEPS,
                );
                points.push(OrbitPath3 { path, colour: o.colour, body: idx });
            }
            k = k + 1;
        }
        proof {
            assert(vis_spec.take(vis_spec.len() as int) =~= vis_spec);
        }
        self.points = points;
    }

    /// Advance the clock and recompute every displayed body's spatial
    /// marker at its new uniform angle; a body of zero radius still shows
    /// a marker (at the origin).
    pub fn move_markers(
        &mut self,
        objects: &Vec<PlanetaryObject>,
        active: &Vec<bool>,
        frame_delta: i64,
    )
        requires
            objects_valid(objects@),
            objects@.len() < 0x8000_0000,
            0 <= frame_delta <= MAX_FRAME_DELTA,
            -MAX_SIM_TIME <= old(self).clock.time <= MAX_SIM_TIME,
            scene_config_wf(old(self).config),
        ensures
            final(self).clock.time as int == clamp_spec(
                old(self).clock.time + crate::units::muldiv(
                    frame_delta as int,
                    old(self).config.speed as int,
                    MICRO as int,
                ),
                -MAX_SIM_TIME as int,
                MAX_SIM_TIME as int,
            ),
            final(self).markers@.len() == visible_bodies_spec(objects@, active@).len(),
            forall|k: int|
                0 <= k < final(self).markers@.len() ==> {
                    let vis = visible_bodies_spec(objects@, active@);
                    let o = objects@[vis[k] as int];
                    (#[trigger] final(self).markers@[k]) == (Marker3 {
                        pos: uniform_marker3_spec(o, final(self).clock.time as int),
                        colour: o.colour,
                        body: vis[k],
                        stroke_only: false,
                    })
                },
            final(self).points == old(self).points,
            final(self).config == old(self).config,
    {
        let speed = self.config.speed;
        self.clock.advance(frame_delta, speed);
        let time = self.clock.time;
        let ghost vis_spec = visible_bodies_spec(objects@, active@);
        let vis = visible_bodies(objects, active);
        let mut markers: Vec<Marker3> = Vec::new();
        let mut k: usize = 0;
        while k < vis.len()
            invariant
                0 <= k <= vis@.len(),
                objects_valid(objects@),
                vis@ == vis_spec,
                forall|j: int| 0 <= j < vis@.len() ==> (#[trigger] vis@[j]) < objects@.len(),
                -MAX_SIM_TIME <= time <= MAX_SIM_TIME,
                markers@.len() == k,
                forall|j: int|
                    0 <= j < k ==> {
                        let o = objects@[vis_spec[j] as int];
                        (#[trigger] markers@[j]) == (Marker3 {
                            pos: uniform_marker3_spec(o, time as int),
                            colour: o.colour,
                            body: vis_spec[j],
                            stroke_only: false,
                        })
                    },
            decreases vis@.len() - k,
        {
            let idx = vis[k];
            let o = &objects[idx];
            let theta = uniform_angle(time, o.period_years);
            let pos = position3(o.distance_au, o.eccentricity, o.inclination, theta);
            markers.push(Marker3 { pos, colour: o.colour, body: idx, stroke_only: false });
            k = k + 1;
        }
        self.markers = markers;
    }
}


/// One body's pair of curves on the time-versus-angle plot: the straight
/// reference line of a circular orbit and the solver's true curve, over
/// three full turns.
pub struct AnglePlot {
    pub reference: Vec<TimeAngle>,
    pub curve: Vec<TimeAngle>,
    pub colour: Colour,
    pub body: usize,
}

/// The bodies the time-versus-angle plot shows: displayed, with a
/// period, and within the solver's eccentricity range.
pub open spec fn plot_bodies_spec(objects: Seq<PlanetaryObject>, vis: Seq<usize>) -> Seq<usize>
    decreases vis.len(),
{
    if vis.len() == 0 {
        Seq::empty()
    } else {
        let rest = plot_bodies_spec(objects, vis.drop_last());
        if objects[vis.last() as int].period_years > 0 && objects[vis.last() as int].eccentricity
            <= MAX_TABLE_ECCENTRICITY {
            rest.push(vis.last())
        } else {
            rest
        }
    }
}

proof fn lemma_plot_bodies_bounds(objects: Seq<PlanetaryObject>, vis: Seq<usize>, n: int)
    requires
        forall|k: int| 0 <= k < vis.len() ==> (#[trigger] vis[k]) < n,
    ensures
        plot_bodies_spec(objects, vis).len() <= vis.len(),
        forall|k: int|
            0 <= k < plot_bodies_spec(objects, vis).len() ==> (#[trigger] plot_bodies_spec(
                objects,
                vis,
            )[k]) < n,
    decreases vis.len(),
{
    if vis.len() > 0 {
        assert(forall|k: int|
            0 <= k < vis.drop_last().len() ==> (#[trigger] vis.drop_last()[k]) < n);
        lemma_plot_bodies_bounds(objects, vis.drop_last(), n);
        assert(vis[vis.len() - 1] == vis.last());
    }
}

/// The time-versus-angle scene.
pub struct Task5AData {
    pub points: Vec<AnglePlot>,
}


/// Everything one rebuild of the time-versus-angle scene does: both
/// curves over three turns for every displayed body with a period and an
/// eccentricity within the solver's range.
pub open spec fn task5a_init_post(
    objects: Seq<PlanetaryObject>,
    active: Seq<bool>,
    post: Task5AData,
) -> bool {
    let pb = plot_bodies_spec(objects, visible_bodies_spec(objects, active));
    post.points@.len() == pb.len() && forall|k: int|
        0 <= k < post.points@.len() ==> {
            let o = objects[pb[k] as int];
            (#[trigger] post.points@[k]).reference@ == uniform_line_spec(
                o.period_years as int,
                TASK_5A_STEPS as int,
                3,
            ) && post.points@[k].curve@ == angle_time_table_spec(
                o.period_years as int,
                o.eccentricity as int,
                3,
                100,
            ) && post.points@[k].colour == o.colour && post.points@[k].body == pb[k]
        }
}

impl Task5AData {
    pub fn new() -> (r: Task5AData)
        ensures
            r.points@.len() == 0,
    {
        Task5AData { points: Vec::new() }
    }

    /// Rebuild both curves of every plotted body over three turns: the
    /// straight circular reference and the solver's table, one sample
    /// every hundred integration steps.
    pub fn init(&mut self, objects: &Vec<PlanetaryObject>, active: &Vec<bool>)
        requires
            objects_valid(objects@),
            objects@.len() < 0x8000_0000,
        ensures
            task5a_init_post(objects@, active@, *final(self)),
    {
        let ghost vis_spec = visible_bodies_spec(objects@, active@);
        let vis = visible_bodies(objects, active);
        proof {
            lemma_plot_bodies_bounds(objects@, vis_spec, objects@.len() as int);
        }
        let mut points: Vec<AnglePlot> = Vec::new();
        let mut k: usize = 0;
        while k < vis.len()
            invariant
                0 <= k <= vis@.len(),
                objects_valid(objects@),
                vis@ == vis_spec,
                forall|j: int| 0 <= j < vis@.len() ==> (#[trigger] vis@[j]) < objects@.len(),
                points@.len() == plot_bodies_spec(objects@, vis_spec.take(k as int)).len(),
                forall|j: int|
                    0 <= j < points@.len() ==> {
                        let pb = plot_bodies_spec(objects@, vis_spec.take(k as int));
                        let o = objects@[pb[j] as int];
                        (#[trigger] points@[j]).reference@ == uniform_line_spec(
                            o.period_years as int,
                            TASK_5A_STEPS as int,
                            3,
                        ) && points@[j].curve@ == angle_time_table_spec(
                            o.period_years as int,
                            o.eccentricity as int,
                            3,
                            100,
                        ) && points@[j].colour == o.colour && points@[j].body == pb[j]
                    },
            decreases vis@.len() - k,
        {
            proof {
                assert(vis_spec.take(k as int + 1).drop_last() =~= vis_spec.take(k as int));
                assert(vis_spec.take(k as int + 1).last() == vis_spec[k as int]);
            }
            let idx = vis[k];
            let o = &objects[idx];
            if o.period_years > 0 && o.eccentricity <= MAX_TABLE_ECCENTRICITY {
                let reference = sample_uniform_line(o.period_years, TASK_5A_STEPS, 3);
                let curve = build_angle_time_table(o.period_years, o.eccentricity, 3, 100);
                points.push(AnglePlot { reference, curve, colour: o.colour, body: idx });
            }
            k = k + 1;
        }
        proof {
            assert(vis_spec.take(vis_spec.len() as int) =~= vis_spec);
        }
        self.points = points;
    }
}

/// The marker the animated tilted scene shows for one body: a body with
/// no period stands at angle zero; otherwise the solver's table answers,
/// a zero-radius body sits at the origin, and a body without a table is
/// skipped this frame.
pub open spec fn kepler_marker_spec(
    o: PlanetaryObject,
    table: Seq<TimeAngle>,
    time: int,
) -> Option<Pos3> {
    if o.period_years == 0 {
        Some(uniform_marker3_spec(o, 0))
    } else {
        animated_position_spec(o, table, time)
    }
}

/// The solver-driven markers of the listed bodies, skipping those that
/// show nothing this frame.
pub open spec fn kepler_markers_spec(
    objects: Seq<PlanetaryObject>,
    tables: Seq<Vec<TimeAngle>>,
    vis: Seq<usize>,
    time: int,
) -> Seq<Marker3>
    decreases vis.len(),
{
    if vis.len() == 0 {
        Seq::empty()
    } else {
        let rest = kepler_markers_spec(objects, tables, vis.drop_last(), time);
        let o = objects[vis.last() as int];
        match kepler_marker_spec(o, tables[vis.last() as int]@, time) {
            Some(p) => rest.push(
                Marker3 { pos: p, colour: o.colour, body: vis.last(), stroke_only: false },
            ),
            None => rest,
        }
    }
}

/// The animated tilted-orbit scene: static paths, ring markers at the
/// uniform angle beside solver-driven markers.
pub struct Task5BData {
    pub points: Vec<OrbitPath3>,
    pub markers: Vec<Marker3>,
    pub tables: Vec<Vec<TimeAngle>>,
    pub clock: AnimationClock,
    pub config: SceneConfig,
}


/// Everything one rebuild of the tilted animated scene does: paths for
/// the displayed bodies of nonzero radius, every body's angle-time table
/// (empty for hidden bodies, zero-radius bodies and bodies beyond the
/// solver's eccentricity range — those show no solver-driven marker);
/// markers, clock and view carry on.
pub open spec fn task5b_init_post(
    objects: Seq<PlanetaryObject>,
    active: Seq<bool>,
    pre: Task5BData,
    post: Task5BData,
) -> bool {
    &&& ({
        let path_vis = path_bodies_spec(objects, visible_bodies_spec(objects, active));
        post.points@.len() == path_vis.len() && forall|k: int|
            0 <= k < post.points@.len() ==> {
                let o = objects[path_vis[k] as int];
                (#[trigger] post.points@[k]).path@ == orbit_path3_spec(
                    o.distance_au as int,
                    o.eccentricity as int,
                    o.inclination as int,
                    TASK_5B_STEPS as int,
                ) && post.points@[k].colour == o.colour && post.points@[k].body == path_vis[k]
            }
    })
    &&& post.tables@.len() == objects.len()
    &&& forall|i: int|
        0 <= i < objects.len() ==> (#[trigger] post.tables@[i])@ == body_table_spec(
            objects[i],
            body_active_spec(active, i),
        )
    &&& forall|i: int|
        0 <= i < objects.len() ==> sorted_by_time((#[trigger] post.tables@[i])@)
            && table_entries_ok(post.tables@[i]@)
    &&& post.markers == pre.markers
    &&& post.clock == pre.clock
    &&& post.config == pre.config
}

impl Task5BData {
    pub fn new() -> (r: Task5BData)
        ensures
            r.points@.len() == 0,
            r.markers@.len() == 0,
            r.tables@.len() == 0,
            r.clock.time == 0,
            scene_config_wf(r.config),
    {
        Task5BData {
            points: Vec::new(),
            markers: Vec::new(),
            tables: Vec::new(),
            clock: AnimationClock::new(),
            config: SceneConfig::new(),
        }
    }

    /// Rebuild the tilted paths (zero-radius bodies draw none) and every
    /// body's angle-time table (empty for zero-radius bodies).
    pub fn init(&mut self, objects: &Vec<PlanetaryObject>, active: &Vec<bool>)
        requires
            objects_valid(objects@),
            objects@.len() < 0x8000_0000,
        ensures
            task5b_init_post(objects@, active@, *old(self), *final(self)),
    {
        let ghost vis_spec = visible_bodies_spec(objects@, active@);
        let vis = visible_bodies(objects, active);
        proof {
            lemma_path_bodies_bounds(objects@, vis_spec, objects@.len() as int);
        }
        let mut points: Vec<OrbitPath3> = Vec::new();
        let mut k: usize = 0;
        while k < vis.len()
            invariant
                0 <= k <= vis@.len(),
                objects_valid(objects@),
                vis@ == vis_spec,
                forall|j: int| 0 <= j < vis@.len() ==> (#[trigger] vis@[j]) < objects@.len(),
                points@.len() == path_bodies_spec(objects@, vis_spec.take(k as int)).len(),
                forall|j: int|
                    0 <= j < points@.len() ==> {
                        let pv = path_bodies_spec(objects@, vis_spec.take(k as int));
                        let o = objects@[pv[j] as int];
                        (#[trigger] points@[j]).path@ == orbit_path3_spec(
                            o.distance_au as int,
                            o.eccentricity as int,
                            o.inclination as int,
                            TASK_5B_STEPS as int,
                        ) && points@[j].colour == o.colour && points@[j].body == pv[j]
                    },
            decreases vis@.len() - k,
        {
            proof {
                assert(vis_spec.take(k as int + 1).drop_last() =~= vis_spec.take(k as int));
                assert(vis_spec.take(k as int + 1).last() == vis_spec[k as int]);
            }
            let idx = vis[k];
            let o = &objects[idx];
            if o.distance_au != 0 {
                let path = sample_orbit3(
                    o.distance_au,
                    o.eccentricity,
                    o.inclination,
                    TASK_5B_STEPS,
                );
                points.push(OrbitPath3 { path, colour: o.colour, body: idx });
            }
            k = k + 1;
        }
        proof {
            assert(vis_spec.take(vis_spec.len() as int) =~= vis_spec);
        }
        self.points = points;
        self.tables = build_body_tables(objects, active);
    }

    /// Advance the clock, then lay a ring marker at every displayed
    /// body's uniform angle and a filled marker where the solver puts the
    /// body now.
    pub fn move_markers(
        &mut self,
        objects: &Vec<PlanetaryObject>,
        active: &Vec<bool>,
        frame_delta: i64,
    )
        requires
            objects_valid(objects@),
            objects@.len() < 0x8000_0000,
            0 <= frame_delta <= MAX_FRAME_DELTA,
            -MAX_SIM_TIME <= old(self).clock.time <= MAX_SIM_TIME,
            scene_config_wf(old(self).config),
            old(self).tables@.len() == objects@.len(),
            forall|i: int|
                0 <= i < objects@.len() ==> sorted_by_time(
                    (#[trigger] old(self).tables@[i])@,
                ) && table_entries_ok(old(self).tables@[i]@),
        ensures
            final(self).clock.time as int == clamp_spec(
                old(self).clock.time + crate::units::muldiv(
                    frame_delta as int,
                    old(self).config.speed as int,
                    MICRO as int,
                ),
                -MAX_SIM_TIME as int,
                MAX_SIM_TIME as int,
            ),
            ({
                let vis = visible_bodies_spec(objects@, active@);
                let rings = Seq::new(
                    vis.len(),
                    |k: int|
                        Marker3 {
                            pos: uniform_marker3_spec(
                                objects@[vis[k] as int],
                                final(self).clock.time as int,
                            ),
                            colour: objects@[vis[k] as int].colour,
                            body: vis[k],
                            stroke_only: true,
                        },
                );
                final(self).markers@ == rings + kepler_markers_spec(
                    objects@,
                    old(self).tables@,
                    vis,
                    final(self).clock.time as int,
                )
            }),
            final(self).points == old(self).points,
            final(self).tables == old(self).tables,
            final(self).config == old(self).config,
    {
        let speed = self.config.speed;
        self.clock.advance(frame_delta, speed);
        let time = self.clock.time;
        let ghost vis_spec = visible_bodies_spec(objects@, active@);
        let vis = visible_bodies(objects, active);
        let ghost rings_spec = Seq::new(
            vis_spec.len(),
            |k: int|
                Marker3 {
                    pos: uniform_marker3_spec(objects@[vis_spec[k] as int], time as int),
                    colour: objects@[vis_spec[k] as int].colour,
                    body: vis_spec[k],
                    stroke_only: true,
                },
        );
        let mut markers: Vec<Marker3> = Vec::new();
        let mut k: usize = 0;
        while k < vis.len()
            invariant
                0 <= k <= vis@.len(),
                objects_valid(objects@),
                vis@ == vis_spec,
                forall|j: int| 0 <= j < vis@.len() ==> (#[trigger] vis@[j]) < objects@.len(),
                -MAX_SIM_TIME <= time <= MAX_SIM_TIME,
                rings_spec == Seq::new(
                    vis_spec.len(),
                    |j: int|
                        Marker3 {
                            pos: uniform_marker3_spec(objects@[vis_spec[j] as int], time as int),
                            colour: objects@[vis_spec[j] as int].colour,
                            body: vis_spec[j],
                            stroke_only: true,
                        },
                ),
                markers@.len() == k,
                forall|j: int| 0 <= j < k ==> (#[trigger] markers@[j]) == rings_spec[j],
            decreases vis@.len() - k,
        {
            let idx = vis[k];
            let o = &objects[idx];
            let theta = uniform_angle(time, o.period_years);
            let pos = position3(o.distance_au, o.eccentricity, o.inclination, theta);
            markers.push(Marker3 { pos, colour: o.colour, body: idx, stroke_only: true });
            k = k + 1;
        }
        proof {
            assert(markers@ =~= rings_spec);
        }
        let mut k2: usize = 0;
        while k2 < vis.len()
            invariant
                0 <= k2 <= vis@.len(),
                objects_valid(objects@),
                vis@ == vis_spec,
                forall|j: int| 0 <= j < vis@.len() ==> (#[trigger] vis@[j]) < objects@.len(),
                -MAX_SIM_TIME <= time <= MAX_SIM_TIME,
                self.tables@.len() == objects@.len(),
                forall|i: int|
                    0 <= i < objects@.len() ==> sorted_by_time(
                        (#[trigger] self.tables@[i])@,
                    ) && table_entries_ok(self.tables@[i]@),
                markers@ == rings_spec + kepler_markers_spec(
                    objects@,
                    self.tables@,
                    vis_spec.take(k2 as int),
                    time as int,
                ),
            decreases vis@.len() - k2,
        {
            proof {
                assert(vis_spec.take(k2 as int + 1).drop_last() =~= vis_spec.take(k2 as int));
                assert(vis_spec.take(k2 as int + 1).last() == vis_spec[k2 as int]);
            }
            let idx = vis[k2];
            let o = &objects[idx];
            if o.period_years == 0 {
                let theta = uniform_angle(0, o.period_years);
                let pos = position3(o.distance_au, o.eccentricity, o.inclination, theta);
                markers.push(Marker3 { pos, colour: o.colour, body: idx, stroke_only: false });
            } else {
                let table = &self.tables[idx];
                match animated_position(o, table, time) {
                    Some(pos) => {
                        markers.push(
                            Marker3 { pos, colour: o.colour, body: idx, stroke_only: false },
                        );
                    },
                    None => {},
                }
            }
            k2 = k2 + 1;
        }
        proof {
            assert(vis_spec.take(vis_spec.len() as int) =~= vis_spec);
        }
        self.markers = markers;
    }
}


/// The whole simulated span of a spirograph trace: the outer body's
/// period times the configured number of periods.
pub open spec fn spiro_span_spec(outer: PlanetaryObject, number_of_periods: int) -> int {
    crate::units::muldiv(outer.period_years as int, number_of_periods, MICRO as int)
}


/// Everything one rebuild of the spirograph scene does.
///
/// Every body's angle-time table is rebuilt (empty for hidden bodies,
/// zero-radius bodies and bodies beyond the solver's eccentricity
/// range). With fewer than two bodies chosen the scene goes idle: no
/// orbits, no trace, and the time step, remembered pair and view are
/// untouched. With a pair chosen, its two drawn orbits and the trace
/// stand; re-picking the pair already remembered keeps the time step
/// and the whole view (re-picking is a no-op there), while a newly
/// chosen pair recentres the pan, fits the zoom to the two orbits and
/// the viewport margin, and resets the time step to a thousandth of the
/// trace's span.
pub open spec fn task6_init_post(
    objects: Seq<PlanetaryObject>,
    active: Seq<bool>,
    screen_width: int,
    screen_height: int,
    pre: Task6Data,
    post: Task6Data,
) -> bool {
    &&& post.tables@.len() == objects.len()
    &&& forall|i: int|
        0 <= i < objects.len() ==> (#[trigger] post.tables@[i])@ == body_table_spec(
            objects[i],
            body_active_spec(active, i),
        )
    &&& forall|i: int|
        0 <= i < objects.len() ==> sorted_by_time((#[trigger] post.tables@[i])@)
            && table_entries_ok(post.tables@[i]@)
    &&& post.selection == pre.selection
    &&& post.number_of_periods == pre.number_of_periods
    &&& scene_config_wf(post.config)
    &&& (pre.selection.chosen@.len() < 2 ==> {
        &&& post.orbit_points@.len() == 0
        &&& post.spirograph_line_points@.len() == 0
        &&& post.dt == pre.dt
        &&& post.last_valid_pair == pre.last_valid_pair
        &&& post.config == pre.config
    })
    &&& (pre.selection.chosen@.len() == 2 ==> {
        let (i1, i2) = ordered_pair_spec(pre.selection.chosen@);
        let o1 = objects[i1 as int];
        let o2 = objects[i2 as int];
        let path1 = orbit_path2_spec(o1.distance_au as int, o1.eccentricity as int, TASK_6_STEPS as int);
        let path2 = orbit_path2_spec(o2.distance_au as int, o2.eccentricity as int, TASK_6_STEPS as int);
        &&& post.orbit_points@.len() == 2
        &&& post.orbit_points@[0].path@ == path1
        &&& post.orbit_points@[1].path@ == path2
        &&& post.orbit_points@[0].body == i1
        &&& post.orbit_points@[1].body == i2
        &&& post.orbit_points@[0].colour == o1.colour
        &&& post.orbit_points@[1].colour == o2.colour
        &&& post.last_valid_pair == (i1, i2)
        &&& ((i1, i2) != pre.last_valid_pair ==> {
            &&& post.dt as int == tdiv(
                spiro_span_spec(o2, pre.number_of_periods as int),
                1000,
            )
            &&& post.config.offset_x == 0
            &&& post.config.offset_y == 0
            &&& post.config.rotate_x == pre.config.rotate_x
            &&& post.config.rotate_y == pre.config.rotate_y
            &&& post.config.speed == pre.config.speed
            &&& crate::projection::fitted_zoom_ok(
                post.config.zoom_coefficient as int,
                path1,
                path2,
                screen_width,
                screen_height,
                pre.config.zoom_coefficient as int,
            )
        })
        &&& ((i1, i2) == pre.last_valid_pair ==> post.dt == pre.dt && post.config == pre.config)
        &&& (post.dt > 0 ==> {
            let ft = spiro_span_spec(o2, pre.number_of_periods as int);
            let t1 = body_table_spec(o1, body_active_spec(active, i1 as int));
            let t2 = body_table_spec(o2, body_active_spec(active, i2 as int));
            &&& (t1.len() == 0 || t2.len() == 0 ==> post.spirograph_line_points@.len() == 0)
            &&& (t1.len() > 0 && t2.len() > 0 ==> post.spirograph_line_points@.len()
                == sample_count(ft, post.dt as int))
            &&& forall|k: int|
                0 <= k < post.spirograph_line_points@.len()
                    ==> (#[trigger] post.spirograph_line_points@[k]) == spiro_segment_spec(
                    o1,
                    o2,
                    t1,
                    t2,
                    post.dt as int,
                    k,
                )
        })
        &&& (post.dt <= 0 ==> post.spirograph_line_points@.len() == 0)
    })
}

/// The spirograph scene: the chosen pair's orbits and the trace joining
/// their simultaneous positions.
pub struct Task6Data {
    pub orbit_points: Vec<OrbitPath2>,
    pub spirograph_line_points: Vec<SpiroSegment>,
    pub tables: Vec<Vec<TimeAngle>>,
    pub dt: i64,
    pub number_of_periods: i64,
    pub selection: PairSelection,
    pub last_valid_pair: (usize, usize),
    pub config: SceneConfig,
}

impl Task6Data {
    pub fn new() -> (r: Task6Data)
        ensures
            r.orbit_points@.len() == 0,
            r.spirograph_line_points@.len() == 0,
            r.tables@.len() == 0,
            r.dt == 10_000,
            r.number_of_periods == 10_000_000,
            selection_wf(r.selection.chosen@),
            r.selection.chosen@.len() == 0,
            r.last_valid_pair == (0usize, 0usize),
            scene_config_wf(r.config),
    {
        Task6Data {
            orbit_points: Vec::new(),
            spirograph_line_points: Vec::new(),
            tables: Vec::new(),
            dt: 10_000,
            number_of_periods: 10_000_000,
            selection: PairSelection::new(),
            last_valid_pair: (0, 0),
            config: SceneConfig::new(),
        }
    }

    /// Rebuild the tables, and with a full pair chosen, the pair's drawn
    /// orbits and the trace. A newly chosen pair recentres the view,
    /// fits the zoom to the pair's orbits, and resets the time step to a
    /// thousandth of the trace's span.
    #[verifier::rlimit(100)]
    pub fn init(
        &mut self,
        objects: &Vec<PlanetaryObject>,
        active: &Vec<bool>,
        screen_width: i64,
        screen_height: i64,
    )
        requires
            objects_valid(objects@),
            objects@.len() < 0x8000_0000,
            selection_wf(old(self).selection.chosen@),
            forall|k: int|
                0 <= k < old(self).selection.chosen@.len()
                    ==> (#[trigger] old(self).selection.chosen@[k]) < objects@.len(),
            0 <= screen_width <= crate::projection::MAX_SCREEN_OFFSET,
            0 <= screen_height <= crate::projection::MAX_SCREEN_OFFSET,
            0 < old(self).number_of_periods <= crate::animation::MAX_SPEED,
            0 <= old(self).dt <= crate::kepler::MAX_TABLE_TIME,
            scene_config_wf(old(self).config),
        ensures
            task6_init_post(
                objects@,
                active@,
                screen_width as int,
                screen_height as int,
                *old(self),
                *final(self),
            ),
    {
        let tables = build_body_tables(objects, active);
        self.tables = tables;
        let pair = self.selection.ordered_pair();
        match pair {
            None => {
                self.orbit_points = Vec::new();
                self.spirograph_line_points = Vec::new();
            },
            Some((i1, i2)) => {
                let o1 = &objects[i1];
                let o2 = &objects[i2];
                let path1 = sample_orbit2(o1.distance_au, o1.eccentricity, TASK_6_STEPS);
                let path2 = sample_orbit2(o2.distance_au, o2.eccentricity, TASK_6_STEPS);
                let mut orbit_points: Vec<OrbitPath2> = Vec::new();
                orbit_points.push(
                    OrbitPath2 {
                        path: path1,
                        colour: o1.colour,
                        body: i1,
                        marker_at_origin: o1.distance_au == 0,
                    },
                );
                orbit_points.push(
                    OrbitPath2 {
                        path: path2,
                        colour: o2.colour,
                        body: i2,
                        marker_at_origin: o2.distance_au == 0,
                    },
                );
                if i1 != self.last_valid_pair.0 || i2 != self.last_valid_pair.1 {
                    self.last_valid_pair = (i1, i2);
                    self.config = refit_view(
                        self.config,
                        &orbit_points[0].path,
                        &orbit_points[1].path,
                        screen_width,
                        screen_height,
                    );
                    proof {
                        lemma_span_bounds(
                            o2.period_years as int,
                            self.number_of_periods as int,
                        );
                    }
                    let span = crate::units::mul_div(
                        o2.period_years,
                        self.number_of_periods,
                        MICRO,
                    );
                    proof {
                        vstd::arithmetic::div_mod::lemma_div_is_ordered_by_denominator(
                            span as int,
                            1,
                            1000,
                        );
                        assert((span as int) / 1int == span as int);
                        vstd::arithmetic::div_mod::lemma_div_pos_is_pos(span as int, 1000);
                    }
                    self.dt = span / 1000;
                    proof {
                        assert(self.dt as int == tdiv(span as int, 1000)) by {
                            assert(span >= 0);
                        }
                    }
                }
                self.orbit_points = orbit_points;
                proof {
                    lemma_span_bounds(o2.period_years as int, self.number_of_periods as int);
                }
                let span = crate::units::mul_div(o2.period_years, self.number_of_periods, MICRO);
                if self.dt > 0 {
                    let trace = spirograph_trace(
                        o1,
                        o2,
                        &self.tables[i1],
                        &self.tables[i2],
                        self.dt,
                        span,
                    );
                    self.spirograph_line_points = trace;
                } else {
                    self.spirograph_line_points = Vec::new();
                }
            },
        }
    }
}

/// Recentre the view on a newly chosen pair and fit the zoom so both
/// orbits land inside the viewport margin.
fn refit_view(
    config: SceneConfig,
    path1: &Vec<Pos2>,
    path2: &Vec<Pos2>,
    screen_width: i64,
    screen_height: i64,
) -> (r: SceneConfig)
    requires
        scene_config_wf(config),
        path1@.len() > 0,
        path2@.len() > 0,
        0 <= screen_width <= crate::projection::MAX_SCREEN_OFFSET,
        0 <= screen_height <= crate::projection::MAX_SCREEN_OFFSET,
    ensures
        scene_config_wf(r),
        r.offset_x == 0 && r.offset_y == 0,
        r.speed == config.speed && r.rotate_x == config.rotate_x && r.rotate_y == config.rotate_y,
        crate::projection::fitted_zoom_ok(
            r.zoom_coefficient as int,
            path1@,
            path2@,
            screen_width as int,
            screen_height as int,
            config.zoom_coefficient as int,
        ),
{
    let mut view = config;
    view.offset_x = 0;
    view.offset_y = 0;
    let half_w = mul_div_screen(screen_width);
    let half_h = mul_div_screen(screen_height);
    let (min_x1, max_x1, min_y1, max_y1) = crate::projection::bounds2(path1);
    let (min_x2, max_x2, min_y2, max_y2) = crate::projection::bounds2(path2);
    let x_req = max4(abs_clip(min_x1), max_x1, abs_clip(min_x2), max_x2);
    let y_req = max4(abs_clip(min_y1), max_y1, abs_clip(min_y2), max_y2);
    if x_req > 0 && y_req > 0 {
        let rx = fit_ratio(half_w, x_req);
        let ry = fit_ratio(half_h, y_req);
        let ratio = if rx < ry {
            rx
        } else {
            ry
        };
        let c = crate::projection::fit_zoom_coefficient(ratio);
        proof {
            assert(-crate::projection::MAX_ZOOM_COEFFICIENT <= c as int
                <= crate::projection::MAX_ZOOM_COEFFICIENT);
        }
        view.zoom_coefficient = c;
    }
    view
}

/// The usable half extent of one screen axis: seven fifteenths of it, as
/// the original layout leaves a margin.
fn mul_div_screen(extent: i64) -> (r: i64)
    requires
        0 <= extent <= crate::projection::MAX_SCREEN_OFFSET,
    ensures
        r as int == crate::projection::half_margin_spec(extent as int),
        0 <= r <= crate::projection::MAX_SCREEN_OFFSET,
{
    proof {
        vstd::arithmetic::div_mod::lemma_div_pos_is_pos(extent as int * 7, 15);
        vstd::arithmetic::div_mod::lemma_div_is_ordered(
            extent as int * 7,
            (crate::projection::MAX_SCREEN_OFFSET as int) * 15,
            15,
        );
        vstd::arithmetic::div_mod::lemma_div_multiples_vanish(
            crate::projection::MAX_SCREEN_OFFSET as int,
            15,
        );
    }
    (extent * 7) / 15
}

proof fn lemma_span_bounds(p: int, n: int)
    requires
        0 <= p <= MAX_PERIOD,
        0 <= n <= crate::animation::MAX_SPEED,
    ensures
        0 <= crate::units::muldiv(p, n, MICRO as int) <= 1_000_000_000_000_000_000,
{
    assert(0 <= p * n <= 1_000_000_000_000_000_000_000_000int) by (nonlinear_arith)
        requires 0 <= p <= 1_000_000_000_000, 0 <= n <= 1_000_000_000_000;
    vstd::arithmetic::div_mod::lemma_div_pos_is_pos(p * n, MICRO as int);
    vstd::arithmetic::div_mod::lemma_div_is_ordered(
        p * n,
        1_000_000_000_000_000_000_000_000int,
        MICRO as int,
    );
    assert(1_000_000_000_000_000_000_000_000int / (MICRO as int) == 1_000_000_000_000_000_000int);
}

/// The magnitude of a clipped coordinate.
fn abs_clip(v: i64) -> (r: i64)
    ensures
        r as int == crate::projection::clipped_abs_spec(v as int),
{
    if v == i64::MIN {
        i64::MAX
    } else if v < 0 {
        -v
    } else {
        v
    }
}

fn max4(a: i64, b: i64, c: i64, d: i64) -> (r: i64)
    ensures
        r as int == crate::projection::max4_spec(a as int, b as int, c as int, d as int),
        r >= a && r >= b && r >= c && r >= d,
{
    let m1 = if a > b {
        a
    } else {
        b
    };
    let m2 = if c > d {
        c
    } else {
        d
    };
    if m1 > m2 {
        m1
    } else {
        m2
    }
}

/// The zoom allowance of one axis: the half extent (micro-pixels) per
/// unit of required reach, capped at the zoom range.
fn fit_ratio(half_extent: i64, required: i64) -> (r: i64)
    requires
        0 <= half_extent <= crate::projection::MAX_SCREEN_OFFSET,
        0 < required,
    ensures
        0 <= r <= crate::projection::ZOOM_CAP,
        r as int == crate::projection::fit_allowance_spec(half_extent as int, required as int),
{
    proof {
        assert(0 <= (half_extent as int) * (MICRO as int)
            <= 1_000_000_000_000_000int) by (nonlinear_arith)
            requires 0 <= (half_extent as int) && (half_extent as int) <= 1_000_000_000;
        vstd::arithmetic::div_mod::lemma_div_pos_is_pos(
            (half_extent as int) * (MICRO as int),
            required as int,
        );
        vstd::arithmetic::div_mod::lemma_div_is_ordered_by_denominator(
            (half_extent as int) * (MICRO as int),
            1,
            required as int,
        );
        assert(((half_extent as int) * (MICRO as int)) / 1int
            == (half_extent as int) * (MICRO as int));
    }
    let raw = crate::units::mul_div(half_extent, MICRO, required);
    crate::units::clamp(raw, 0, crate::projection::ZOOM_CAP)
}


/// Where one body of the recentring scene stands this frame: the solver
/// answers for displayed bodies and for the stationary reference body,
/// whether or not it is displayed; other hidden bodies show nothing.
pub open spec fn task7_position_spec(
    o: PlanetaryObject,
    table: Seq<TimeAngle>,
    shown: bool,
    is_reference: bool,
    time: int,
) -> Option<Pos3> {
    if !shown && !is_reference {
        None
    } else {
        animated_position_spec(o, table, time)
    }
}

/// One body's recentred position.
pub open spec fn recentred_spec(p: Pos3, centre: Pos3) -> Pos3 {
    Pos3 {
        x: (p.x - centre.x) as i64,
        y: (p.y - centre.y) as i64,
        z: (p.z - centre.z) as i64,
    }
}

/// How one trailing-orbit buffer advances by one frame: a point is
/// appended while the per-orbit budget allows (always, for a body with
/// no period or a negative budget); afterwards the last point is
/// replaced, keeping the trail bounded while time advances.
pub open spec fn trail_next_spec(
    old_trail: Seq<Pos3>,
    pos: Pos3,
    time: int,
    period: int,
    points_per_orbit: int,
) -> Seq<Pos3> {
    if period <= 0 || points_per_orbit < 0 || crate::animation::trail_has_budget(
        old_trail.len() as int,
        time,
        period,
        points_per_orbit,
    ) {
        old_trail.push(pos)
    } else if old_trail.len() > 0 {
        old_trail.update(old_trail.len() - 1, pos)
    } else {
        old_trail
    }
}

/// The markers of the recentring scene, in ascending order of distance:
/// one per body that stands somewhere this frame, at its recentred
/// position.
pub open spec fn task7_markers_spec(
    objects: Seq<PlanetaryObject>,
    positions: Seq<Option<Pos3>>,
    order: Seq<usize>,
) -> Seq<Marker3>
    decreases order.len(),
{
    if order.len() == 0 {
        Seq::empty()
    } else {
        let rest = task7_markers_spec(objects, positions, order.drop_last());
        let i = order.last();
        match positions[i as int] {
            Some(p) => rest.push(
                Marker3 {
                    pos: p,
                    colour: objects[i as int].colour,
                    body: i,
                    stroke_only: false,
                },
            ),
            None => rest,
        }
    }
}

/// The recentring scene: every displayed body drawn relative to a chosen
/// stationary body, with bounded trailing orbits.
pub struct Task7Data {
    pub markers: Vec<Marker3>,
    pub trails: Vec<Vec<Pos3>>,
    pub points_per_orbit: i64,
    pub clock: AnimationClock,
    pub config: SceneConfig,
    pub tables: Vec<Vec<TimeAngle>>,
    pub stationary_object_index: usize,
}


/// Everything one rebuild of the recentring scene does: every body's
/// angle-time table is rebuilt (empty for hidden bodies, zero-radius
/// bodies and bodies beyond the solver's eccentricity range — those show
/// no moving marker), the trails are cleared and the clock rewound; the
/// markers, settings and view carry on.
pub open spec fn task7_init_post(
    objects: Seq<PlanetaryObject>,
    active: Seq<bool>,
    pre: Task7Data,
    post: Task7Data,
) -> bool {
    &&& post.tables@.len() == objects.len()
    &&& forall|i: int|
        0 <= i < objects.len() ==> (#[trigger] post.tables@[i])@ == body_table_spec(
            objects[i],
            body_active_spec(active, i),
        )
    &&& forall|i: int|
        0 <= i < objects.len() ==> sorted_by_time((#[trigger] post.tables@[i])@)
            && table_entries_ok(post.tables@[i]@)
    &&& post.trails@.len() == objects.len()
    &&& forall|i: int| 0 <= i < objects.len() ==> (#[trigger] post.trails@[i])@.len() == 0
    &&& post.clock.time == 0
    &&& post.markers == pre.markers
    &&& post.points_per_orbit == pre.points_per_orbit
    &&& post.config == pre.config
    &&& post.stationary_object_index == pre.stationary_object_index
}

impl Task7Data {
    pub fn new() -> (r: Task7Data)
        ensures
            r.markers@.len() == 0,
            r.trails@.len() == 0,
            r.points_per_orbit == 1_000_000_000,
            r.clock.time == 0,
            scene_config_wf(r.config),
            r.tables@.len() == 0,
            r.stationary_object_index == 0,
    {
        Task7Data {
            markers: Vec::new(),
            trails: Vec::new(),
            points_per_orbit: 1_000_000_000,
            clock: AnimationClock::new(),
            config: SceneConfig::new(),
            tables: Vec::new(),
            stationary_object_index: 0,
        }
    }

    /// Rebuild every body's table, clear the trails and rewind the clock.
    pub fn init(&mut self, objects: &Vec<PlanetaryObject>, active: &Vec<bool>)
        requires
            objects_valid(objects@),
            objects@.len() < 0x8000_0000,
        ensures
            task7_init_post(objects@, active@, *old(self), *final(self)),
    {
        self.tables = build_body_tables(objects, active);
        let mut trails: Vec<Vec<Pos3>> = Vec::new();
        let mut i: usize = 0;
        while i < objects.len()
            invariant
                0 <= i <= objects@.len(),
                trails@.len() == i,
                forall|k: int| 0 <= k < i ==> (#[trigger] trails@[k])@.len() == 0,
            decreases objects@.len() - i,
        {
            trails.push(Vec::new());
            i = i + 1;
        }
        self.trails = trails;
        self.clock = AnimationClock::new();
    }

    /// One animation frame: advance the clock, place every body, express
    /// all positions relative to the stationary body, extend the trails
    /// and lay the markers. Nothing moves on a frame where the
    /// stationary body itself stands nowhere. The stationary body's own
    /// marker, after recentring, is exactly the origin.
    pub fn step(&mut self, objects: &Vec<PlanetaryObject>, active: &Vec<bool>, frame_delta: i64)
        requires
            objects_valid(objects@),
            objects@.len() < 0x8000_0000,
            0 <= frame_delta <= MAX_FRAME_DELTA,
            -MAX_SIM_TIME <= old(self).clock.time <= MAX_SIM_TIME,
            scene_config_wf(old(self).config),
            old(self).stationary_object_index < objects@.len(),
            -crate::animation::MAX_SPEED <= old(self).points_per_orbit
                <= crate::animation::MAX_SPEED,
            old(self).tables@.len() == objects@.len(),
            forall|i: int|
                0 <= i < objects@.len() ==> sorted_by_time(
                    (#[trigger] old(self).tables@[i])@,
                ) && table_entries_ok(old(self).tables@[i]@),
            old(self).trails@.len() == objects@.len(),
            forall|i: int| 0 <= i < objects@.len() ==> (#[trigger] old(self).trails@[i])@.len()
                < 10_000_000,
        ensures
            final(self).clock.time as int == clamp_spec(
                old(self).clock.time + crate::units::muldiv(
                    frame_delta as int,
                    old(self).config.speed as int,
                    MICRO as int,
                ),
                -MAX_SIM_TIME as int,
                MAX_SIM_TIME as int,
            ),
            final(self).tables == old(self).tables,
            final(self).config == old(self).config,
            final(self).points_per_orbit == old(self).points_per_orbit,
            final(self).stationary_object_index == old(self).stationary_object_index,
            final(self).trails@.len() == objects@.len(),
            ({
                let t = final(self).clock.time as int;
                let stat = old(self).stationary_object_index;
                let stat_pos = task7_position_spec(
                    objects@[stat as int],
                    old(self).tables@[stat as int]@,
                    body_active_spec(active@, stat as int),
                    true,
                    t,
                );
                if stat_pos is Some {
                    let centre = stat_pos->Some_0;
                    let positions = Seq::new(
                        objects@.len(),
                        |i: int|
                            match task7_position_spec(
                                objects@[i],
                                old(self).tables@[i]@,
                                body_active_spec(active@, i),
                                i == stat as int,
                                t,
                            ) {
                                Some(p) => Some(recentred_spec(p, centre)),
                                None => None,
                            },
                    );
                    &&& forall|i: int|
                        0 <= i < objects@.len() ==> (#[trigger] final(self).trails@[i])@ == (
                        match positions[i] {
                            Some(p) => trail_next_spec(
                                old(self).trails@[i]@,
                                p,
                                t,
                                objects@[i].period_years as int,
                                old(self).points_per_orbit as int,
                            ),
                            None => old(self).trails@[i]@,
                        })
                    &&& final(self).markers@ == task7_markers_spec(
                        objects@,
                        positions,
                        body_order_spec(objects@),
                    )
                    &&& forall|k: int|
                        0 <= k < final(self).markers@.len()
                            && (#[trigger] final(self).markers@[k]).body == stat
                            ==> final(self).markers@[k].pos == (Pos3 { x: 0i64, y: 0i64, z: 0i64 })
                } else {
                    final(self).markers == old(self).markers
                        && final(self).trails == old(self).trails
                }
            }),
    {
        let speed = self.config.speed;
        self.clock.advance(frame_delta, speed);
        let time = self.clock.time;
        let stat = self.stationary_object_index;
        let n = objects.len();
        let mut raw_positions: Vec<Option<Pos3>> = Vec::new();
        let mut i: usize = 0;
        while i < n
            invariant
                0 <= i <= n,
                n == objects@.len(),
                objects_valid(objects@),
                -MAX_SIM_TIME <= time <= MAX_SIM_TIME,
                stat < objects@.len(),
                self.tables@.len() == objects@.len(),
                forall|k: int|
                    0 <= k < objects@.len() ==> sorted_by_time(
                        (#[trigger] self.tables@[k])@,
                    ) && table_entries_ok(self.tables@[k]@),
                raw_positions@.len() == i,
                forall|k: int|
                    0 <= k < i ==> (#[trigger] raw_positions@[k]) == task7_position_spec(
                        objects@[k],
                        self.tables@[k]@,
                        body_active_spec(active@, k),
                        k == stat as int,
                        time as int,
                    ),
                positions_within(raw_positions@, 2 * MAX_DISTANCE),
            decreases n - i,
        {
            let shown = body_active(active, i);
            let entry: Option<Pos3> = if !shown && i != stat {
                None
            } else {
                let o = &objects[i];
                let table = &self.tables[i];
                animated_position(o, table, time)
            };
            raw_positions.push(entry);
            i = i + 1;
        }
        if raw_positions[stat].is_some() {
            let recentred = recentre(&raw_positions, stat);
            let ghost positions_spec = recentred@;
            let ghost centre = raw_positions@[stat as int]->Some_0;
            proof {
                assert forall|i2: int| 0 <= i2 < objects@.len() implies recentred@[i2] == (
                match task7_position_spec(
                    objects@[i2],
                    self.tables@[i2]@,
                    body_active_spec(active@, i2),
                    i2 == stat as int,
                    time as int,
                ) {
                    Some(p) => Some(recentred_spec(p, centre)),
                    None => None::<Pos3>,
                }) by {
                    assert(raw_positions@[i2] == task7_position_spec(
                        objects@[i2],
                        self.tables@[i2]@,
                        body_active_spec(active@, i2),
                        i2 == stat as int,
                        time as int,
                    ));
                    if raw_positions@[i2] is Some {
                        assert(recentred@[i2]->Some_0 == recentred_spec(
                            raw_positions@[i2]->Some_0,
                            centre,
                        ));
                    }
                }
                assert(positions_spec =~= Seq::new(
                    objects@.len(),
                    |i2: int|
                        match task7_position_spec(
                            objects@[i2],
                            self.tables@[i2]@,
                            body_active_spec(active@, i2),
                            i2 == stat as int,
                            time as int,
                        ) {
                            Some(p) => Some(recentred_spec(p, centre)),
                            None => None::<Pos3>,
                        },
                ));
            }
            // extend the trails
            let mut old_trails: Vec<Vec<Pos3>> = Vec::new();
            core::mem::swap(&mut old_trails, &mut self.trails);
            let ghost orig_trails = old_trails@;
            let mut new_trails: Vec<Vec<Pos3>> = Vec::new();
            let mut j: usize = 0;
            while j < n
                invariant
                    0 <= j <= n,
                    n == objects@.len(),
                    objects_valid(objects@),
                    -MAX_SIM_TIME <= time <= MAX_SIM_TIME,
                    -crate::animation::MAX_SPEED <= self.points_per_orbit
                        <= crate::animation::MAX_SPEED,
                    recentred@ == positions_spec,
                    positions_spec.len() == objects@.len(),
                    orig_trails.len() == objects@.len(),
                    forall|k: int| 0 <= k < objects@.len() ==> (#[trigger] orig_trails[k])@.len()
                        < 10_000_000,
                    old_trails@ == orig_trails.skip(j as int),
                    new_trails@.len() == j,
                    forall|k: int|
                        0 <= k < j ==> (#[trigger] new_trails@[k])@ == (match positions_spec[k] {
                            Some(p) => trail_next_spec(
                                orig_trails[k]@,
                                p,
                                time as int,
                                objects@[k].period_years as int,
                                self.points_per_orbit as int,
                            ),
                            None => orig_trails[k]@,
                        }),
                decreases n - j,
            {
                proof {
                    assert(orig_trails.skip(j as int)[0] == orig_trails[j as int]);
                    assert(orig_trails.skip(j as int).remove(0) =~= orig_trails.skip(
                        j as int + 1,
                    ));
                }
                let mut tr = old_trails.remove(0);
                match recentred[j] {
                    Some(p) => {
                        let o = &objects[j];
                        if o.period_years <= 0 {
                            tr.push(p);
                        } else {
                            push_trail(&mut tr, p, time, o.period_years, self.points_per_orbit);
                        }
                    },
                    None => {},
                }
                new_trails.push(tr);
                j = j + 1;
            }
            self.trails = new_trails;
            // lay the markers in distance order
            let ghost order_spec = body_order_spec(objects@);
            let order = sorted_order_by_distance(objects);
            proof {
                assert(order@ =~= order_spec);
            }
            let mut markers: Vec<Marker3> = Vec::new();
            let mut k: usize = 0;
            while k < order.len()
                invariant
                    0 <= k <= order@.len(),
                    objects_valid(objects@),
                    order@ == order_spec,
                    order@.len() == objects@.len(),
                    forall|m: int| 0 <= m < order@.len() ==> (#[trigger] order@[m])
                        < objects@.len(),
                    recentred@ == positions_spec,
                    positions_spec.len() == objects@.len(),
                    stat < objects@.len(),
                    positions_spec[stat as int] is Some ==> positions_spec[stat as int]->Some_0
                        == (Pos3 { x: 0i64, y: 0i64, z: 0i64 }),
                    markers@ == task7_markers_spec(
                        objects@,
                        positions_spec,
                        order_spec.take(k as int),
                    ),
                    forall|m: int|
                        0 <= m < markers@.len() && (#[trigger] markers@[m]).body == stat
                            ==> markers@[m].pos == (Pos3 { x: 0i64, y: 0i64, z: 0i64 }),
                decreases order@.len() - k,
            {
                proof {
                    assert(order_spec.take(k as int + 1).drop_last() =~= order_spec.take(
                        k as int,
                    ));
                    assert(order_spec.take(k as int + 1).last() == order_spec[k as int]);
                }
                let idx = order[k];
                match recentred[idx] {
                    Some(p) => {
                        let o = &objects[idx];
                        markers.push(
                            Marker3 { pos: p, colour: o.colour, body: idx, stroke_only: false },
                        );
                    },
                    None => {},
                }
                k = k + 1;
            }
            proof {
                assert(order_spec.take(order_spec.len() as int) =~= order_spec);
            }
            self.markers = markers;
        }
    }
}

/// Every scene's data, side by side; one scene is rebuilt at a time.
pub struct Data {
    pub task_1_data: Task1Data,
    pub task_2_data: Task2Data,
    pub task_2_rotated_data: Task2RotatedData,
    pub task_3_data: Task3Data,
    pub task_4_data: Task4Data,
    pub task_5a_data: Task5AData,
    pub task_5b_data: Task5BData,
    pub task_6_data: Task6Data,
    pub task_7_data: Task7Data,
}


/// The scenes a rebuild of `chosen` leaves untouched: every scene but
/// the chosen one keeps its data unchanged.
pub open spec fn untouched_scenes(pre: Data, post: Data, chosen: Task) -> bool {
    &&& (chosen != Task::Task1 ==> post.task_1_data == pre.task_1_data)
    &&& (chosen != Task::Task2 ==> post.task_2_data == pre.task_2_data)
    &&& (chosen != Task::Task2Rotated ==> post.task_2_rotated_data == pre.task_2_rotated_data)
    &&& (chosen != Task::Task3 ==> post.task_3_data == pre.task_3_data)
    &&& (chosen != Task::Task4 ==> post.task_4_data == pre.task_4_data)
    &&& (chosen != Task::Task5A ==> post.task_5a_data == pre.task_5a_data)
    &&& (chosen != Task::Task5B ==> post.task_5b_data == pre.task_5b_data)
    &&& (chosen != Task::Task6 ==> post.task_6_data == pre.task_6_data)
    &&& (chosen != Task::Task7 ==> post.task_7_data == pre.task_7_data)
}

/// What a rebuild of the chosen scene leaves there: exactly what that
/// scene's own rebuild promises. (One scene of the menu draws directly
/// from others' data and keeps none of its own.)
pub open spec fn chosen_scene_rebuilt(
    pre: Data,
    post: Data,
    chosen: Task,
    objects: Seq<PlanetaryObject>,
    active: Seq<bool>,
    screen_width: int,
    screen_height: int,
) -> bool {
    match chosen {
        Task::Task1 => task1_init_post(objects, active, post.task_1_data),
        Task::Task2 => task2_init_post(objects, active, post.task_2_data),
        Task::Task2Rotated => task2_rotated_init_post(objects, active, post.task_2_rotated_data),
        Task::Task3 => task3_init_post(objects, active, pre.task_3_data, post.task_3_data),
        Task::Task4 => task4_init_post(objects, active, pre.task_4_data, post.task_4_data),
        Task::Task5A => task5a_init_post(objects, active, post.task_5a_data),
        Task::Task5B => task5b_init_post(objects, active, pre.task_5b_data, post.task_5b_data),
        Task::Task5C => true,
        Task::Task6 => task6_init_post(
            objects,
            active,
            screen_width,
            screen_height,
            pre.task_6_data,
            post.task_6_data,
        ),
        Task::Task7 => task7_init_post(objects, active, pre.task_7_data, post.task_7_data),
    }
}

impl Data {
    pub fn new() -> (r: Data)
        ensures
            r.task_1_data.points@.len() == 0,
            r.task_2_data.points@.len() == 0,
            r.task_6_data.selection.chosen@.len() == 0,
            selection_wf(r.task_6_data.selection.chosen@),
            scene_config_wf(r.task_6_data.config),
            scene_config_wf(r.task_7_data.config),
            r.task_6_data.number_of_periods == 10_000_000,
            0 <= r.task_6_data.dt <= crate::kepler::MAX_TABLE_TIME,
            r.task_7_data.stationary_object_index == 0,
    {
        Data {
            task_1_data: Task1Data::new(),
            task_2_data: Task2Data::new(),
            task_2_rotated_data: Task2RotatedData::new(),
            task_3_data: Task3Data::new(),
            task_4_data: Task4Data::new(),
            task_5a_data: Task5AData::new(),
            task_5b_data: Task5BData::new(),
            task_6_data: Task6Data::new(),
            task_7_data: Task7Data::new(),
        }
    }

    /// Rebuild the chosen scene's derived data from the chosen system and
    /// its visibility flags.
    pub fn init_task(
        &mut self,
        chosen_task: &Task,
        chosen_system: usize,
        planetary_systems: &Vec<PlanetarySystem>,
        active: &Vec<bool>,
        screen_width: i64,
        screen_height: i64,
    )
        requires
            chosen_system < planetary_systems@.len(),
            objects_valid(planetary_systems@[chosen_system as int].objects@),
            planetary_systems@[chosen_system as int].objects@.len() <= MAX_POINTS,
            selection_wf(old(self).task_6_data.selection.chosen@),
            forall|k: int|
                0 <= k < old(self).task_6_data.selection.chosen@.len()
                    ==> (#[trigger] old(self).task_6_data.selection.chosen@[k])
                    < planetary_systems@[chosen_system as int].objects@.len(),
            0 <= screen_width <= crate::projection::MAX_SCREEN_OFFSET,
            0 <= screen_height <= crate::projection::MAX_SCREEN_OFFSET,
            0 < old(self).task_6_data.number_of_periods <= crate::animation::MAX_SPEED,
            0 <= old(self).task_6_data.dt <= crate::kepler::MAX_TABLE_TIME,
            scene_config_wf(old(self).task_6_data.config),
        ensures
            untouched_scenes(*old(self), *final(self), *chosen_task),
            chosen_scene_rebuilt(
                *old(self),
                *final(self),
                *chosen_task,
                planetary_systems@[chosen_system as int].objects@,
                active@,
                screen_width as int,
                screen_height as int,
            ),
    {
        let objects = &planetary_systems[chosen_system].objects;
        match *chosen_task {
            Task::Task1 => self.task_1_data.init(objects, active),
            Task::Task2 => self.task_2_data.init(objects, active),
            Task::Task2Rotated => self.task_2_rotated_data.init(objects, active),
            Task::Task3 => self.task_3_data.init(objects, active),
            Task::Task4 => self.task_4_data.init(objects, active),
            Task::Task5A => self.task_5a_data.init(objects, active),
            Task::Task5B => self.task_5b_data.init(objects, active),
            Task::Task5C => {},
            Task::Task6 => self.task_6_data.init(objects, active, screen_width, screen_height),
            Task::Task7 => self.task_7_data.init(objects, active),
        }
    }

    pub fn init_task_by_id(
        &mut self,
        chosen_task: usize,
        chosen_system: usize,
        planetary_systems: &Vec<PlanetarySystem>,
        active: &Vec<bool>,
        screen_width: i64,
        screen_height: i64,
    )
        requires
            chosen_task < TASKS_NUM,
            chosen_system < planetary_systems@.len(),
            objects_valid(planetary_systems@[chosen_system as int].objects@),
            planetary_systems@[chosen_system as int].objects@.len() <= MAX_POINTS,
            selection_wf(old(self).task_6_data.selection.chosen@),
            forall|k: int|
                0 <= k < old(self).task_6_data.selection.chosen@.len()
                    ==> (#[trigger] old(self).task_6_data.selection.chosen@[k])
                    < planetary_systems@[chosen_system as int].objects@.len(),
            0 <= screen_width <= crate::projection::MAX_SCREEN_OFFSET,
            0 <= screen_height <= crate::projection::MAX_SCREEN_OFFSET,
            0 < old(self).task_6_data.number_of_periods <= crate::animation::MAX_SPEED,
            0 <= old(self).task_6_data.dt <= crate::kepler::MAX_TABLE_TIME,
            scene_config_wf(old(self).task_6_data.config),
        ensures
            untouched_scenes(
                *old(self),
                *final(self),
                Task::from_index_spec(chosen_task as int),
            ),
            chosen_scene_rebuilt(
                *old(self),
                *final(self),
                Task::from_index_spec(chosen_task as int),
                planetary_systems@[chosen_system as int].objects@,
                active@,
                screen_width as int,
                screen_height as int,
            ),
    {
        let task = Task::from_index(chosen_task);
        self.init_task(&task, chosen_system, planetary_systems, active, screen_width,
            screen_height);
    }
}

} // verus!
