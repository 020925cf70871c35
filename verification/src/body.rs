//! Planetary bodies and systems: the orbital element sets the engine
//! consumes, and the stable distance ordering the scenes draw in.

use vstd::prelude::*;
use vstd::string::StringSliceAdditionalSpecFns;
use crate::units::MICRO;
use crate::units::AU_KM;
use crate::units::muldiv;
use crate::units::mul_div;
use crate::geometry::valid_distance;
use crate::geometry::valid_eccentricity;
use crate::geometry::valid_angle;
use crate::colour::Colour;
use crate::colour::parse_colour;
use crate::colour::parse_colour_spec;
use crate::kepler::MAX_PERIOD;
use crate::table::TimeAngle;
use crate::table::sort_by_time_spec;
use crate::table::sort_table_by_time;
use crate::table::sorted_by_time;
use crate::table::lemma_sort_by_time_membership;

verus! {

/// The largest central distance accepted, in kilometres (one million
/// astronomical units).
pub const MAX_DISTANCE_KM: i64 = 149_600_000_000_000;

/// One body's orbital element set as it arrives from outside, already in
/// the engine's integer units (micro-units and arcseconds), the colour
/// still a raw string.
pub struct PlanetaryObjectRaw {
    pub name: String,
    pub distance_km: i64,
    pub eccentricity: i64,
    pub period_years: i64,
    pub inclination: i64,
    pub longitude_of_perihelion: i64,
    pub group: String,
    pub colour: Option<String>,
}

/// One body's orbital element set, immutable once loaded.
pub struct PlanetaryObject {
    pub name: String,
    pub distance_km: i64,
    pub distance_au: i64,
    pub eccentricity: i64,
    pub period_years: i64,
    pub inclination: i64,
    pub longitude_of_perihelion: i64,
    pub group: String,
    pub colour: Colour,
}

/// The element ranges every engine entry point accepts.
pub open spec fn object_valid(o: PlanetaryObject) -> bool {
    &&& valid_distance(o.distance_au as int)
    &&& valid_eccentricity(o.eccentricity as int)
    &&& 0 <= o.period_years <= MAX_PERIOD
    &&& valid_angle(o.inclination as int)
    &&& valid_angle(o.longitude_of_perihelion as int)
}

pub open spec fn raw_valid(r: PlanetaryObjectRaw) -> bool {
    &&& 0 <= r.distance_km <= MAX_DISTANCE_KM
    &&& valid_eccentricity(r.eccentricity as int)
    &&& 0 <= r.period_years <= MAX_PERIOD
    &&& valid_angle(r.inclination as int)
    &&& valid_angle(r.longitude_of_perihelion as int)
}

impl PlanetaryObject {
    /// Adopt a raw record: the distance in astronomical units is derived
    /// from the distance in kilometres, and the colour string is parsed,
    /// falling back to the given default.
    pub fn from_raw(planetary_object_raw: PlanetaryObjectRaw, default_colour: Colour) -> (r:
        PlanetaryObject)
        requires
            raw_valid(planetary_object_raw),
        ensures
            r.name == planetary_object_raw.name,
            r.distance_km == planetary_object_raw.distance_km,
            r.distance_au as int == muldiv(
                planetary_object_raw.distance_km as int,
                MICRO as int,
                AU_KM as int,
            ),
            r.eccentricity == planetary_object_raw.eccentricity,
            r.period_years == planetary_object_raw.period_years,
            r.inclination == planetary_object_raw.inclination,
            r.longitude_of_perihelion == planetary_object_raw.longitude_of_perihelion,
            r.group == planetary_object_raw.group,
            match planetary_object_raw.colour {
                None => r.colour == default_colour,
                Some(s) => r.colour == parse_colour_spec(
                    vstd::utf8::encode_utf8(s@),
                    default_colour,
                ),
            },
            object_valid(r),
    {
        proof {
            let km = planetary_object_raw.distance_km as int;
            assert(0 <= km * (MICRO as int) <= (MAX_DISTANCE_KM as int) * (MICRO as int))
                by (nonlinear_arith)
                requires 0 <= km <= MAX_DISTANCE_KM;
            vstd::arithmetic::div_mod::lemma_div_pos_is_pos(km * (MICRO as int), AU_KM as int);
            vstd::arithmetic::div_mod::lemma_div_is_ordered(
                km * (MICRO as int),
                (MAX_DISTANCE_KM as int) * (MICRO as int),
                AU_KM as int,
            );
            assert((MAX_DISTANCE_KM as int) * (MICRO as int) / (AU_KM as int)
                == 1000000000000int);
        }
        let distance_au = mul_div(planetary_object_raw.distance_km, MICRO, AU_KM);
        let colour = match &planetary_object_raw.colour {
            None => default_colour,
            Some(s) => parse_colour(Some(s.as_str()), default_colour),
        };
        PlanetaryObject {
            name: planetary_object_raw.name,
            distance_km: planetary_object_raw.distance_km,
            distance_au,
            eccentricity: planetary_object_raw.eccentricity,
            period_years: planetary_object_raw.period_years,
            inclination: planetary_object_raw.inclination,
            longitude_of_perihelion: planetary_object_raw.longitude_of_perihelion,
            group: planetary_object_raw.group,
            colour,
        }
    }
}

/// An ordered set of bodies under one name.
pub struct PlanetarySystem {
    pub name: String,
    pub objects: Vec<PlanetaryObject>,
}

impl PlanetarySystem {
    pub fn new(objects: Vec<PlanetaryObject>, name: String) -> (r: PlanetarySystem)
        ensures
            r.name == name,
            r.objects == objects,
    {
        PlanetarySystem { name, objects }
    }
}

/// Every scene treats bodies in order of distance from the centre; this
/// is that order as a key-index table, stably sorted.
pub open spec fn distance_table_spec(objects: Seq<PlanetaryObject>) -> Seq<TimeAngle> {
    Seq::new(
        objects.len(),
        |i: int| TimeAngle { time: objects[i].distance_au, angle: i as i64 },
    )
}

pub open spec fn distance_order_spec(objects: Seq<PlanetaryObject>) -> Seq<TimeAngle> {
    sort_by_time_spec(distance_table_spec(objects))
}

/// The indices of the bodies in ascending order of distance, ties kept
/// in the given order.
pub fn sorted_order_by_distance(objects: &Vec<PlanetaryObject>) -> (r: Vec<usize>)
    requires
        objects@.len() < 0x8000_0000,
    ensures
        r@.len() == objects@.len(),
        forall|k: int| 0 <= k < r@.len() ==> (#[trigger] r@[k]) < objects@.len(),
        forall|k: int|
            0 <= k < r@.len() ==> distance_order_spec(objects@)[k] == (TimeAngle {
                time: objects@[r@[k] as int].distance_au,
                angle: r@[k] as i64,
            }),
        forall|k1: int, k2: int|
            0 <= k1 <= k2 < r@.len() ==> objects@[r@[k1] as int].distance_au
                <= objects@[r@[k2] as int].distance_au,
{
    let ghost dtable = distance_table_spec(objects@);
    let mut pairs: Vec<TimeAngle> = Vec::new();
    let mut i: usize = 0;
    while i < objects.len()
        invariant
            0 <= i <= objects@.len(),
            objects@.len() < 0x8000_0000,
            dtable == distance_table_spec(objects@),
            pairs@.len() == i,
            forall|k: int| 0 <= k < i ==> pairs@[k] == dtable[k],
        decreases objects@.len() - i,
    {
        pairs.push(TimeAngle { time: objects[i].distance_au, angle: i as i64 });
        i = i + 1;
    }
    proof {
        assert(pairs@ =~= dtable);
    }
    let sorted = sort_table_by_time(pairs);
    proof {
        lemma_sort_by_time_membership(dtable);
    }
    let mut order: Vec<usize> = Vec::new();
    let mut j: usize = 0;
    while j < sorted.len()
        invariant
            0 <= j <= sorted@.len(),
            objects@.len() < 0x8000_0000,
            dtable == distance_table_spec(objects@),
            sorted@ == distance_order_spec(objects@),
            sorted@.len() == objects@.len(),
            forall|k: int| 0 <= k < sorted@.len() ==> dtable.contains(#[trigger] sorted@[k]),
            sorted_by_time(sorted@),
            order@.len() == j,
            forall|k: int| 0 <= k < j ==> (#[trigger] order@[k]) < objects@.len(),
            forall|k: int|
                0 <= k < j ==> sorted@[k] == (TimeAngle {
                    time: objects@[order@[k] as int].distance_au,
                    angle: order@[k] as i64,
                }),
        decreases sorted@.len() - j,
    {
        proof {
            assert(dtable.contains(sorted@[j as int]));
            let m = choose|m: int| 0 <= m < dtable.len() && dtable[m] == sorted@[j as int];
            assert(dtable[m] == (TimeAngle {
                time: objects@[m].distance_au,
                angle: m as i64,
            }));
            assert(sorted@[j as int].angle == m as i64);
            assert(0 <= m < 0x8000_0000);
            assert(sorted@[j as int].angle as int == m);
            assert(sorted@[j as int].time == objects@[m].distance_au);
        }
        let idx = sorted[j].angle as usize;
        proof {
            assert(sorted@[j as int] == (TimeAngle {
                time: objects@[idx as int].distance_au,
                angle: idx as i64,
            }));
        }
        order.push(idx);
        j = j + 1;
    }
    proof {
        assert forall|k1: int, k2: int| 0 <= k1 <= k2 < order@.len() implies objects@[order@[k1] as int].distance_au
            <= objects@[order@[k2] as int].distance_au by {
            assert(sorted@[k1].time <= sorted@[k2].time);
        }
    }
    order
}

} // verus!
