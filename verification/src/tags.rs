//! Smart tags: labels that rules derive from the statistics of a flight.
//!
//! The rules are independent of each other: every rule that holds gives
//! its tag. Place names follow the rule tags, the country before the
//! continent.

use vstd::prelude::*;
use vstd::arithmetic::div_mod::{lemma_fundamental_div_mod, lemma_mod_bound};
use crate::downsample::floor_div;
use crate::geo::{continent_from_cc, continent_name, country_from_cc, country_name, name_view};
use crate::models::{FlightMetadata, FlightStats};
use crate::table::{retain_flagged, select};
use crate::text::{chars_of, lemma_texts_push, same_text, texts};
use crate::timestamps::{utc_hour, MICROS_PER_HOUR};

verus! {

/// Fifteen degrees of longitude: one hour of local time.
pub const DEGREES_PER_HOUR: i64 = 150_000_000;

/// A thousandth of a degree: a home position closer to the origin than
/// this has no place name.
pub const PLACE_EPSILON: i64 = 10_000;

/// A longitude in hours of local time ahead of UTC, rounded to the hour,
/// halves away from zero. This is an estimate that is wrong near the
/// borders of time zones.
pub open spec fn zone_offset(longitude: i64) -> int {
    if longitude >= 0 {
        (2 * longitude + DEGREES_PER_HOUR) / (2 * DEGREES_PER_HOUR)
    } else {
        -((-2 * longitude + DEGREES_PER_HOUR) / (2 * DEGREES_PER_HOUR))
    }
}

/// The hour of the day at the home position when the flight began.
pub open spec fn local_hour(start_time: i64, home: Option<(i64, i64)>) -> int {
    let offset = match home {
        Some(h) => zone_offset(h.0),
        None => 0,
    };
    (utc_hour(start_time) + offset) % 24
}

/// True when the flight started at night by the clock of its home: from seven
/// in the evening to six in the morning.
pub open spec fn is_night_flight(metadata: FlightMetadata, stats: FlightStats) -> bool {
    metadata.start_time matches Some(t) && (local_hour(t, stats.home_location) >= 19 || local_hour(
        t,
        stats.home_location,
    ) < 6)
}

/// True when the flight was faster than 15 m/s.
pub open spec fn is_high_speed(stats: FlightStats) -> bool {
    stats.max_speed > 15_000
}

/// True when the battery was colder than 15 °C at the start.
pub open spec fn is_cold_battery(stats: FlightStats) -> bool {
    stats.start_battery_temp matches Some(t) && t < 15_000
}

/// True when the flight used more than 75 points of charge in less than 1200 s.
pub open spec fn is_heavy_load(stats: FlightStats) -> bool {
    stats.start_battery_percent is Some && stats.end_battery_percent is Some
        && stats.start_battery_percent->0 - stats.end_battery_percent->0 > 75 && stats.duration_ms
        < 1_200_000
}

/// True when the flight ended with less than 15 % of charge.
pub open spec fn is_low_battery(stats: FlightStats) -> bool {
    stats.end_battery_percent matches Some(p) && p < 15
}

/// True when the flight went higher than 120 m.
pub open spec fn is_high_altitude(stats: FlightStats) -> bool {
    stats.max_altitude > 120_000
}

/// True when the flight went farther than 1000 m from home.
pub open spec fn is_long_distance(stats: FlightStats) -> bool {
    stats.max_distance_from_home > 1_000_000
}

/// True when the flight lasted longer than 1500 s.
pub open spec fn is_long_flight(stats: FlightStats) -> bool {
    stats.duration_ms > 1_500_000
}

/// True when the flight lasted less than 120 s, and some time.
pub open spec fn is_short_flight(stats: FlightStats) -> bool {
    0 < stats.duration_ms < 120_000
}

/// True when the mean speed of the flight was above 8 m/s.
pub open spec fn is_aggressive_flying(stats: FlightStats) -> bool {
    stats.avg_speed > 8_000
}

/// True when the flight has no home location.
pub open spec fn is_without_gps(stats: FlightStats) -> bool {
    stats.home_location is None
}

/// The tag, where the rule holds.
pub open spec fn tag_if(holds: bool, tag: Seq<char>) -> Seq<Seq<char>> {
    if holds {
        seq![tag]
    } else {
        Seq::empty()
    }
}

/// The tags of the rules that hold, in the order of the rules.
pub open spec fn rule_tags(metadata: FlightMetadata, stats: FlightStats) -> Seq<Seq<char>> {
    tag_if(is_night_flight(metadata, stats), "Night Flight"@) + tag_if(
        is_high_speed(stats),
        "High Speed"@,
    ) + tag_if(is_cold_battery(stats), "Cold Battery"@) + tag_if(
        is_heavy_load(stats),
        "Heavy Load"@,
    ) + tag_if(is_low_battery(stats), "Low Battery"@) + tag_if(
        is_high_altitude(stats),
        "High Altitude"@,
    ) + tag_if(is_long_distance(stats), "Long Distance"@) + tag_if(
        is_long_flight(stats),
        "Long Flight"@,
    ) + tag_if(is_short_flight(stats), "Short Flight"@) + tag_if(
        is_aggressive_flying(stats),
        "Aggressive Flying"@,
    ) + tag_if(is_without_gps(stats), "No GPS"@)
}

/// The tag of a place, where the place has a name.
pub open spec fn name_tag(name: Option<Seq<char>>) -> Seq<Seq<char>> {
    match name {
        Some(n) => seq![n],
        None => Seq::empty(),
    }
}

/// The place names of a position in the country with the code `cc`: the
/// country and the continent, as far as they are known; none for a position
/// within a thousandth of a degree of the origin.
pub open spec fn place_tags(latitude: i64, longitude: i64, cc: Seq<char>) -> Seq<Seq<char>> {
    if -PLACE_EPSILON < latitude < PLACE_EPSILON && -PLACE_EPSILON < longitude < PLACE_EPSILON {
        Seq::empty()
    } else {
        name_tag(country_name(cc)) + name_tag(continent_name(cc))
    }
}

/// `base`, and behind it those of the first `n` of `extra` that were not
/// there before.
pub open spec fn with_new(base: Seq<Seq<char>>, extra: Seq<Seq<char>>, n: int) -> Seq<Seq<char>>
    decreases n,
{
    if n <= 0 {
        base
    } else {
        let before = with_new(base, extra, n - 1);
        if before.contains(extra[n - 1]) {
            before
        } else {
            before.push(extra[n - 1])
        }
    }
}

/// The smart tags of a flight whose home lies in the country with the code
/// `cc`: the rule tags, then the place names of the home position that
/// are not among them.
pub open spec fn smart_tags(metadata: FlightMetadata, stats: FlightStats, cc: Seq<char>) -> Seq<
    Seq<char>,
> {
    let rules = rule_tags(metadata, stats);
    match stats.home_location {
        Some(home) => {
            let places = place_tags(home.1, home.0, cc);
            with_new(rules, places, places.len() as int)
        },
        None => rules,
    }
}

/// Decides whether a text is the text of a literal.
pub fn is_text(s: &str, literal: &str) -> (r: bool)
    ensures
        r == (s@ == literal@),
{
    same_text(&chars_of(s), &chars_of(literal))
}

/// Decides whether one of the texts is `wanted`.
pub fn has_text(list: &Vec<String>, wanted: &str) -> (r: bool)
    ensures
        r == texts(list@).contains(wanted@),
{
    let mut i: usize = 0;
    while i < list.len()
        invariant
            i <= list.len(),
            forall|k: int| 0 <= k < i ==> texts(list@)[k] != wanted@,
        decreases list.len() - i,
    {
        if is_text(list[i].as_str(), wanted) {
            assert(texts(list@)[i as int] == wanted@);
            return true;
        }
        i += 1;
    }
    false
}

fn push_if(tags: &mut Vec<String>, holds: bool, tag: &str)
    ensures
        texts(final(tags)@) == texts(old(tags)@) + tag_if(holds, tag@),
{
    if holds {
        let owned = tag.to_owned();
        proof {
            lemma_texts_push(tags@, owned);
            assert(texts(tags@).push(owned@) =~= texts(tags@) + tag_if(holds, tag@));
        }
        tags.push(owned);
    } else {
        assert(texts(tags@) =~= texts(tags@) + tag_if(holds, tag@));
    }
}

/// Adds to `tags` those of `extra` that are not there yet.
pub fn push_new(tags: &mut Vec<String>, extra: Vec<String>)
    ensures
        texts(final(tags)@) == with_new(texts(old(tags)@), texts(extra@), extra@.len() as int),
{
    let ghost all = extra@;
    let mut i: usize = 0;
    let n = extra.len();
    for tag in it: extra
        invariant
            it.seq() == all,
            i == it.index(),
            n == all.len(),
            texts(tags@) == with_new(texts(old(tags)@), texts(all), i as int),
    {
        assert(texts(all)[i as int] == tag@);
        if !has_text(tags, tag.as_str()) {
            proof {
                lemma_texts_push(tags@, tag);
            }
            tags.push(tag);
        }
        i += 1;
    }
}

/// The hours that the home position is ahead of UTC, estimated from its
/// longitude.
pub fn estimate_zone_offset(longitude: i64) -> (r: i64)
    ensures
        r == zone_offset(longitude),
        -0x10_0000_0000 <= r <= 0x10_0000_0000,
{
    let x: i128 = longitude as i128;
    let d: i128 = DEGREES_PER_HOUR as i128;
    if x >= 0 {
        let q: i128 = (2 * x + d) / (2 * d);
        assert(0 <= q <= 0x10_0000_0000) by (nonlinear_arith)
            requires
                q == (2 * (x as int) + 150_000_000) / (300_000_000int),
                0 <= x <= 0x7fff_ffff_ffff_ffff,
        ;
        q as i64
    } else {
        let q: i128 = (-2 * x + d) / (2 * d);
        assert(0 <= q <= 0x10_0000_0000) by (nonlinear_arith)
            requires
                q == (-2 * (x as int) + 150_000_000) / (300_000_000int),
                -0x8000_0000_0000_0000 <= x < 0,
        ;
        (-q) as i64
    }
}

/// The hour of the day at the home position when the flight began.
pub fn compute_local_hour(start_time: i64, home: Option<(i64, i64)>) -> (r: i64)
    ensures
        r == local_hour(start_time, home),
        0 <= r < 24,
{
    let hours = floor_div(start_time, MICROS_PER_HOUR);
    let day = floor_div(hours, 24);
    let utc = hours - 24 * day;
    proof {
        lemma_fundamental_div_mod(hours as int, 24);
        lemma_mod_bound(hours as int, 24);
        assert(utc == utc_hour(start_time));
    }
    let offset = match home {
        Some(h) => estimate_zone_offset(h.0),
        None => 0,
    };
    let sum = utc + offset;
    let local = sum - 24 * floor_div(sum, 24);
    proof {
        lemma_fundamental_div_mod(sum as int, 24);
        lemma_mod_bound(sum as int, 24);
    }
    local
}

/// The place names of a position that lies in the country with the code
/// `cc`. The code comes from a gazetteer outside; an unknown code gives no
/// name.
pub fn place_names(latitude: i64, longitude: i64, cc: &str) -> (tags: Vec<String>)
    ensures
        texts(tags@) == place_tags(latitude, longitude, cc@),
{
    let mut tags: Vec<String> = Vec::new();
    assert(texts(tags@) =~= Seq::<Seq<char>>::empty());
    if -PLACE_EPSILON < latitude && latitude < PLACE_EPSILON && -PLACE_EPSILON < longitude
        && longitude < PLACE_EPSILON {
        return tags;
    }
    let country = country_from_cc(cc);
    let continent = continent_from_cc(cc);
    match country {
        Some(name) => {
            push_if(&mut tags, true, name);
        },
        None => {},
    }
    match continent {
        Some(name) => {
            push_if(&mut tags, true, name);
        },
        None => {},
    }
    assert(texts(tags@) =~= name_tag(country_name(cc@)) + name_tag(continent_name(cc@)));
    tags
}

/// Derives the smart tags of a flight from its metadata and statistics.
/// `cc` is the code of the country where the home position lies, as a
/// gazetteer gives it; it is read only where the flight has a home
/// position.
pub fn generate(metadata: &FlightMetadata, stats: &FlightStats, cc: &str) -> (tags: Vec<String>)
    ensures
        texts(tags@) == smart_tags(*metadata, *stats, cc@),
{
    let mut tags: Vec<String> = Vec::new();
    assert(texts(tags@) =~= Seq::<Seq<char>>::empty());
    let night = match metadata.start_time {
        Some(t) => {
            let hour = compute_local_hour(t, stats.home_location);
            hour >= 19 || hour < 6
        },
        None => false,
    };
    push_if(&mut tags, night, "Night Flight");
    push_if(&mut tags, stats.max_speed > 15_000, "High Speed");
    let cold = match stats.start_battery_temp {
        Some(t) => t < 15_000,
        None => false,
    };
    push_if(&mut tags, cold, "Cold Battery");
    let heavy = match (stats.start_battery_percent, stats.end_battery_percent) {
        (Some(start), Some(end)) => (start as i64) - (end as i64) > 75 && stats.duration_ms
            < 1_200_000,
        _ => false,
    };
    push_if(&mut tags, heavy, "Heavy Load");
    let low = match stats.end_battery_percent {
        Some(p) => p < 15,
        None => false,
    };
    push_if(&mut tags, low, "Low Battery");
    push_if(&mut tags, stats.max_altitude > 120_000, "High Altitude");
    push_if(&mut tags, stats.max_distance_from_home > 1_000_000, "Long Distance");
    push_if(&mut tags, stats.duration_ms > 1_500_000, "Long Flight");
    push_if(&mut tags, 0 < stats.duration_ms && stats.duration_ms < 120_000, "Short Flight");
    push_if(&mut tags, stats.avg_speed > 8_000, "Aggressive Flying");
    push_if(&mut tags, stats.home_location.is_none(), "No GPS");
    assert(texts(tags@) =~= rule_tags(*metadata, *stats));
    match stats.home_location {
        Some(home) => {
            let places = place_names(home.1, home.0, cc);
            push_new(&mut tags, places);
        },
        None => {},
    }
    tags
}

// ---------------------------------------------------------------------------
// Filtering by enabled rules
// ---------------------------------------------------------------------------

/// The tag that the rule with the identifier `id` gives.
pub open spec fn tag_of_rule(id: Seq<char>) -> Option<Seq<char>> {
    if id == "night_flight"@ {
        Some("Night Flight"@)
    } else if id == "high_speed"@ {
        Some("High Speed"@)
    } else if id == "cold_battery"@ {
        Some("Cold Battery"@)
    } else if id == "heavy_load"@ {
        Some("Heavy Load"@)
    } else if id == "low_battery"@ {
        Some("Low Battery"@)
    } else if id == "high_altitude"@ {
        Some("High Altitude"@)
    } else if id == "long_distance"@ {
        Some("Long Distance"@)
    } else if id == "long_flight"@ {
        Some("Long Flight"@)
    } else if id == "short_flight"@ {
        Some("Short Flight"@)
    } else if id == "aggressive_flying"@ {
        Some("Aggressive Flying"@)
    } else if id == "no_gps"@ {
        Some("No GPS"@)
    } else {
        None
    }
}

/// True when a rule gives the tag.
pub open spec fn is_rule_tag(tag: Seq<char>) -> bool {
    tag == "Night Flight"@ || tag == "High Speed"@ || tag == "Cold Battery"@ || tag == "Heavy Load"@ || tag == "Low Battery"@ || tag == "High Altitude"@ || tag == "Long Distance"@ || tag == "Long Flight"@ || tag == "Short Flight"@ || tag == "Aggressive Flying"@ || tag == "No GPS"@
}

/// True when the tag is the name of a continent.
pub open spec fn is_continent_tag(tag: Seq<char>) -> bool {
    tag == "Africa"@ || tag == "Antarctica"@ || tag == "Asia"@ || tag == "Europe"@ || tag == "North America"@ || tag == "Oceania"@ || tag == "South America"@
}

/// True when one of the enabled rules gives the tag.
pub open spec fn is_enabled_tag(enabled: Seq<Seq<char>>, tag: Seq<char>) -> bool {
    exists|i: int| 0 <= i < enabled.len() && tag_of_rule(#[trigger] enabled[i]) == Some(tag)
}

/// True when the filter lets the tag pass: the tag of an enabled rule; the
/// name of a continent where `continent` is enabled; and any tag that no
/// rule gives and that is no continent, taken for the name of a country,
/// where `country` is enabled.
pub open spec fn passes(enabled: Seq<Seq<char>>, tag: Seq<char>) -> bool {
    if is_enabled_tag(enabled, tag) {
        true
    } else if is_continent_tag(tag) {
        enabled.contains("continent"@)
    } else if !is_rule_tag(tag) {
        enabled.contains("country"@)
    } else {
        false
    }
}

/// Which tags pass the enabled rules.
pub open spec fn pass_flags(tags: Seq<Seq<char>>, enabled: Seq<Seq<char>>) -> Seq<bool> {
    Seq::new(tags.len(), |i: int| passes(enabled, tags[i]))
}

/// The tags that the filter lets pass, in their order. With nothing
/// enabled the filter is off and every tag passes.
pub open spec fn filtered_tags(tags: Seq<Seq<char>>, enabled: Seq<Seq<char>>) -> Seq<Seq<char>> {
    if enabled.len() == 0 {
        tags
    } else {
        select(tags, pass_flags(tags, enabled))
    }
}

/// The tag that the rule with the identifier `id` gives.
pub fn rule_tag(id: &str) -> (r: Option<&'static str>)
    ensures
        name_view(r) == tag_of_rule(id@),
{
    if is_text(id, "night_flight") {
        Some("Night Flight")
    } else if is_text(id, "high_speed") {
        Some("High Speed")
    } else if is_text(id, "cold_battery") {
        Some("Cold Battery")
    } else if is_text(id, "heavy_load") {
        Some("Heavy Load")
    } else if is_text(id, "low_battery") {
        Some("Low Battery")
    } else if is_text(id, "high_altitude") {
        Some("High Altitude")
    } else if is_text(id, "long_distance") {
        Some("Long Distance")
    } else if is_text(id, "long_flight") {
        Some("Long Flight")
    } else if is_text(id, "short_flight") {
        Some("Short Flight")
    } else if is_text(id, "aggressive_flying") {
        Some("Aggressive Flying")
    } else if is_text(id, "no_gps") {
        Some("No GPS")
    } else {
        None
    }
}

fn check_rule_tag(tag: &str) -> (r: bool)
    ensures
        r == is_rule_tag(tag@),
{
    is_text(tag, "Night Flight") || is_text(tag, "High Speed") || is_text(tag, "Cold Battery") || is_text(tag, "Heavy Load") || is_text(tag, "Low Battery") || is_text(tag, "High Altitude") || is_text(tag, "Long Distance") || is_text(tag, "Long Flight") || is_text(tag, "Short Flight") || is_text(tag, "Aggressive Flying") || is_text(tag, "No GPS")
}

fn check_continent_tag(tag: &str) -> (r: bool)
    ensures
        r == is_continent_tag(tag@),
{
    is_text(tag, "Africa") || is_text(tag, "Antarctica") || is_text(tag, "Asia") || is_text(tag, "Europe") || is_text(tag, "North America") || is_text(tag, "Oceania") || is_text(tag, "South America")
}

fn check_enabled_tag(enabled: &Vec<String>, tag: &str) -> (r: bool)
    ensures
        r == is_enabled_tag(texts(enabled@), tag@),
{
    let mut i: usize = 0;
    while i < enabled.len()
        invariant
            i <= enabled.len(),
            forall|k: int| 0 <= k < i ==> tag_of_rule(#[trigger] texts(enabled@)[k]) != Some(tag@),
        decreases enabled.len() - i,
    {
        match rule_tag(enabled[i].as_str()) {
            Some(name) => {
                if is_text(tag, name) {
                    assert(tag_of_rule(texts(enabled@)[i as int]) == Some(tag@));
                    return true;
                }
            },
            None => {},
        }
        i += 1;
    }
    false
}

/// Decides whether the filter lets the tag pass.
pub fn check_passes(enabled: &Vec<String>, tag: &str) -> (r: bool)
    ensures
        r == passes(texts(enabled@), tag@),
{
    if check_enabled_tag(enabled, tag) {
        true
    } else if check_continent_tag(tag) {
        has_text(enabled, "continent")
    } else if !check_rule_tag(tag) {
        has_text(enabled, "country")
    } else {
        false
    }
}

/// The texts of selected rows are what was selected of the texts of the rows.
pub proof fn lemma_texts_of_select(rows: Seq<String>, keep: Seq<bool>)
    requires
        rows.len() == keep.len(),
    ensures
        texts(select(rows, keep)) == select(texts(rows), keep),
{
    crate::table::lemma_kept_indices(keep, rows.len() as int);
    assert(texts(select(rows, keep)) =~= select(texts(rows), keep));
}

/// Takes out the tags of the rules that are not enabled. `enabled` holds
/// the identifiers of the enabled rules, `country` and `continent` among
/// them for the place names. With nothing enabled every tag stays.
pub fn filter(tags: Vec<String>, enabled: &Vec<String>) -> (r: Vec<String>)
    ensures
        texts(r@) == filtered_tags(texts(tags@), texts(enabled@)),
{
    if enabled.len() == 0 {
        return tags;
    }
    let mut keep: Vec<bool> = Vec::new();
    let mut i: usize = 0;
    while i < tags.len()
        invariant
            i <= tags.len(),
            keep@ =~= Seq::new(i as nat, |k: int| passes(texts(enabled@), texts(tags@)[k])),
        decreases tags.len() - i,
    {
        keep.push(check_passes(enabled, tags[i].as_str()));
        i += 1;
    }
    let mut kept = tags;
    proof {
        lemma_texts_of_select(tags@, keep@);
        assert(keep@ =~= pass_flags(texts(tags@), texts(enabled@)));
    }
    retain_flagged(&mut kept, &keep);
    kept
}

// ---------------------------------------------------------------------------
// What the tags say of the rules
// ---------------------------------------------------------------------------

/// A text is among two runs of texts in a row where it is in one of them.
proof fn lemma_in_a_row(a: Seq<Seq<char>>, b: Seq<Seq<char>>, x: Seq<char>)
    ensures
        (a + b).contains(x) == (a.contains(x) || b.contains(x)),
{
    if a.contains(x) {
        let i = choose|i: int| 0 <= i < a.len() && a[i] == x;
        assert((a + b)[i] == x);
    }
    if b.contains(x) {
        let i = choose|i: int| 0 <= i < b.len() && b[i] == x;
        assert((a + b)[a.len() + i] == x);
    }
    if (a + b).contains(x) {
        let i = choose|i: int| 0 <= i < (a + b).len() && (a + b)[i] == x;
        if i < a.len() {
            assert(a[i] == x);
        } else {
            assert(b[i - a.len()] == x);
        }
    }
}

/// The tag of a rule is there where the rule holds and the tag is asked
/// for.
proof fn lemma_tag_if(holds: bool, tag: Seq<char>, x: Seq<char>)
    ensures
        tag_if(holds, tag).contains(x) == (holds && x == tag),
{
    if holds {
        assert(tag_if(holds, tag)[0] == tag);
    }
}

/// The tags of the rules hold the tag of a rule exactly where the rule
/// holds.
pub proof fn lemma_rule_tags_say_which_rules_hold(
    metadata: FlightMetadata,
    stats: FlightStats,
    x: Seq<char>,
)
    ensures
        rule_tags(metadata, stats).contains(x) == (
        (x == "Night Flight"@ && is_night_flight(metadata, stats)) ||
        (x == "High Speed"@ && is_high_speed(stats)) ||
        (x == "Cold Battery"@ && is_cold_battery(stats)) ||
        (x == "Heavy Load"@ && is_heavy_load(stats)) ||
        (x == "Low Battery"@ && is_low_battery(stats)) ||
        (x == "High Altitude"@ && is_high_altitude(stats)) ||
        (x == "Long Distance"@ && is_long_distance(stats)) ||
        (x == "Long Flight"@ && is_long_flight(stats)) ||
        (x == "Short Flight"@ && is_short_flight(stats)) ||
        (x == "Aggressive Flying"@ && is_aggressive_flying(stats)) ||
        (x == "No GPS"@ && is_without_gps(stats))
        ),
{
    let t0 = tag_if(is_night_flight(metadata, stats), "Night Flight"@);
    lemma_tag_if(is_night_flight(metadata, stats), "Night Flight"@, x);
    let u1 = tag_if(is_high_speed(stats), "High Speed"@);
    lemma_tag_if(is_high_speed(stats), "High Speed"@, x);
    let t1 = t0 + u1;
    lemma_in_a_row(t0, u1, x);
    let u2 = tag_if(is_cold_battery(stats), "Cold Battery"@);
    lemma_tag_if(is_cold_battery(stats), "Cold Battery"@, x);
    let t2 = t1 + u2;
    lemma_in_a_row(t1, u2, x);
    let u3 = tag_if(is_heavy_load(stats), "Heavy Load"@);
    lemma_tag_if(is_heavy_load(stats), "Heavy Load"@, x);
    let t3 = t2 + u3;
    lemma_in_a_row(t2, u3, x);
    let u4 = tag_if(is_low_battery(stats), "Low Battery"@);
    lemma_tag_if(is_low_battery(stats), "Low Battery"@, x);
    let t4 = t3 + u4;
    lemma_in_a_row(t3, u4, x);
    let u5 = tag_if(is_high_altitude(stats), "High Altitude"@);
    lemma_tag_if(is_high_altitude(stats), "High Altitude"@, x);
    let t5 = t4 + u5;
    lemma_in_a_row(t4, u5, x);
    let u6 = tag_if(is_long_distance(stats), "Long Distance"@);
    lemma_tag_if(is_long_distance(stats), "Long Distance"@, x);
    let t6 = t5 + u6;
    lemma_in_a_row(t5, u6, x);
    let u7 = tag_if(is_long_flight(stats), "Long Flight"@);
    lemma_tag_if(is_long_flight(stats), "Long Flight"@, x);
    let t7 = t6 + u7;
    lemma_in_a_row(t6, u7, x);
    let u8 = tag_if(is_short_flight(stats), "Short Flight"@);
    lemma_tag_if(is_short_flight(stats), "Short Flight"@, x);
    let t8 = t7 + u8;
    lemma_in_a_row(t7, u8, x);
    let u9 = tag_if(is_aggressive_flying(stats), "Aggressive Flying"@);
    lemma_tag_if(is_aggressive_flying(stats), "Aggressive Flying"@, x);
    let t9 = t8 + u9;
    lemma_in_a_row(t8, u9, x);
    let u10 = tag_if(is_without_gps(stats), "No GPS"@);
    lemma_tag_if(is_without_gps(stats), "No GPS"@, x);
    let t10 = t9 + u10;
    lemma_in_a_row(t9, u10, x);
    assert(rule_tags(metadata, stats) == t10);
}

/// Texts that were not there before and are not the text asked for add
/// nothing to whether the text is there.
proof fn lemma_with_new_adds_others(
    base: Seq<Seq<char>>,
    extra: Seq<Seq<char>>,
    n: int,
    x: Seq<char>,
)
    requires
        0 <= n <= extra.len(),
        forall|i: int| 0 <= i < n ==> #[trigger] extra[i] != x,
    ensures
        with_new(base, extra, n).contains(x) == base.contains(x),
    decreases n,
{
    if n > 0 {
        lemma_with_new_adds_others(base, extra, n - 1, x);
        let before = with_new(base, extra, n - 1);
        if !before.contains(extra[n - 1]) {
            let after = before.push(extra[n - 1]);
            if after.contains(x) {
                let i = choose|i: int| 0 <= i < after.len() && after[i] == x;
                assert(i < before.len());
                assert(before[i] == x);
            }
            if before.contains(x) {
                let i = choose|i: int| 0 <= i < before.len() && before[i] == x;
                assert(after[i] == x);
            }
        }
    }
}

/// The names of places add no tag of a rule: the tag of a rule is among
/// the smart tags of a flight exactly where it is among the tags of the
/// rules.
pub proof fn lemma_places_add_no_rule_tag(
    metadata: FlightMetadata,
    stats: FlightStats,
    cc: Seq<char>,
    tag: Seq<char>,
)
    requires
        is_rule_tag(tag),
    ensures
        smart_tags(metadata, stats, cc).contains(tag) == rule_tags(metadata, stats).contains(tag),
{
    match stats.home_location {
        Some(home) => {
            let places = place_tags(home.1, home.0, cc);
            if cc.len() == 2 {
                crate::geo::lemma_no_country_is_named_like_a_rule(cc[0], cc[1]);
                crate::geo::lemma_no_continent_is_named_like_a_rule(cc[0], cc[1]);
            }
            assert forall|i: int| 0 <= i < places.len() implies #[trigger] places[i] != tag by {
                let country = name_tag(country_name(cc));
                let continent = name_tag(continent_name(cc));
                if i < country.len() {
                    assert(places[i] == country[i]);
                } else {
                    assert(places[i] == continent[i - country.len()]);
                }
            }
            lemma_with_new_adds_others(
                rule_tags(metadata, stats),
                places,
                places.len() as int,
                tag,
            );
        },
        None => {},
    }
}

/// A flight that lasts longer than 1500 s at a mean speed above 8 m/s and
/// stays at or below 120 m is tagged as a long flight and as aggressive
/// flying, and neither as a high nor as a short one, wherever it was
/// flown and whatever else is known of it.
pub proof fn lemma_tags_of_a_long_and_fast_flight(
    metadata: FlightMetadata,
    stats: FlightStats,
    cc: Seq<char>,
)
    requires
        stats.duration_ms > 1_500_000,
        stats.avg_speed > 8_000,
        stats.max_altitude <= 120_000,
    ensures
        smart_tags(metadata, stats, cc).contains("Long Flight"@),
        smart_tags(metadata, stats, cc).contains("Aggressive Flying"@),
        !smart_tags(metadata, stats, cc).contains("High Altitude"@),
        !smart_tags(metadata, stats, cc).contains("Short Flight"@),
{
    reveal_strlit("Night Flight");
    reveal_strlit("High Speed");
    reveal_strlit("Cold Battery");
    reveal_strlit("Heavy Load");
    reveal_strlit("Low Battery");
    reveal_strlit("High Altitude");
    reveal_strlit("Long Distance");
    reveal_strlit("Long Flight");
    reveal_strlit("Short Flight");
    reveal_strlit("Aggressive Flying");
    reveal_strlit("No GPS");
    assert("Night Flight"@.len() == 12);
    assert("High Speed"@.len() == 10);
    assert("Cold Battery"@.len() == 12);
    assert("Heavy Load"@.len() == 10);
    assert("Low Battery"@.len() == 11);
    assert("High Altitude"@.len() == 13);
    assert("Long Distance"@.len() == 13);
    assert("Long Flight"@.len() == 11);
    assert("Short Flight"@.len() == 12);
    assert("Aggressive Flying"@.len() == 17);
    assert("No GPS"@.len() == 6);
    assert("Night Flight"@[0] == 'N' && "Cold Battery"@[0] == 'C');
    assert("Night Flight"@[0] == 'N' && "Short Flight"@[0] == 'S');
    assert("High Speed"@[1] == 'i' && "Heavy Load"@[1] == 'e');
    assert("Cold Battery"@[0] == 'C' && "Short Flight"@[0] == 'S');
    assert("Low Battery"@[2] == 'w' && "Long Flight"@[2] == 'n');
    assert("High Altitude"@[0] == 'H' && "Long Distance"@[0] == 'L');
    lemma_places_add_no_rule_tag(metadata, stats, cc, "Long Flight"@);
    lemma_rule_tags_say_which_rules_hold(metadata, stats, "Long Flight"@);
    lemma_places_add_no_rule_tag(metadata, stats, cc, "Aggressive Flying"@);
    lemma_rule_tags_say_which_rules_hold(metadata, stats, "Aggressive Flying"@);
    lemma_places_add_no_rule_tag(metadata, stats, cc, "High Altitude"@);
    lemma_rule_tags_say_which_rules_hold(metadata, stats, "High Altitude"@);
    lemma_places_add_no_rule_tag(metadata, stats, cc, "Short Flight"@);
    lemma_rule_tags_say_which_rules_hold(metadata, stats, "Short Flight"@);
}

} // verus!
