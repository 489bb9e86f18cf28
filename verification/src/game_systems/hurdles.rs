//! Where the hurdles stand, and what happens when the player touches one.

use crate::components::{ContactEvent, DespawnWithLevel, Hurdle, Level, LevelEntity, Marker};
use crate::game_systems::Session;
use crate::global_types::{AppState, GameBoundaries, GameOver, MenuState};
use crate::random::{gen_range, shuffle};
use crate::utils::{any_touch, touches};
use rand::rngs::StdRng;
use std::ops::Range;
use vstd::prelude::*;

verus! {

/// The sum of `lengths`.
pub open spec fn total(lengths: Seq<i64>) -> int
    decreases lengths.len(),
{
    if lengths.len() == 0 {
        0
    } else {
        total(lengths.drop_last()) + lengths.last()
    }
}

/// The gap before placement `i` of `placements` on the span from `start` to
/// `end`; for `i` the number of placements, the gap behind the last one.
/// Without placements the one gap is the span.
pub open spec fn gap(placements: Seq<i32>, start: int, end: int, i: int) -> int {
    let from: int = if i == 0 {
        start
    } else {
        placements[i - 1] as int
    };
    let to: int = if i == placements.len() {
        end
    } else {
        placements[i] as int
    };
    to - from
}

/// Adding a length adds it to the sum.
pub proof fn lemma_total_push(lengths: Seq<i64>, length: i64)
    ensures
        total(lengths.push(length)) == total(lengths) + length,
{
    assert(lengths.push(length).drop_last() =~= lengths);
}

/// Taking a length out takes it from the sum.
pub proof fn lemma_total_remove(lengths: Seq<i64>, i: int)
    requires
        0 <= i < lengths.len(),
    ensures
        total(lengths) == total(lengths.remove(i)) + lengths[i],
    decreases lengths.len(),
{
    if i == lengths.len() - 1 {
        assert(lengths.remove(i) =~= lengths.drop_last());
    } else {
        lemma_total_remove(lengths.drop_last(), i);
        assert(lengths.remove(i).drop_last() =~= lengths.drop_last().remove(i));
    }
}

/// The sum does not depend on the order of the lengths.
pub proof fn lemma_total_of_shuffled(lengths: Seq<i64>, shuffled: Seq<i64>)
    requires
        lengths.to_multiset() == shuffled.to_multiset(),
    ensures
        total(lengths) == total(shuffled),
    decreases lengths.len(),
{
    lengths.to_multiset_ensures();
    shuffled.to_multiset_ensures();
    if lengths.len() == 0 {
        assert(shuffled.len() == 0);
    } else {
        let last: i64 = lengths.last();
        let rest: Seq<i64> = lengths.drop_last();
        assert(rest.push(last) =~= lengths);
        rest.to_multiset_ensures();
        assert(lengths.to_multiset().count(last) > 0);
        assert(shuffled.contains(last));
        let j: int = choose|j: int| 0 <= j < shuffled.len() && shuffled[j] == last;
        assert(rest.to_multiset() =~= shuffled.remove(j).to_multiset());
        lemma_total_of_shuffled(rest, shuffled.remove(j));
        lemma_total_remove(shuffled, j);
    }
}

/// The sum of the first `k` lengths and the sum of the others make the sum.
pub proof fn lemma_total_split(lengths: Seq<i64>, k: int)
    requires
        0 <= k <= lengths.len(),
    ensures
        total(lengths) == total(lengths.take(k)) + total(lengths.skip(k)),
    decreases lengths.len(),
{
    if k == lengths.len() {
        assert(lengths.take(k) =~= lengths);
        assert(lengths.skip(k) =~= Seq::<i64>::empty());
    } else {
        lemma_total_split(lengths.drop_last(), k);
        assert(lengths.drop_last().take(k) =~= lengths.take(k));
        assert(lengths.drop_last().skip(k) =~= lengths.skip(k).drop_last());
    }
}

/// Lengths of which none is negative have no negative sum.
pub proof fn lemma_total_not_negative(lengths: Seq<i64>)
    requires
        forall|i: int| 0 <= i < lengths.len() ==> lengths[i] >= 0,
    ensures
        total(lengths) >= 0,
    decreases lengths.len(),
{
    if lengths.len() > 0 {
        lemma_total_not_negative(lengths.drop_last());
    }
}

/// Lengths of which each is at least `least` sum up to at least as many
/// times `least`.
pub proof fn lemma_total_at_least(lengths: Seq<i64>, least: int)
    requires
        forall|i: int| 0 <= i < lengths.len() ==> lengths[i] >= least,
    ensures
        total(lengths) >= lengths.len() * least,
    decreases lengths.len(),
{
    if lengths.len() > 0 {
        lemma_total_at_least(lengths.drop_last(), least);
        assert(lengths.len() * least == (lengths.len() - 1) * least + least)
            by (nonlinear_arith);
    }
}

/// The position of the largest length; of several equally large, the last.
pub fn largest(distances: &Vec<i64>) -> (at: usize)
    requires
        distances.len() > 0,
    ensures
        at < distances.len(),
        forall|i: int| 0 <= i < distances.len() ==> distances[i] <= distances[at as int],
        forall|i: int| at < i < distances.len() ==> distances[i] < distances[at as int],
{
    let mut at: usize = 0;
    let mut i: usize = 1;
    while i < distances.len()
        invariant
            at < i <= distances.len(),
            forall|j: int| 0 <= j < i ==> distances[j] <= distances[at as int],
            forall|j: int| at < j < i ==> distances[j] < distances[at as int],
        decreases distances.len() - i,
    {
        if distances[i] >= distances[at] {
            at = i;
        }
        i = i + 1;
    }
    at
}

/// Cuts the length at position `at` in two: it leaves its place, and the
/// part of `cut_at` and the rest of it join the end of the list.
pub fn cut(distances: &mut Vec<i64>, at: usize, cut_at: i64)
    requires
        at < old(distances).len(),
        i64::MIN <= old(distances)[at as int] - cut_at <= i64::MAX,
    ensures
        final(distances)@ == old(distances)@.remove(at as int).push(cut_at).push(
            (old(distances)[at as int] - cut_at) as i64,
        ),
{
    let to_cut: i64 = distances.remove(at);
    distances.push(cut_at);
    distances.push(to_cut - cut_at);
}

/// Turns lengths into placements: each but the last is measured off behind
/// the one before, the first from `start`. The last length is what is left
/// over behind the last placement.
pub fn placements_of(distances: &Vec<i64>, start: i32) -> (placements: Vec<i32>)
    requires
        distances.len() >= 1,
        forall|k: int|
            1 <= k < distances.len() ==> i32::MIN <= start + #[trigger] total(distances@.take(k))
                <= i32::MAX,
    ensures
        placements.len() == distances.len() - 1,
        forall|i: int|
            0 <= i < placements.len() ==> placements[i] == start + #[trigger] total(
                distances@.take(i + 1),
            ),
{
    let num_to_return: usize = distances.len() - 1;
    let mut placements: Vec<i32> = Vec::new();
    let mut so_far: i64 = start as i64;
    let mut i: usize = 0;
    assert(distances@.take(0) =~= Seq::<i64>::empty());
    while i < num_to_return
        invariant
            i <= num_to_return,
            num_to_return == distances.len() - 1,
            placements.len() == i,
            so_far == start + total(distances@.take(i as int)),
            i32::MIN <= so_far <= i32::MAX,
            forall|k: int|
                1 <= k < distances.len() ==> i32::MIN <= start + #[trigger] total(
                    distances@.take(k),
                ) <= i32::MAX,
            forall|j: int|
                0 <= j < i ==> placements[j] == start + #[trigger] total(distances@.take(j + 1)),
        decreases num_to_return - i,
    {
        proof {
            assert(distances@.take(i + 1).drop_last() =~= distances@.take(i as int));
            assert(total(distances@.take(i + 1)) == total(distances@.take(i as int))
                + distances[i as int]);
        }
        so_far = so_far + distances[i];
        placements.push(so_far as i32);
        i = i + 1;
    }
    placements
}

/// The placements are settled by the parts and the start: two lists of
/// placements made of the same parts from the same start are the same. So
/// whatever makes the random choices the same makes the layout the same.
pub proof fn lemma_same_parts_same_placements(
    parts: Seq<i64>,
    start: int,
    one: Seq<i32>,
    other: Seq<i32>,
)
    requires
        parts.len() >= 1,
        one.len() == parts.len() - 1,
        other.len() == parts.len() - 1,
        forall|i: int| 0 <= i < one.len() ==> one[i] == start + #[trigger] total(parts.take(i + 1)),
        forall|i: int|
            0 <= i < other.len() ==> other[i] == start + #[trigger] total(parts.take(i + 1)),
    ensures
        one == other,
{
    assert forall|i: int| 0 <= i < one.len() implies one[i] == other[i] by {
        assert(one[i] == start + total(parts.take(i + 1)));
        assert(other[i] == start + total(parts.take(i + 1)));
    }
    assert(one =~= other);
}

/// One more length adds itself to the sum of those before it.
pub proof fn lemma_total_take_next(lengths: Seq<i64>, i: int)
    requires
        0 <= i < lengths.len(),
    ensures
        total(lengths.take(i + 1)) == total(lengths.take(i)) + lengths[i],
{
    assert(lengths.take(i + 1).drop_last() =~= lengths.take(i));
}

/// The gaps that placements leave on a span are the lengths they were made
/// of, where the lengths fill the span.
pub proof fn lemma_gaps_are_lengths(
    lengths: Seq<i64>,
    placements: Seq<i32>,
    start: int,
    end: int,
    i: int,
)
    requires
        lengths.len() >= 1,
        placements.len() == lengths.len() - 1,
        forall|j: int|
            0 <= j < placements.len() ==> placements[j] == start + #[trigger] total(
                lengths.take(j + 1),
            ),
        total(lengths) == end - start,
        0 <= i <= placements.len(),
    ensures
        gap(placements, start, end, i) == lengths[i],
{
    assert(lengths.take(0) =~= Seq::<i64>::empty());
    assert(lengths.take(lengths.len() as int) =~= lengths);
    lemma_total_take_next(lengths, i);
    if 0 < i {
        assert(placements[i - 1] == start + total(lengths.take(i - 1 + 1)));
    }
    if i < placements.len() {
        assert(placements[i] == start + total(lengths.take(i + 1)));
    }
}

/// Places up to `max_num` hurdles on `over_range`, at random, no two nearer
/// to each other, to the start or to the end of the range than `min_size`.
///
/// Time and again the largest part of the range, at first the range itself,
/// is cut in two at a random point that leaves both parts at least `min_size`
/// long, until `max_num` cuts are made or the largest part is shorter than
/// twice `min_size`. The parts are shuffled, and a hurdle is placed between
/// each part and the next. So the gaps between the placements, before the
/// first and behind the last are the parts: each at least `min_size` long,
/// and, if fewer than `max_num` hurdles found room, each shorter than twice
/// that. As the parts make up the range, there are no more of them than
/// fit into it.
pub fn distribute_distances(
    rng: &mut StdRng,
    max_num: usize,
    over_range: Range<i32>,
    min_size: u32,
) -> (placements: Vec<i32>)
    ensures
        placements.len() <= max_num,
        forall|i: int|
            0 <= i < placements.len() ==> over_range.start <= #[trigger] placements[i]
                <= over_range.end,
        placements.len() >= 1 ==> forall|i: int|
            0 <= i <= placements.len() ==> #[trigger] gap(
                placements@,
                over_range.start as int,
                over_range.end as int,
                i,
            ) >= min_size,
        placements.len() < max_num ==> forall|i: int|
            0 <= i <= placements.len() ==> #[trigger] gap(
                placements@,
                over_range.start as int,
                over_range.end as int,
                i,
            ) < 2 * min_size,
        placements.len() >= 1 ==> (placements.len() + 1) * min_size <= over_range.end
            - over_range.start,
{
    if max_num == 0 {
        return Vec::new();
    }
    let start: i32 = over_range.start;
    let whole: i64 = over_range.end as i64 - over_range.start as i64;
    let min: i64 = min_size as i64;
    let mut distances: Vec<i64> = Vec::new();
    distances.push(whole);
    assert(distances@ =~= Seq::<i64>::empty().push(whole));
    proof {
        lemma_total_push(Seq::<i64>::empty(), whole);
    }
    let mut made: usize = 0;
    let mut full: bool = false;
    while made < max_num && !full
        invariant
            made <= max_num,
            distances.len() == made + 1,
            total(distances@) == whole,
            whole == over_range.end - over_range.start,
            min == min_size,
            made >= 1 ==> forall|i: int|
                0 <= i < distances.len() ==> min <= #[trigger] distances[i] <= whole,
            full ==> forall|i: int| 0 <= i < distances.len() ==> #[trigger] distances[i] < 2 * min,
        decreases max_num - made + (if full { 0int } else { 1int }),
    {
        let current_max_pos: usize = largest(&distances);
        let to_cut: i64 = distances[current_max_pos];
        let ghost before: Seq<i64> = distances@;
        proof {
            lemma_total_remove(before, current_max_pos as int);
        }
        if to_cut < min * 2 {
            let kept: i64 = distances.remove(current_max_pos);
            distances.push(kept);
            proof {
                lemma_total_push(before.remove(current_max_pos as int), kept);
            }
            full = true;
        } else {
            let cut_at: i64 = gen_range(rng, min, to_cut - min);
            cut(&mut distances, current_max_pos, cut_at);
            proof {
                let removed: Seq<i64> = before.remove(current_max_pos as int);
                lemma_total_push(removed, cut_at);
                lemma_total_push(removed.push(cut_at), (to_cut - cut_at) as i64);
                if made == 0 {
                    assert(before.len() == 1);
                    assert(before[0] == to_cut);
                    assert(removed =~= Seq::<i64>::empty());
                    assert(total(removed) == 0);
                }
            }
            made = made + 1;
        }
    }
    let ghost cuts: Seq<i64> = distances@;
    shuffle(rng, &mut distances);
    proof {
        let parts: Seq<i64> = distances@;
        cuts.to_multiset_ensures();
        parts.to_multiset_ensures();
        lemma_total_of_shuffled(cuts, parts);
        assert forall|i: int| 0 <= i < parts.len() implies cuts.contains(#[trigger] parts[i]) by {
            assert(parts.contains(parts[i]));
            assert(parts.to_multiset().count(parts[i]) > 0);
        }
        assert forall|k: int| 1 <= k < parts.len() implies 0 <= #[trigger] total(parts.take(k))
            <= whole by {
            lemma_total_split(parts, k);
            lemma_total_not_negative(parts.take(k));
            lemma_total_not_negative(parts.skip(k));
        }
        if parts.len() >= 2 {
            lemma_total_at_least(parts, min as int);
        }
    }
    let placements: Vec<i32> = placements_of(&distances, start);
    proof {
        let parts: Seq<i64> = distances@;
        assert forall|i: int| 0 <= i <= placements.len() implies #[trigger] gap(
            placements@,
            over_range.start as int,
            over_range.end as int,
            i,
        ) == parts[i] by {
            lemma_gaps_are_lengths(
                parts,
                placements@,
                over_range.start as int,
                over_range.end as int,
                i,
            );
        }
        assert forall|i: int| 0 <= i < placements.len() implies over_range.start
            <= #[trigger] placements[i] <= over_range.end by {
            assert(placements[i] == start + total(parts.take(i + 1)));
        }
    }
    placements
}

/// A hurdle at `x`, gone with the level.
pub open spec fn hurdle_entity(x: i32) -> LevelEntity {
    LevelEntity {
        despawn_with_level: Some(DespawnWithLevel),
        hurdle: Some(Hurdle),
        ..LevelEntity::bare(x)
    }
}

/// The number of hurdles that a track of `allowed_width` is given, one for
/// each whole `hurdle_spacing` of it. With no spacing at all there is no end
/// to them but the greatest number.
pub open spec fn hurdle_count(allowed_width: int, hurdle_spacing: int) -> int {
    if allowed_width <= 0 {
        0
    } else if hurdle_spacing == 0 {
        usize::MAX as int
    } else {
        allowed_width / hurdle_spacing
    }
}

/// Puts a hurdle into the level at each of `placements`. The hurdles take
/// the next handles of the level, in the order of the placements.
pub fn spawn_hurdles(level: &mut Level, placements: &Vec<i32>)
    ensures
        final(level)@.len() == old(level)@.len() + placements.len(),
        forall|i: int| 0 <= i < old(level)@.len() ==> #[trigger] final(level)@[i] == old(level)@[i],
        forall|i: int|
            0 <= i < placements.len() ==> #[trigger] final(level)@[old(level)@.len() + i] == Some(
                hurdle_entity(placements[i]),
            ),
{
    let ghost before: Seq<Option<LevelEntity>> = level@;
    let mut i: usize = 0;
    while i < placements.len()
        invariant
            i <= placements.len(),
            level@.len() == before.len() + i,
            forall|j: int| 0 <= j < before.len() ==> #[trigger] level@[j] == before[j],
            forall|j: int|
                0 <= j < i ==> #[trigger] level@[before.len() + j] == Some(
                    hurdle_entity(placements[j]),
                ),
        decreases placements.len() - i,
    {
        let mut hurdle: LevelEntity = LevelEntity::at(placements[i]);
        hurdle.despawn_with_level = Some(DespawnWithLevel);
        hurdle.hurdle = Some(Hurdle);
        level.spawn(hurdle);
        i = i + 1;
    }
}

/// Puts the hurdles of a level on the track: at random between
/// `before_first` and the right end of the track, none nearer than
/// `hurdle_spacing` to another or to either end of that stretch. Returns
/// where they stand; the hurdles take the next handles of the level, in the
/// same order.
pub fn add_hurdles(
    level: &mut Level,
    boundaries: &GameBoundaries,
    before_first: i32,
    hurdle_spacing: u32,
    rng: &mut StdRng,
) -> (placements: Vec<i32>)
    ensures
        placements.len() <= hurdle_count(boundaries.right - before_first, hurdle_spacing as int),
        forall|i: int|
            0 <= i < placements.len() ==> before_first <= #[trigger] placements[i]
                <= boundaries.right,
        placements.len() >= 1 ==> forall|i: int|
            0 <= i <= placements.len() ==> #[trigger] gap(
                placements@,
                before_first as int,
                boundaries.right as int,
                i,
            ) >= hurdle_spacing,
        placements.len() < hurdle_count(boundaries.right - before_first, hurdle_spacing as int)
            ==> forall|i: int|
            0 <= i <= placements.len() ==> #[trigger] gap(
                placements@,
                before_first as int,
                boundaries.right as int,
                i,
            ) < 2 * hurdle_spacing,
        placements.len() >= 1 ==> (placements.len() + 1) * hurdle_spacing <= boundaries.right
            - before_first,
        final(level)@.len() == old(level)@.len() + placements.len(),
        forall|i: int| 0 <= i < old(level)@.len() ==> #[trigger] final(level)@[i] == old(level)@[i],
        forall|i: int|
            0 <= i < placements.len() ==> #[trigger] final(level)@[old(level)@.len() + i] == Some(
                hurdle_entity(placements[i]),
            ),
{
    let allowed_width: i64 = boundaries.right as i64 - before_first as i64;
    let max_num: usize = if allowed_width <= 0 {
        0
    } else if hurdle_spacing == 0 {
        usize::MAX
    } else {
        let spacing: i64 = hurdle_spacing as i64;
        assert(0 <= allowed_width / spacing <= allowed_width) by (nonlinear_arith)
            requires
                allowed_width > 0,
                spacing > 0,
        ;
        (allowed_width / spacing) as usize
    };
    assert(max_num == hurdle_count(boundaries.right - before_first, hurdle_spacing as int));
    let over_range: Range<i32> = before_first..boundaries.right;
    assert(over_range.start == before_first && over_range.end == boundaries.right);
    let placements: Vec<i32> = distribute_distances(rng, max_num, over_range, hurdle_spacing);
    spawn_hurdles(level, &placements);
    placements
}

/// Ends the race with a disqualification if one of `events` says that the
/// player has begun to touch a hurdle. Outside a running race nothing
/// happens.
pub fn detect_hurdle_touch(events: &Vec<ContactEvent>, level: &Level, session: &mut Session)
    ensures
        final(session).current() == if old(session).current() == AppState::Game && touches(
            level@,
            events@,
            Marker::Hurdle,
            Marker::Player,
        ) {
            AppState::Menu(MenuState::GameOver)
        } else {
            old(session).current()
        },
        final(session).outcome() == if old(session).current() == AppState::Game && touches(
            level@,
            events@,
            Marker::Hurdle,
            Marker::Player,
        ) {
            Some(GameOver::Disqualified)
        } else {
            old(session).outcome()
        },
        old(session).outcome() is Some ==> *final(session) == *old(session),
{
    if any_touch(events, level, Marker::Hurdle, Marker::Player) {
        session.end_race(GameOver::Disqualified);
    }
}

} // verus!
