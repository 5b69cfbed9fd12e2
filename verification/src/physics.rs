//! The shape of the track: how a path is mirrored into a closed loop, and how a
//! player's path around a bend is put together.

use vstd::prelude::*;

verus! {

/// Determines the stadium path from a player path: the path, followed by the same
/// points in reverse order with each one reflected, so that the second half runs
/// back along the mirror image of the first.
pub fn determine_track_points<P: Copy, F: Fn(P) -> P>(path: Vec<P>, reflect: F) -> (points: Vec<P>)
    requires
        forall|i: int| 0 <= i < path.len() ==> call_requires(reflect, (#[trigger] path@[i],)),
    ensures
        points.len() == 2 * path.len(),
        forall|i: int| 0 <= i < path.len() ==> #[trigger] points@[i] == path@[i],
        forall|i: int|
            0 <= i < path.len() ==> call_ensures(
                reflect,
                (#[trigger] path@[i],),
                points@[2 * path.len() - 1 - i],
            ),
{
    let n: usize = path.len();
    let mut points: Vec<P> = Vec::new();
    let mut i: usize = 0;
    while i < n
        invariant
            n == path.len(),
            i <= n,
            points.len() == i,
            forall|k: int| 0 <= k < i ==> #[trigger] points@[k] == path@[k],
        decreases n - i,
    {
        points.push(path[i]);
        i = i + 1;
    }
    let mut j: usize = n;
    while j > 0
        invariant
            n == path.len(),
            j <= n,
            points.len() == 2 * n - j,
            forall|k: int| 0 <= k < n ==> call_requires(reflect, (#[trigger] path@[k],)),
            forall|k: int| 0 <= k < n ==> #[trigger] points@[k] == path@[k],
            forall|k: int|
                j <= k < n ==> call_ensures(reflect, (#[trigger] path@[k],), points@[2 * n - 1 - k]),
        decreases j,
    {
        j = j - 1;
        let reflected = reflect(path[j]);
        points.push(reflected);
    }
    points
}

/// The number of points a bend walk takes: one for each of 2, 4, 6, ... below
/// `bend_sections` (the steps of `(2..bend_sections).step_by(2)`, counted from `from`).
pub open spec fn bend_steps_from(from: int, bend_sections: int) -> nat
    decreases bend_sections - from,
{
    if from >= bend_sections {
        0
    } else if from + 2 >= bend_sections {
        1
    } else {
        1 + bend_steps_from(from + 2, bend_sections)
    }
}

/// How many points the walk along the first half of a bend places: the walk starts
/// at 2 to avoid backtracking and moves two sections at a time, stopping before
/// `bend_sections`.
pub fn bend_step_count(bend_sections: u32) -> (steps: u32)
    ensures
        steps == bend_steps_from(2, bend_sections as int),
{
    let mut steps: u32 = 0;
    let mut k: u64 = 2;
    while k < bend_sections as u64
        invariant
            2 <= k <= bend_sections as u64 + 2,
            k % 2 == 0,
            steps == (k - 2) / 2,
            bend_steps_from(2, bend_sections as int) == steps + bend_steps_from(
                k as int,
                bend_sections as int,
            ),
        decreases bend_sections as u64 + 2 - k,
    {
        steps = steps + 1;
        k = k + 2;
    }
    steps
}

/// A bend is drawn symmetric only when it has an even number of sections, and
/// needs more than two.
pub open spec fn spec_valid_bend_sections(bend_sections: u32) -> bool {
    bend_sections % 2 == 0 && bend_sections > 2
}

/// Whether a stadium can be drawn with this many sections per bend.
pub fn valid_bend_sections(bend_sections: u32) -> (valid: bool)
    ensures
        valid == spec_valid_bend_sections(bend_sections),
        valid == (bend_sections % 2 == 0 && bend_sections > 2),
{
    bend_sections % 2 == 0 && bend_sections > 2
}

/// A stadium can be drawn with exactly the even numbers of bend sections above
/// two: every such count is accepted, and no other.
pub proof fn lemma_valid_bend_sections_are_even_counts_above_two(bend_sections: u32)
    ensures
        spec_valid_bend_sections(bend_sections) <==> (bend_sections % 2 == 0 && bend_sections > 2),
        spec_valid_bend_sections(bend_sections) ==> spec_valid_bend_sections((bend_sections - 2) as u32)
            || bend_sections == 4,
        bend_sections < u32::MAX - 1 && spec_valid_bend_sections(bend_sections) ==> spec_valid_bend_sections(
            (bend_sections + 2) as u32,
        ),
{
}

/// Determines a player's path along the stadium tracks: the staggered start, the
/// point where the left bend begins, the points of the first half of the bend, the
/// same points mirrored to finish the bend, and lastly the end point.
pub fn determine_player_path<P: Copy, F: Fn(P) -> P>(
    start: P,
    bend_start: P,
    bend_points: Vec<P>,
    end: P,
    reflect: F,
) -> (points: Vec<P>)
    requires
        forall|i: int|
            0 <= i < bend_points.len() ==> call_requires(reflect, (#[trigger] bend_points@[i],)),
        bend_points.len() * 2 + 3 <= usize::MAX,
    ensures
        points.len() == 2 * bend_points.len() + 3,
        points@[0] == start,
        points@[1] == bend_start,
        forall|i: int| 0 <= i < bend_points.len() ==> #[trigger] points@[i + 2] == bend_points@[i],
        forall|i: int|
            0 <= i < bend_points.len() ==> call_ensures(
                reflect,
                (#[trigger] bend_points@[i],),
                points@[2 * bend_points.len() + 1 - i],
            ),
        points@[points.len() - 1] == end,
{
    let n: usize = bend_points.len();
    let bend = determine_track_points(bend_points, reflect);
    let mut points: Vec<P> = Vec::new();
    points.push(start);
    points.push(bend_start);
    let mut i: usize = 0;
    while i < bend.len()
        invariant
            bend.len() == 2 * n,
            i <= bend.len(),
            points.len() == i + 2,
            points@[0] == start,
            points@[1] == bend_start,
            forall|k: int| 0 <= k < i ==> #[trigger] points@[k + 2] == bend@[k],
        decreases bend.len() - i,
    {
        points.push(bend[i]);
        i = i + 1;
    }
    points.push(end);
    assert forall|i: int| 0 <= i < n implies call_ensures(
        reflect,
        (#[trigger] bend_points@[i],),
        points@[2 * n + 1 - i],
    ) by {
        assert(points@[(2 * n - 1 - i) + 2] == bend@[2 * n - 1 - i]);
    }
    points
}

/// For a valid number of bend sections, the walk places `bend_sections / 2 - 1`
/// points, so a player's path has one point per bend section and one more.
pub proof fn lemma_player_path_length(bend_sections: u32)
    requires
        spec_valid_bend_sections(bend_sections),
    ensures
        2 * bend_steps_from(2, bend_sections as int) + 3 == bend_sections + 1,
{
    lemma_bend_steps_even(2, bend_sections as int);
}

/// From an even start below an even bound, the walk takes half the distance.
proof fn lemma_bend_steps_even(from: int, bend_sections: int)
    requires
        from % 2 == 0,
        bend_sections % 2 == 0,
        from <= bend_sections,
    ensures
        bend_steps_from(from, bend_sections) == (bend_sections - from) / 2,
    decreases bend_sections - from,
{
    if from < bend_sections {
        lemma_bend_steps_even(from + 2, bend_sections);
    }
}

} // verus!
