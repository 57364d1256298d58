//! The plan of a change of level: which values are written, in what order,
//! and how far apart in time.
//!
//! A change without a duration is one write of the target. A change with a
//! duration walks from the current level to the target one unit of the device
//! at a time, and spreads those writes evenly over the duration.

use vstd::prelude::*;

verus! {

/// How many units of the device lie between `current` and `target`.
pub open spec fn distance(current: int, target: int) -> nat {
    if target >= current {
        (target - current) as nat
    } else {
        (current - target) as nat
    }
}

/// Which way `target` lies from `current`: `1` above, `-1` below, `0` at it.
pub open spec fn direction(current: int, target: int) -> int {
    if target > current {
        1
    } else if target < current {
        -1
    } else {
        0
    }
}

/// The values to write, in order, to get from `current` to `target`.
///
/// None where the two are equal; the target alone where the change is not
/// `timed`; else every level from the one next to `current` up or down to
/// `target`.
pub open spec fn steps_spec(current: int, target: int, timed: bool) -> Seq<int> {
    if target == current {
        Seq::empty()
    } else if !timed {
        seq![target]
    } else {
        Seq::new(distance(current, target), |k: int| current + direction(current, target) * (k + 1))
    }
}

/// The share of `millis` milliseconds that falls to each of `count` steps, in
/// microseconds and rounded up to a whole one, so that `count` of them are
/// never less than the whole.
pub open spec fn interval_for(millis: u64, count: nat) -> int
    recommends
        count > 0,
{
    (millis * 1000 + count - 1) / count as int
}

/// The time from one write to the next, in microseconds, for a change that is
/// to take `duration` milliseconds: the duration divided evenly among the
/// steps, and rounded up where it does not divide. There is none where no
/// duration was asked for, and none where the change is one unit or less.
pub open spec fn interval_spec(current: int, target: int, duration: Option<u64>) -> Option<int> {
    match duration {
        Some(millis) => if distance(current, target) > 1 {
            Some(interval_for(millis, distance(current, target)))
        } else {
            None
        },
        None => None,
    }
}

/// The elements of `s` as mathematical integers.
pub open spec fn as_ints(s: Seq<i32>) -> Seq<int> {
    s.map_values(|x: i32| x as int)
}

/// Computes `distance`.
pub fn distance_of(current: i32, target: i32) -> (d: u32)
    ensures
        d == distance(current as int, target as int),
{
    if target >= current {
        (target as i64 - current as i64) as u32
    } else {
        (current as i64 - target as i64) as u32
    }
}

/// Lists the values to write to get from `current` to `target`: see
/// `steps_spec`.
pub fn steps(current: i32, target: i32, timed: bool) -> (list: Vec<i32>)
    ensures
        as_ints(list@) == steps_spec(current as int, target as int, timed),
        list@.len() == steps_spec(current as int, target as int, timed).len(),
        forall|k: int|
            0 <= k < list@.len() ==> #[trigger] list@[k] == steps_spec(
                current as int,
                target as int,
                timed,
            )[k],
{
    let mut list: Vec<i32> = Vec::new();
    if target == current {
        assert(as_ints(list@) =~= steps_spec(current as int, target as int, timed));
    } else if !timed {
        list.push(target);
        assert(as_ints(list@) =~= steps_spec(current as int, target as int, timed));
    } else {
        let up: bool = target > current;
        let mut level: i32 = current;
        while level != target
            invariant
                up == (target > current),
                up ==> current <= level <= target,
                !up ==> target <= level <= current,
                list@.len() == distance(current as int, level as int),
                forall|k: int|
                    0 <= k < list@.len() ==> list@[k] == current + direction(
                        current as int,
                        target as int,
                    ) * (k + 1),
            decreases distance(level as int, target as int),
        {
            if up {
                level = level + 1;
            } else {
                level = level - 1;
            }
            list.push(level);
        }
        assert(as_ints(list@) =~= steps_spec(current as int, target as int, timed));
    }
    assert forall|k: int| 0 <= k < list@.len() implies #[trigger] list@[k] == steps_spec(
        current as int,
        target as int,
        timed,
    )[k] by {
        assert(as_ints(list@)[k] == list@[k]);
    }
    list
}

/// Computes the time from one write to the next, in microseconds: see
/// `interval_spec`.
pub fn interval(current: i32, target: i32, duration: Option<u64>) -> (each: Option<u128>)
    ensures
        match interval_spec(current as int, target as int, duration) {
            Some(micros) => each == Some(micros as u128),
            None => each is None,
        },
        each is Some ==> each->0 <= u64::MAX * 1000,
{
    match duration {
        Some(millis) => {
            let d: u32 = distance_of(current, target);
            if d > 1 {
                let span: u128 = millis as u128 * 1000;
                proof {
                    lemma_interval_bounds(millis, d as nat);
                }
                Some((span + (d as u128 - 1)) / (d as u128))
            } else {
                None
            }
        },
        None => None,
    }
}

/// The interval is the duration divided among the steps and rounded up to the
/// microsecond: that many steps of it are never less than the duration, and
/// exceed it by less than one microsecond each. It is never longer than the
/// duration itself.
pub proof fn lemma_interval_bounds(millis: u64, count: nat)
    requires
        count > 0,
    ensures
        interval_for(millis, count) * count >= millis * 1000,
        interval_for(millis, count) * count < millis * 1000 + count,
        0 <= interval_for(millis, count) <= millis * 1000,
{
    let d = count as int;
    let span = millis * 1000;
    let top = span + d - 1;
    vstd::arithmetic::div_mod::lemma_fundamental_div_mod(top, d);
    vstd::arithmetic::div_mod::lemma_mod_bound(top, d);
    let each = top / d;
    assert(each * d == d * each) by (nonlinear_arith);
    assert(each <= span) by (nonlinear_arith)
        requires
            each * d < span + d,
            d >= 1,
            span >= 0,
    ;
    assert(each >= 0) by (nonlinear_arith)
        requires
            each * d >= span,
            d >= 1,
            span >= 0,
    ;
}

/// The steps of a change with a duration, written without the direction: the
/// levels above the current one in rising order, or those below it in falling
/// order.
proof fn lemma_step_values(current: int, target: int)
    ensures
        forall|k: int|
            0 <= k < distance(current, target) ==> #[trigger] steps_spec(current, target, true)[k]
                == (if target > current {
                current + k + 1
            } else {
                current - k - 1
            }),
{
    if target > current {
        assert(direction(current, target) == 1);
    } else if target < current {
        assert(direction(current, target) == -1);
    }
}

/// A change ends at its target and does not begin with a write of the level
/// that the device is already at: the list is empty exactly where there is
/// nothing to change, its last value is the target, and none of its values
/// is the starting level.
pub proof fn lemma_steps_end_at_target(current: int, target: int, timed: bool)
    ensures
        steps_spec(current, target, timed).len() == 0 <==> target == current,
        target != current ==> steps_spec(current, target, timed).last() == target,
        target != current ==> steps_spec(current, target, timed).first() != current,
        forall|k: int|
            0 <= k < steps_spec(current, target, timed).len() ==> #[trigger] steps_spec(
                current,
                target,
                timed,
            )[k] != current,
{
    let list = steps_spec(current, target, timed);
    if target != current && timed {
        lemma_step_values(current, target);
        assert(list.last() == list[list.len() - 1]);
    }
}

/// Where the target is the current level, nothing is written, with or
/// without a duration.
pub proof fn lemma_no_change_no_steps(current: int, timed: bool)
    ensures
        steps_spec(current, current, timed) == Seq::<int>::empty(),
{
}

/// A change with a duration has one step for each unit between the current
/// level and the target. The first step is one unit from the current level,
/// and each later one is one unit from the one before, always toward the
/// target.
pub proof fn lemma_timed_steps_one_unit_apart(current: int, target: int)
    requires
        target != current,
    ensures
        steps_spec(current, target, true).len() == distance(current, target),
        steps_spec(current, target, true)[0] == current + direction(current, target),
        forall|k: int|
            1 <= k < steps_spec(current, target, true).len() ==> #[trigger] steps_spec(
                current,
                target,
                true,
            )[k] == steps_spec(current, target, true)[k - 1] + direction(current, target),
{
}

/// A change without a duration is one step, the target itself.
pub proof fn lemma_untimed_single_step(current: int, target: int)
    requires
        target != current,
    ensures
        steps_spec(current, target, false) == seq![target],
{
}

/// Every step lies between the current level and the target, so a change
/// between two levels of the device never leaves the device's range.
pub proof fn lemma_steps_stay_in_range(current: int, target: int, timed: bool, max: int)
    requires
        0 <= current <= max,
        0 <= target <= max,
    ensures
        forall|k: int|
            0 <= k < steps_spec(current, target, timed).len() ==> 0 <= #[trigger] steps_spec(
                current,
                target,
                timed,
            )[k] <= max,
{
    if target != current && timed {
        lemma_step_values(current, target);
    }
}

/// A paced change never runs ahead of its duration: the intervals of all its
/// steps together are at least the duration, and more than it by less than
/// one microsecond for each step.
pub proof fn lemma_interval_divides_duration(current: int, target: int, millis: u64)
    requires
        distance(current, target) > 1,
    ensures
        interval_spec(current, target, Some(millis)) is Some,
        interval_spec(current, target, Some(millis))->0 * distance(current, target) >= millis
            * 1000,
        interval_spec(current, target, Some(millis))->0 * distance(current, target) < millis
            * 1000 + distance(current, target),
{
    lemma_interval_bounds(millis, distance(current, target));
}

} // verus!
