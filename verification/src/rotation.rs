//! What it means to chain a list of rotations with a caller-supplied operator.

use vstd::prelude::*;
use crate::playback::Playback;
use crate::playback::TICKS_PER_SEGMENT;

verus! {

/// `result` can be reached by starting from `identity` and composing the
/// elements of `items` onto it one after another, in list order, each new
/// element as the right operand:
/// `compose(.. compose(compose(identity, items[0]), items[1]) .., items[n - 1])`.
pub open spec fn composes_to<R, C: Fn(R, R) -> R>(
    compose: C,
    identity: R,
    items: Seq<R>,
    result: R,
) -> bool
    decreases items.len(),
{
    if items.len() == 0 {
        result == identity
    } else {
        exists|prefix: R|
            composes_to(compose, identity, items.drop_last(), prefix)
                && #[trigger] call_ensures(compose, (prefix, items.last()), result)
    }
}

/// `result` is a rotation that may be shown for `sequence` in state `state`.
///
/// At rest it is the composition of the whole list. While segment `index` is
/// playing it is the interpolation, at `elapsed` ticks, from the composition
/// of the `index` steps already settled towards that composition with step
/// `index` applied on top.
pub open spec fn shows<R, C: Fn(R, R) -> R, S: Fn(R, R, u32) -> R>(
    state: Playback,
    sequence: Seq<R>,
    identity: R,
    compose: C,
    slerp: S,
    result: R,
) -> bool {
    match state {
        Playback::Idle => composes_to(compose, identity, sequence, result),
        Playback::Playing { index, elapsed } => exists|base: R, target: R|
            composes_to(compose, identity, sequence.take(index as int), base)
                && #[trigger] call_ensures(compose, (base, sequence[index as int]), target)
                && call_ensures(slerp, (base, target, elapsed), result),
    }
}

/// `compose` accepts every pair of operands that chaining the first `steps`
/// elements of `items` from `identity` hands to it.
pub open spec fn can_compose<R, C: Fn(R, R) -> R>(
    compose: C,
    identity: R,
    items: Seq<R>,
    steps: int,
) -> bool {
    forall|count: int, prefix: R|
        0 <= count < steps && #[trigger] composes_to(compose, identity, items.take(count), prefix)
            ==> call_requires(compose, (prefix, items[count]))
}

/// The operators accept every call that showing `sequence` in state `state`
/// makes: `compose` on each settled prefix and the step after it, and, while
/// playing, `slerp` on the two ends of the segment at the elapsed tick count.
pub open spec fn can_show<R, C: Fn(R, R) -> R, S: Fn(R, R, u32) -> R>(
    state: Playback,
    sequence: Seq<R>,
    identity: R,
    compose: C,
    slerp: S,
) -> bool {
    match state {
        Playback::Idle => can_compose(compose, identity, sequence, sequence.len() as int),
        Playback::Playing { index, elapsed } => {
            &&& can_compose(compose, identity, sequence, index + 1)
            &&& forall|base: R, target: R|
                composes_to(compose, identity, sequence.take(index as int), base)
                    && #[trigger] call_ensures(compose, (base, sequence[index as int]), target)
                    ==> call_requires(slerp, (base, target, elapsed))
        },
    }
}

/// Operators without preconditions of their own can show any list in any
/// well-formed state.
pub proof fn total_operators_can_show<R, C: Fn(R, R) -> R, S: Fn(R, R, u32) -> R>(
    state: Playback,
    sequence: Seq<R>,
    identity: R,
    compose: C,
    slerp: S,
)
    requires
        state.well_formed(),
        forall|a: R, b: R| call_requires(compose, (a, b)),
        forall|a: R, b: R, t: u32| t < TICKS_PER_SEGMENT ==> call_requires(slerp, (a, b, t)),
    ensures
        can_show(state, sequence, identity, compose, slerp),
{
}

/// Every result that the binary operator `op` may return is the one that
/// `f` gives for the same operands.
pub open spec fn computes<R, C: Fn(R, R) -> R>(op: C, f: spec_fn(R, R) -> R) -> bool {
    forall|a: R, b: R, r: R| call_ensures(op, (a, b), r) ==> r == f(a, b)
}

/// Every result that the interpolation operator `op` may return is the one
/// that `g` gives for the same end points and tick count.
pub open spec fn interpolates<R, S: Fn(R, R, u32) -> R>(
    op: S,
    g: spec_fn(R, R, u32) -> R,
) -> bool {
    forall|a: R, b: R, t: u32, r: R| call_ensures(op, (a, b, t), r) ==> r == g(a, b, t)
}

/// The rotation shown for `sequence` in state `state` when composition is
/// the function `f` and interpolation is the function `g`.
pub open spec fn shown<R>(
    state: Playback,
    sequence: Seq<R>,
    identity: R,
    f: spec_fn(R, R) -> R,
    g: spec_fn(R, R, u32) -> R,
) -> R {
    match state {
        Playback::Idle => sequence.fold_left(identity, f),
        Playback::Playing { index, elapsed } => {
            let base = sequence.take(index as int).fold_left(identity, f);
            g(base, f(base, sequence[index as int]), elapsed)
        },
    }
}

/// Composing one more step onto a composed prefix gives the composition of
/// the prefix that is one step longer.
pub proof fn composes_one_more<R, C: Fn(R, R) -> R>(
    compose: C,
    identity: R,
    items: Seq<R>,
    count: int,
    prefix: R,
    result: R,
)
    requires
        0 <= count < items.len(),
        composes_to(compose, identity, items.take(count), prefix),
        call_ensures(compose, (prefix, items[count]), result),
    ensures
        composes_to(compose, identity, items.take(count + 1), result),
{
    let longer = items.take(count + 1);
    assert(longer.drop_last() =~= items.take(count));
    assert(longer.last() == items[count]);
}

/// With an operator that computes `f`, the only composition of a list is its
/// left fold with `f` from the identity.
pub proof fn composition_is_fold<R, C: Fn(R, R) -> R>(
    compose: C,
    f: spec_fn(R, R) -> R,
    identity: R,
    items: Seq<R>,
    result: R,
)
    requires
        computes(compose, f),
        composes_to(compose, identity, items, result),
    ensures
        result == items.fold_left(identity, f),
    decreases items.len(),
{
    if items.len() > 0 {
        let prefix = choose|prefix: R|
            composes_to(compose, identity, items.drop_last(), prefix) && #[trigger] call_ensures(
                compose,
                (prefix, items.last()),
                result,
            );
        composition_is_fold(compose, f, identity, items.drop_last(), prefix);
    }
}

/// With operators that compute `f` and `g`, the rotation to show is a
/// function of the state and the list: it is `shown`.
pub proof fn shows_exactly<R, C: Fn(R, R) -> R, S: Fn(R, R, u32) -> R>(
    state: Playback,
    sequence: Seq<R>,
    identity: R,
    compose: C,
    slerp: S,
    f: spec_fn(R, R) -> R,
    g: spec_fn(R, R, u32) -> R,
    result: R,
)
    requires
        computes(compose, f),
        interpolates(slerp, g),
        shows(state, sequence, identity, compose, slerp, result),
    ensures
        result == shown(state, sequence, identity, f, g),
{
    match state {
        Playback::Idle => {
            composition_is_fold(compose, f, identity, sequence, result);
        },
        Playback::Playing { index, elapsed } => {
            let (base, target) = choose|base: R, target: R|
                composes_to(compose, identity, sequence.take(index as int), base)
                    && #[trigger] call_ensures(compose, (base, sequence[index as int]), target)
                    && call_ensures(slerp, (base, target, elapsed), result);
            composition_is_fold(compose, f, identity, sequence.take(index as int), base);
        },
    }
}

/// `f` is associative and `identity` is neutral for it on both sides.
pub open spec fn is_monoid<R>(f: spec_fn(R, R) -> R, identity: R) -> bool {
    &&& forall|a: R| #[trigger] f(identity, a) == a
    &&& forall|a: R| #[trigger] f(a, identity) == a
    &&& forall|a: R, b: R, c: R| #[trigger] f(f(a, b), c) == f(a, f(b, c))
}

/// Folding a list from the right onto `last` is folding it onto the identity
/// and composing `last` onto the outcome.
proof fn fold_right_splits<R>(f: spec_fn(R, R) -> R, identity: R, items: Seq<R>, last: R)
    requires
        is_monoid(f, identity),
    ensures
        items.fold_right(f, last) == f(items.fold_right(f, identity), last),
    decreases items.len(),
{
    if items.len() > 0 {
        let front = items.drop_last();
        let step = items.last();
        fold_right_splits(f, identity, front, f(step, last));
        fold_right_splits(f, identity, front, step);
        assert(f(f(front.fold_right(f, identity), step), last) == f(
            front.fold_right(f, identity),
            f(step, last),
        ));
    }
}

/// At rest, the grouping of the compositions does not matter: for an
/// associative composition with a neutral identity, chaining the steps from
/// the left, as playback does, gives the same rotation as nesting them from
/// the right, `f(q1, f(q2, .. f(qn, identity)))`.
pub proof fn rest_rotation_regroups<R>(
    sequence: Seq<R>,
    identity: R,
    f: spec_fn(R, R) -> R,
    g: spec_fn(R, R, u32) -> R,
)
    requires
        is_monoid(f, identity),
    ensures
        shown(Playback::Idle, sequence, identity, f, g) == sequence.fold_right(f, identity),
    decreases sequence.len(),
{
    if sequence.len() > 0 {
        let front = sequence.drop_last();
        rest_rotation_regroups(front, identity, f, g);
        fold_right_splits(f, identity, front, sequence.last());
    }
}

/// At rest, three steps `q1`, `q2`, `q3` show as `f(q1, f(q2, q3))` when the
/// composition is associative with a neutral identity.
pub proof fn rest_rotation_of_three<R>(
    q1: R,
    q2: R,
    q3: R,
    identity: R,
    f: spec_fn(R, R) -> R,
    g: spec_fn(R, R, u32) -> R,
)
    requires
        is_monoid(f, identity),
    ensures
        shown(Playback::Idle, seq![q1, q2, q3], identity, f, g) == f(q1, f(q2, q3)),
{
    let sequence = seq![q1, q2, q3];
    rest_rotation_regroups(sequence, identity, f, g);
    reveal_with_fuel(Seq::fold_right, 4);
    assert(sequence.drop_last() =~= seq![q1, q2]);
    assert(sequence.drop_last().drop_last() =~= seq![q1]);
    assert(sequence.drop_last().drop_last().drop_last() =~= Seq::<R>::empty());
}

/// Segments join without a jump: when interpolation at tick zero gives its
/// first end point, the rotation shown as segment `index` begins is the
/// composition of the `index` steps before it, which is where the segment
/// before it was heading.
pub proof fn segment_begins_settled<R>(
    index: usize,
    sequence: Seq<R>,
    identity: R,
    f: spec_fn(R, R) -> R,
    g: spec_fn(R, R, u32) -> R,
)
    requires
        forall|a: R, b: R| #[trigger] g(a, b, 0) == a,
    ensures
        shown(Playback::Playing { index, elapsed: 0 }, sequence, identity, f, g)
            == sequence.take(index as int).fold_left(identity, f),
        0 < index <= sequence.len() ==> shown(
            Playback::Playing { index, elapsed: 0 },
            sequence,
            identity,
            f,
            g,
        ) == f(
            sequence.take(index - 1).fold_left(identity, f),
            sequence[index - 1],
        ),
{
    if 0 < index <= sequence.len() {
        let settled = sequence.take(index as int);
        assert(settled.drop_last() =~= sequence.take(index - 1));
        assert(settled.last() == sequence[index - 1]);
    }
}

/// What is shown `ticks` ticks after playback was started: while segments
/// are left, the interpolation within segment `ticks / TICKS_PER_SEGMENT` at
/// tick `ticks % TICKS_PER_SEGMENT`, and from then on the composition of the
/// whole list.
pub proof fn shown_after_start<R>(
    sequence: Seq<R>,
    identity: R,
    f: spec_fn(R, R) -> R,
    g: spec_fn(R, R, u32) -> R,
    ticks: nat,
)
    requires
        sequence.len() <= usize::MAX,
    ensures
        shown(
            Playback::started(sequence.len()).after_ticks(sequence.len(), ticks),
            sequence,
            identity,
            f,
            g,
        ) == (if ticks < TICKS_PER_SEGMENT * Playback::segments(sequence.len()) {
            let index = ticks as int / TICKS_PER_SEGMENT as int;
            let base = sequence.take(index).fold_left(identity, f);
            g(base, f(base, sequence[index]), (ticks as int % TICKS_PER_SEGMENT as int) as u32)
        } else {
            sequence.fold_left(identity, f)
        }),
{
    Playback::ticks_from_start(sequence.len(), ticks);
}

} // verus!
