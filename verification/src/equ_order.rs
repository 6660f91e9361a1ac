//! The constants of `equ` may be declared in any order: the table that
//! they resolve to does not depend on the order of their declarations.
//!
//! The proof looks at declarations apart from the places at which they
//! stand. Where the declarations resolve, each of them can be bound in
//! turn, in the order in which the rounds bound them. Whatever the order
//! of the declarations is, as long as some are pending, the first in
//! that turn that is still pending has all that it needs, so every
//! round binds one at least, and the rounds end with the same table.
//!
//! An `equ` takes up no bytes, so the image does not depend on where
//! the `equ`s stand among the other instructions either.

use crate::assembly::{
    all_equs, assembled, emit_instructions, emit_regions, equ_expr, equ_name, equ_round, equ_walk,
    resized, resolve, size_factor,
};
use crate::ast::{Expr, ExprRunError, Instruction};
use crate::encoder::WriteError;
use crate::rom_builder::{
    end_of, first_used_twice, first_without_length, labels_of, layout, BuildError, Data,
    DataHolder, RomBuilder,
};
use vstd::prelude::*;
use vstd::seq_lib::{lemma_multiset_commutative, to_multiset_build, to_multiset_contains};

verus! {

/// What an `equ` declares: a name, and the expression that gives the
/// value of the name.
pub type Declaration = (Seq<char>, Expr);

/// What the `equ` at a place declares.
pub open spec fn declaration(regions: Seq<DataHolder>, at: (usize, usize)) -> Declaration {
    (equ_name(regions, at)@, equ_expr(regions, at))
}

/// What the `equ`s at the places declare, in the order of the places.
pub open spec fn declarations(regions: Seq<DataHolder>, places: Seq<(usize, usize)>) -> Seq<
    Declaration,
> {
    Seq::new(places.len(), |i: int| declaration(regions, places[i]))
}

/// Whether every name that `small` binds is bound to the same value in
/// `large`.
pub open spec fn within(small: Map<Seq<char>, i64>, large: Map<Seq<char>, i64>) -> bool {
    forall|name: Seq<char>| #[trigger]
        small.contains_key(name) ==> large.contains_key(name) && large[name] == small[name]
}

/// An expression that has a value keeps it when more names are bound.
/// An expression that has a value has the same value when fewer names
/// are bound, or lacks an identifier then.
pub proof fn lemma_value_within(
    expr: Expr,
    small: Map<Seq<char>, i64>,
    large: Map<Seq<char>, i64>,
)
    requires
        within(small, large),
    ensures
        expr.value(small) is Ok ==> expr.value(large) == expr.value(small),
        expr.value(large) is Ok ==> expr.value(small) == expr.value(large) || (expr.value(
            small,
        ) matches Err(ExprRunError::MissingIdentifier(_))),
    decreases expr,
{
    match expr {
        Expr::Binary(binary) => {
            lemma_value_within(binary.left, small, large);
            lemma_value_within(binary.right, small, large);
        },
        Expr::Unary(unary) => {
            lemma_value_within(unary.expr, small, large);
        },
        _ => {},
    }
}

/// One round over the first `count` of the pending declarations: the
/// table and the declarations that are kept for the next round, or
/// `None` where the round ends in an error.
pub open spec fn round(pending: Seq<Declaration>, count: int, symbols: Map<Seq<char>, i64>) -> Option<
    (Map<Seq<char>, i64>, Seq<Declaration>),
>
    decreases count,
{
    if count <= 0 {
        Some((symbols, Seq::empty()))
    } else {
        match round(pending, count - 1, symbols) {
            None => None,
            Some((table, kept)) => match pending[count - 1].1.value(table) {
                Ok(value) => if table.contains_key(pending[count - 1].0) {
                    None
                } else {
                    Some((table.insert(pending[count - 1].0, value), kept))
                },
                Err(ExprRunError::MissingIdentifier(_)) => Some(
                    (table, kept.push(pending[count - 1])),
                ),
                Err(_) => None,
            },
        }
    }
}

/// The table after the pending declarations are resolved, or `None`
/// where they cannot be resolved.
pub open spec fn settled(pending: Seq<Declaration>, symbols: Map<Seq<char>, i64>) -> Option<
    Map<Seq<char>, i64>,
>
    decreases pending.len(),
{
    if pending.len() == 0 {
        Some(symbols)
    } else {
        match round(pending, pending.len() as int, symbols) {
            None => None,
            Some((table, kept)) => if kept.len() < pending.len() {
                settled(kept, table)
            } else {
                None
            },
        }
    }
}

/// A round over `equ`s at their places is a round over what they
/// declare.
pub proof fn lemma_round_of_declarations(
    regions: Seq<DataHolder>,
    pending: Seq<(usize, usize)>,
    count: int,
    symbols: Map<Seq<char>, i64>,
)
    requires
        0 <= count <= pending.len(),
    ensures
        match equ_round(regions, pending, count, symbols) {
            Ok((table, kept)) => round(declarations(regions, pending), count, symbols) == Some(
                (table, declarations(regions, kept)),
            ),
            Err(_) => round(declarations(regions, pending), count, symbols) is None,
        },
    decreases count,
{
    if count > 0 {
        lemma_round_of_declarations(regions, pending, count - 1, symbols);
        let (table, kept, fault) = equ_walk(regions, pending, count - 1, symbols);
        let at = pending[count - 1];
        assert(declarations(regions, pending)[count - 1] == declaration(regions, at));
        assert(declarations(regions, kept.push(at)) =~= declarations(regions, kept).push(
            declaration(regions, at),
        ));
    } else {
        assert(declarations(regions, Seq::<(usize, usize)>::empty()) =~= Seq::<
            Declaration,
        >::empty());
    }
}

/// Resolving `equ`s at their places is resolving what they declare.
pub proof fn lemma_resolve_of_declarations(
    regions: Seq<DataHolder>,
    pending: Seq<(usize, usize)>,
    symbols: Map<Seq<char>, i64>,
)
    ensures
        match resolve(regions, pending, symbols) {
            Ok(table) => settled(declarations(regions, pending), symbols) == Some(table),
            Err(_) => settled(declarations(regions, pending), symbols) is None,
        },
    decreases pending.len(),
{
    if pending.len() > 0 {
        lemma_round_of_declarations(regions, pending, pending.len() as int, symbols);
        match equ_round(regions, pending, pending.len() as int, symbols) {
            Ok((table, kept)) => {
                if kept.len() < pending.len() {
                    lemma_resolve_of_declarations(regions, kept, table);
                }
            },
            Err(_) => {},
        }
    }
}

/// The table after the first `count` declarations are bound in turn,
/// each with the value that it has when the ones before it are bound;
/// `None` where one of them has no value then, or its name is bound
/// already.
pub open spec fn bound_in_turn(
    order: Seq<Declaration>,
    count: int,
    symbols: Map<Seq<char>, i64>,
) -> Option<Map<Seq<char>, i64>>
    decreases count,
{
    if count <= 0 {
        Some(symbols)
    } else {
        match bound_in_turn(order, count - 1, symbols) {
            None => None,
            Some(table) => match order[count - 1].1.value(table) {
                Ok(value) => if table.contains_key(order[count - 1].0) {
                    None
                } else {
                    Some(table.insert(order[count - 1].0, value))
                },
                Err(_) => None,
            },
        }
    }
}

/// Whether one of the first `count` declarations declares `name`.
pub open spec fn named(order: Seq<Declaration>, count: int, name: Seq<char>) -> bool {
    exists|k: int| 0 <= k < count && (#[trigger] order[k]).0 == name
}

/// Whether `one` is one of the first `count` declarations.
pub open spec fn among(order: Seq<Declaration>, count: int, one: Declaration) -> bool {
    exists|k: int| 0 <= k < count && #[trigger] order[k] == one
}

/// Binding in turn looks at the declarations that it binds, and at no
/// others.
pub proof fn lemma_turn_same(
    one: Seq<Declaration>,
    other: Seq<Declaration>,
    count: int,
    symbols: Map<Seq<char>, i64>,
)
    requires
        0 <= count <= one.len(),
        count <= other.len(),
        forall|k: int| 0 <= k < count ==> one[k] == other[k],
    ensures
        bound_in_turn(one, count, symbols) == bound_in_turn(other, count, symbols),
    decreases count,
{
    if count > 0 {
        lemma_turn_same(one, other, count - 1, symbols);
    }
}

/// Binding one list of declarations in turn and then another is binding
/// the two lists in turn, one behind the other.
pub proof fn lemma_turn_joined(
    first: Seq<Declaration>,
    second: Seq<Declaration>,
    count: int,
    symbols: Map<Seq<char>, i64>,
)
    requires
        0 <= count <= second.len(),
        bound_in_turn(first, first.len() as int, symbols) is Some,
    ensures
        bound_in_turn(first + second, first.len() + count, symbols) == bound_in_turn(
            second,
            count,
            bound_in_turn(first, first.len() as int, symbols)->0,
        ),
    decreases count,
{
    if count > 0 {
        lemma_turn_joined(first, second, count - 1, symbols);
        assert((first + second)[first.len() + count - 1] == second[count - 1]);
    } else {
        lemma_turn_same(first + second, first, first.len() as int, symbols);
    }
}

/// What holds of declarations that can be bound in turn: the names that
/// were bound before stay as they were; every declaration has a name of
/// its own that was not bound before, and the name is bound to the
/// value of its expression; nothing else is bound; and every part of
/// the turn leads to a part of the table.
pub proof fn lemma_turn_facts(order: Seq<Declaration>, count: int, symbols: Map<Seq<char>, i64>)
    requires
        0 <= count <= order.len(),
        bound_in_turn(order, count, symbols) is Some,
    ensures
        ({
            let table = bound_in_turn(order, count, symbols)->0;
            &&& within(symbols, table)
            &&& forall|k: int|
                0 <= k < count ==> !symbols.contains_key((#[trigger] order[k]).0)
                    && table.contains_key(order[k].0) && order[k].1.value(table) == Ok::<
                    i64,
                    ExprRunError,
                >(table[order[k].0])
            &&& forall|i: int, j: int|
                0 <= i < j < count ==> (#[trigger] order[i]).0 != (#[trigger] order[j]).0
            &&& forall|name: Seq<char>| #[trigger]
                table.contains_key(name) ==> symbols.contains_key(name) || named(
                    order,
                    count,
                    name,
                )
            &&& forall|k: int|
                0 <= k <= count ==> (#[trigger] bound_in_turn(order, k, symbols)) is Some
                    && within(bound_in_turn(order, k, symbols)->0, table)
        }),
    decreases count,
{
    if count > 0 {
        lemma_turn_facts(order, count - 1, symbols);
        let before = bound_in_turn(order, count - 1, symbols)->0;
        let table = bound_in_turn(order, count, symbols)->0;
        let last = order[count - 1];
        assert(within(before, table));
        assert forall|k: int| 0 <= k < count implies !symbols.contains_key(
            (#[trigger] order[k]).0,
        ) && table.contains_key(order[k].0) && order[k].1.value(table) == Ok::<i64, ExprRunError>(
            table[order[k].0],
        ) by {
            lemma_value_within(order[k].1, before, table);
        }
        assert forall|name: Seq<char>| #[trigger] table.contains_key(name) implies (
        symbols.contains_key(name) || named(order, count, name)) by {
            if name == last.0 {
                assert(order[count - 1].0 == name);
            } else {
                assert(before.contains_key(name));
                if !symbols.contains_key(name) {
                    let k: int = choose|k: int|
                        0 <= k < count - 1 && (#[trigger] order[k]).0 == name;
                    assert(order[k].0 == name);
                }
            }
        }
        assert forall|k: int| 0 <= k <= count implies (#[trigger] bound_in_turn(
            order,
            k,
            symbols,
        )) is Some && within(bound_in_turn(order, k, symbols)->0, table) by {
            if k < count {
                assert(within(bound_in_turn(order, k, symbols)->0, before));
            }
        }
    }
}

/// The declarations that a round binds can be bound in turn, in the
/// order in which the round binds them, and lead to the table of the
/// round. The round binds or keeps each declaration once.
pub proof fn lemma_round_in_turn(
    pending: Seq<Declaration>,
    count: int,
    symbols: Map<Seq<char>, i64>,
) -> (bound: Seq<Declaration>)
    requires
        0 <= count <= pending.len(),
        round(pending, count, symbols) is Some,
    ensures
        round(pending, count, symbols) matches Some((table, kept)) && bound_in_turn(
            bound,
            bound.len() as int,
            symbols,
        ) == Some(table) && pending.take(count).to_multiset() =~= bound.to_multiset().add(
            kept.to_multiset(),
        ),
    decreases count,
{
    if count <= 0 {
        let bound = Seq::<Declaration>::empty();
        assert(pending.take(count) =~= bound);
        lemma_multiset_commutative(bound, bound);
        assert(bound + bound =~= bound);
        bound
    } else {
        let before = lemma_round_in_turn(pending, count - 1, symbols);
        let (table, kept) = round(pending, count - 1, symbols)->0;
        let last = pending[count - 1];
        assert(pending.take(count) =~= pending.take(count - 1).push(last));
        to_multiset_build(pending.take(count - 1), last);
        match last.1.value(table) {
            Ok(value) => {
                let bound = before.push(last);
                to_multiset_build(before, last);
                lemma_turn_same(bound, before, before.len() as int, symbols);
                bound
            },
            Err(_) => {
                to_multiset_build(kept, last);
                before
            },
        }
    }
}

/// Declarations that can be resolved can be bound in turn, in the order
/// in which the rounds bind them, and lead to the same table.
pub proof fn lemma_settled_in_turn(pending: Seq<Declaration>, symbols: Map<Seq<char>, i64>) -> (order:
    Seq<Declaration>)
    requires
        settled(pending, symbols) is Some,
    ensures
        bound_in_turn(order, order.len() as int, symbols) == settled(pending, symbols),
        order.to_multiset() =~= pending.to_multiset(),
    decreases pending.len(),
{
    if pending.len() == 0 {
        pending
    } else {
        let first = lemma_round_in_turn(pending, pending.len() as int, symbols);
        let (table, kept) = round(pending, pending.len() as int, symbols)->0;
        let rest = lemma_settled_in_turn(kept, table);
        lemma_turn_joined(first, rest, rest.len() as int, symbols);
        lemma_multiset_commutative(first, rest);
        assert(pending.take(pending.len() as int) =~= pending);
        first + rest
    }
}

/// Whether the pending declarations and the table are a state on the
/// way to `goal`, to which the declarations `order` lead from `symbols`
/// when they are bound in turn: the table is a part of `goal`, the
/// pending declarations are among `order`, they have names of their own
/// that are not bound yet, and every declaration of `order` is bound or
/// pending.
pub open spec fn on_the_way(
    pending: Seq<Declaration>,
    table: Map<Seq<char>, i64>,
    order: Seq<Declaration>,
    symbols: Map<Seq<char>, i64>,
    goal: Map<Seq<char>, i64>,
) -> bool {
    &&& bound_in_turn(order, order.len() as int, symbols) == Some(goal)
    &&& within(symbols, table)
    &&& within(table, goal)
    &&& forall|i: int|
        0 <= i < pending.len() ==> !table.contains_key((#[trigger] pending[i]).0)
            && order.contains(pending[i])
    &&& forall|i: int, j: int|
        0 <= i < j < pending.len() ==> (#[trigger] pending[i]).0 != (#[trigger] pending[j]).0
    &&& forall|k: int|
        0 <= k < order.len() ==> table.contains_key((#[trigger] order[k]).0) || pending.contains(
            order[k],
        )
}

/// What a round over the first `count` declarations gives in a state
/// that is on the way to `goal`.
pub open spec fn round_on_the_way(
    pending: Seq<Declaration>,
    count: int,
    table: Map<Seq<char>, i64>,
    goal: Map<Seq<char>, i64>,
    next: Map<Seq<char>, i64>,
    kept: Seq<Declaration>,
) -> bool {
    &&& within(table, next)
    &&& within(next, goal)
    &&& kept.len() <= count
    &&& kept.len() == count ==> next == table && forall|i: int|
        0 <= i < count ==> (#[trigger] pending[i]).1.value(table) is Err
    &&& forall|a: int|
        0 <= a < kept.len() ==> !next.contains_key((#[trigger] kept[a]).0) && among(
            pending,
            count,
            kept[a],
        )
    &&& forall|a: int, b: int|
        0 <= a < b < kept.len() ==> (#[trigger] kept[a]).0 != (#[trigger] kept[b]).0
    &&& forall|i: int|
        0 <= i < count ==> next.contains_key((#[trigger] pending[i]).0) || kept.contains(
            pending[i],
        )
    &&& forall|name: Seq<char>| #[trigger]
        next.contains_key(name) ==> table.contains_key(name) || named(pending, count, name)
}

/// In a state that is on the way, a round ends without an error, binds
/// what has a value and keeps the rest.
pub proof fn lemma_round_on_the_way(
    pending: Seq<Declaration>,
    count: int,
    table: Map<Seq<char>, i64>,
    order: Seq<Declaration>,
    symbols: Map<Seq<char>, i64>,
    goal: Map<Seq<char>, i64>,
)
    requires
        on_the_way(pending, table, order, symbols, goal),
        0 <= count <= pending.len(),
    ensures
        round(pending, count, table) matches Some((next, kept)) && round_on_the_way(
            pending,
            count,
            table,
            goal,
            next,
            kept,
        ),
    decreases count,
{
    if count > 0 {
        lemma_round_on_the_way(pending, count - 1, table, order, symbols, goal);
        let (before, held) = round(pending, count - 1, table)->0;
        let last = pending[count - 1];
        let k: int = choose|k: int| 0 <= k < order.len() && order[k] == last;
        lemma_turn_facts(order, order.len() as int, symbols);
        lemma_value_within(last.1, before, goal);
        assert(last.1.value(goal) is Ok);
        assert(!before.contains_key(last.0)) by {
            if before.contains_key(last.0) {
                let i: int = choose|i: int|
                    0 <= i < count - 1 && (#[trigger] pending[i]).0 == last.0;
                assert(pending[i].0 != pending[count - 1].0);
            }
        }
        let (next, kept) = round(pending, count, table)->0;
        assert forall|a: int| 0 <= a < kept.len() implies !next.contains_key(
            (#[trigger] kept[a]).0,
        ) && among(pending, count, kept[a]) by {
            if a < held.len() {
                let i: int = choose|i: int| 0 <= i < count - 1 && #[trigger] pending[i] == held[a];
                assert(pending[i] == kept[a]);
                assert(pending[i].0 != pending[count - 1].0);
            } else {
                assert(pending[count - 1] == kept[a]);
            }
        }
        assert forall|a: int, b: int| 0 <= a < b < kept.len() implies (#[trigger] kept[a]).0 != (
        #[trigger] kept[b]).0 by {
            if b >= held.len() {
                let i: int = choose|i: int| 0 <= i < count - 1 && #[trigger] pending[i] == held[a];
                assert(pending[i].0 != pending[count - 1].0);
            }
        }
        assert forall|i: int| 0 <= i < count implies next.contains_key((#[trigger] pending[i]).0)
            || kept.contains(pending[i]) by {
            if i < count - 1 {
                if held.contains(pending[i]) {
                    let a: int = choose|a: int| 0 <= a < held.len() && held[a] == pending[i];
                    assert(kept[a] == pending[i]);
                }
            } else if last.1.value(before) is Err {
                assert(kept[held.len() as int] == pending[i]);
            }
        }
        assert forall|name: Seq<char>| #[trigger] next.contains_key(name) implies (
        table.contains_key(name) || named(pending, count, name)) by {
            if name == last.0 {
                assert(pending[count - 1].0 == name);
            } else if !table.contains_key(name) {
                assert(before.contains_key(name));
                let i: int = choose|i: int|
                    0 <= i < count - 1 && (#[trigger] pending[i]).0 == name;
                assert(pending[i].0 == name);
            }
        }
        if kept.len() == count {
            assert(held.len() == count - 1);
            assert forall|i: int| 0 <= i < count implies (#[trigger] pending[i]).1.value(
                table,
            ) is Err by {}
        }
    }
}

/// In a state that is on the way, one of the pending declarations has
/// all that it needs: the first in the turn that is not bound yet.
pub proof fn lemma_one_is_ready(
    pending: Seq<Declaration>,
    table: Map<Seq<char>, i64>,
    order: Seq<Declaration>,
    symbols: Map<Seq<char>, i64>,
    goal: Map<Seq<char>, i64>,
    count: int,
) -> (ready: int)
    requires
        on_the_way(pending, table, order, symbols, goal),
        pending.len() > 0,
        0 <= count <= order.len(),
        forall|k: int| 0 <= k < count ==> table.contains_key((#[trigger] order[k]).0),
    ensures
        0 <= ready < pending.len(),
        pending[ready].1.value(table) is Ok,
    decreases order.len() - count,
{
    if count == order.len() {
        let k: int = choose|k: int| 0 <= k < order.len() && order[k] == pending[0];
        assert(table.contains_key(order[k].0));
        0
    } else if table.contains_key(order[count].0) {
        lemma_one_is_ready(pending, table, order, symbols, goal, count + 1)
    } else {
        let ready: int = choose|i: int| 0 <= i < pending.len() && pending[i] == order[count];
        lemma_turn_facts(order, order.len() as int, symbols);
        let part = bound_in_turn(order, count, symbols)->0;
        assert(bound_in_turn(order, count, symbols) is Some);
        assert(bound_in_turn(order, count + 1, symbols) is Some);
        lemma_turn_facts(order, count, symbols);
        assert(within(part, goal));
        assert forall|name: Seq<char>| #[trigger] part.contains_key(name) implies table.contains_key(
            name,
        ) && table[name] == part[name] by {
            if !symbols.contains_key(name) {
                let k: int = choose|k: int| 0 <= k < count && (#[trigger] order[k]).0 == name;
                assert(table.contains_key(order[k].0));
            }
            assert(goal[name] == part[name]);
            assert(goal[name] == table[name]);
        }
        lemma_value_within(order[count].1, part, table);
        ready
    }
}

/// From a state that is on the way to `goal`, the rounds end with
/// `goal`.
pub proof fn lemma_settles(
    pending: Seq<Declaration>,
    table: Map<Seq<char>, i64>,
    order: Seq<Declaration>,
    symbols: Map<Seq<char>, i64>,
    goal: Map<Seq<char>, i64>,
)
    requires
        on_the_way(pending, table, order, symbols, goal),
    ensures
        settled(pending, table) == Some(goal),
    decreases pending.len(),
{
    lemma_turn_facts(order, order.len() as int, symbols);
    if pending.len() == 0 {
        assert forall|name: Seq<char>| #[trigger] goal.contains_key(name) implies table.contains_key(
            name,
        ) by {
            if !symbols.contains_key(name) {
                let k: int = choose|k: int|
                    0 <= k < order.len() && (#[trigger] order[k]).0 == name;
                assert(table.contains_key(order[k].0) || pending.contains(order[k]));
            }
        }
        assert(table =~= goal);
    } else {
        let all = pending.len() as int;
        lemma_round_on_the_way(pending, all, table, order, symbols, goal);
        let (next, kept) = round(pending, all, table)->0;
        let ready = lemma_one_is_ready(pending, table, order, symbols, goal, 0);
        assert(pending[ready].1.value(table) is Ok);
        assert(kept.len() < all);
        assert forall|a: int| 0 <= a < kept.len() implies !next.contains_key(
            (#[trigger] kept[a]).0,
        ) && order.contains(kept[a]) by {
            let i: int = choose|i: int| 0 <= i < all && #[trigger] pending[i] == kept[a];
            assert(order.contains(pending[i]));
        }
        assert forall|k: int| 0 <= k < order.len() implies next.contains_key(
            (#[trigger] order[k]).0,
        ) || kept.contains(order[k]) by {
            if !table.contains_key(order[k].0) {
                let i: int = choose|i: int| 0 <= i < pending.len() && pending[i] == order[k];
                assert(next.contains_key(pending[i].0) || kept.contains(pending[i]));
            }
        }
        lemma_settles(kept, next, order, symbols, goal);
    }
}

/// The table that declarations resolve to does not depend on their
/// order: where declarations can be resolved, the same declarations in
/// any other order can be resolved too, and the table is the same.
pub proof fn lemma_settled_in_any_order(
    first: Seq<Declaration>,
    second: Seq<Declaration>,
    symbols: Map<Seq<char>, i64>,
)
    requires
        first.to_multiset() =~= second.to_multiset(),
        settled(first, symbols) is Some,
    ensures
        settled(second, symbols) == settled(first, symbols),
{
    let order = lemma_settled_in_turn(first, symbols);
    let goal = settled(first, symbols)->0;
    lemma_turn_facts(order, order.len() as int, symbols);
    assert(order.no_duplicates()) by {
        assert forall|i: int, j: int| 0 <= i < order.len() && 0 <= j < order.len() && i
            != j implies order[i] != order[j] by {
            if i < j {
                assert(order[i].0 != order[j].0);
            } else {
                assert(order[j].0 != order[i].0);
            }
        }
    }
    order.lemma_multiset_has_no_duplicates();
    second.lemma_multiset_has_no_duplicates_conv();
    assert forall|i: int| 0 <= i < second.len() implies !symbols.contains_key(
        (#[trigger] second[i]).0,
    ) && order.contains(second[i]) by {
        assert(second.contains(second[i]));
        to_multiset_contains(second, second[i]);
        to_multiset_contains(order, second[i]);
        let k: int = choose|k: int| 0 <= k < order.len() && order[k] == second[i];
        assert(!symbols.contains_key(order[k].0));
    }
    assert forall|i: int, j: int| 0 <= i < j < second.len() implies (#[trigger] second[i]).0 != (
    #[trigger] second[j]).0 by {
        let k: int = choose|k: int| 0 <= k < order.len() && order[k] == second[i];
        let l: int = choose|l: int| 0 <= l < order.len() && order[l] == second[j];
        assert(second[i] != second[j]);
        if k < l {
            assert(order[k].0 != order[l].0);
        } else {
            assert(order[l].0 != order[k].0);
        }
    }
    assert forall|k: int| 0 <= k < order.len() implies symbols.contains_key(
        (#[trigger] order[k]).0,
    ) || second.contains(order[k]) by {
        assert(order.contains(order[k]));
        to_multiset_contains(order, order[k]);
        to_multiset_contains(second, order[k]);
    }
    lemma_settles(second, symbols, order, symbols, goal);
}

/// The table that the `equ`s resolve to does not depend on the order in
/// which they stand: where the `equ`s at some places can be resolved,
/// `equ`s that declare the same in another order, at whatever places,
/// can be resolved too, and the table is the same.
pub proof fn lemma_resolve_in_any_order(
    regions: Seq<DataHolder>,
    pending: Seq<(usize, usize)>,
    others: Seq<DataHolder>,
    moved: Seq<(usize, usize)>,
    symbols: Map<Seq<char>, i64>,
)
    requires
        declarations(regions, pending).to_multiset() =~= declarations(others, moved).to_multiset(),
        resolve(regions, pending, symbols) is Ok,
    ensures
        resolve(others, moved, symbols) == resolve(regions, pending, symbols),
{
    lemma_resolve_of_declarations(regions, pending, symbols);
    lemma_resolve_of_declarations(others, moved, symbols);
    lemma_settled_in_any_order(
        declarations(regions, pending),
        declarations(others, moved),
        symbols,
    );
}

/// The first `count` instructions without the `equ`s among them.
pub open spec fn without_equs(instructions: Seq<Instruction>, count: int) -> Seq<Instruction>
    decreases count,
{
    if count <= 0 {
        Seq::empty()
    } else if instructions[count - 1] is Equ {
        without_equs(instructions, count - 1)
    } else {
        without_equs(instructions, count - 1).push(instructions[count - 1])
    }
}

/// Whether two regions are the same but for the `equ`s in them: they
/// stand at the same address and hold the same data, and where they
/// hold instructions, the instructions that are no `equ` are the same
/// in the same order.
pub open spec fn same_but_equs(one: DataHolder, other: DataHolder) -> bool {
    &&& one.address == other.address
    &&& match (one.data, other.data) {
        (Data::Instructions(a), Data::Instructions(b)) => without_equs(a@, a@.len() as int)
            == without_equs(b@, b@.len() as int),
        (Data::Binary(a), Data::Binary(b)) => a@ == b@,
        (Data::Header(a), Data::Header(b)) => a == b,
        (Data::DummyInterruptsAndJumps, Data::DummyInterruptsAndJumps) => true,
        _ => false,
    }
}

/// Whether two lists of regions differ in nothing but the order and the
/// places of the `equ`s: region by region they are the same but for the
/// `equ`s, and all in all they declare the same.
pub open spec fn same_but_equ_order(regions: Seq<DataHolder>, others: Seq<DataHolder>) -> bool {
    &&& regions.len() == others.len()
    &&& forall|k: int| 0 <= k < regions.len() ==> same_but_equs(#[trigger] regions[k], others[k])
    &&& declarations(regions, all_equs(regions, regions.len() as int)).to_multiset()
        =~= declarations(others, all_equs(others, others.len() as int)).to_multiset()
}

/// Emitting looks at the instructions that it emits, and at no others.
pub proof fn lemma_emit_same(
    one: Seq<Instruction>,
    other: Seq<Instruction>,
    count: int,
    rom: Seq<u8>,
    symbols: Map<Seq<char>, i64>,
)
    requires
        0 <= count <= one.len(),
        count <= other.len(),
        forall|k: int| 0 <= k < count ==> one[k] == other[k],
    ensures
        emit_instructions(one, count, rom, symbols) == emit_instructions(
            other,
            count,
            rom,
            symbols,
        ),
    decreases count,
{
    if count > 0 {
        lemma_emit_same(one, other, count - 1, rom, symbols);
    }
}

/// An `equ` takes up no bytes: instructions lead to the image to which
/// they lead without the `equ`s among them.
pub proof fn lemma_emit_without_equs(
    instructions: Seq<Instruction>,
    count: int,
    rom: Seq<u8>,
    symbols: Map<Seq<char>, i64>,
)
    requires
        0 <= count <= instructions.len(),
    ensures
        ({
            let rest = without_equs(instructions, count);
            match emit_instructions(instructions, count, rom, symbols) {
                Ok(bytes) => emit_instructions(rest, rest.len() as int, rom, symbols) == Ok::<
                    Seq<u8>,
                    (int, WriteError),
                >(bytes),
                Err(_) => emit_instructions(rest, rest.len() as int, rom, symbols) is Err,
            }
        }),
    decreases count,
{
    if count > 0 {
        lemma_emit_without_equs(instructions, count - 1, rom, symbols);
        let before = without_equs(instructions, count - 1);
        let rest = without_equs(instructions, count);
        let last = instructions[count - 1];
        if last is Equ {
            match emit_instructions(instructions, count - 1, rom, symbols) {
                Ok(bytes) => {
                    assert(last.encoding(bytes.len() as int, symbols) == Ok::<
                        Seq<u8>,
                        WriteError,
                    >(Seq::empty()));
                    assert(bytes + Seq::<u8>::empty() =~= bytes);
                },
                Err(_) => {},
            }
        } else {
            lemma_emit_same(rest, before, before.len() as int, rom, symbols);
        }
    }
}

/// Regions that are the same but for the `equ`s in them lead to the
/// same image.
pub proof fn lemma_regions_without_equs(
    regions: Seq<DataHolder>,
    others: Seq<DataHolder>,
    count: int,
    symbols: Map<Seq<char>, i64>,
    factor: u8,
)
    requires
        0 <= count <= regions.len(),
        count <= others.len(),
        forall|k: int| 0 <= k < count ==> same_but_equs(#[trigger] regions[k], others[k]),
    ensures
        match emit_regions(regions, count, symbols, factor) {
            Ok(rom) => emit_regions(others, count, symbols, factor) == Ok::<Seq<u8>, BuildError>(
                rom,
            ),
            Err(_) => emit_regions(others, count, symbols, factor) is Err,
        },
    decreases count,
{
    if count > 0 {
        lemma_regions_without_equs(regions, others, count - 1, symbols, factor);
        assert(same_but_equs(regions[count - 1], others[count - 1]));
        match (
            emit_regions(regions, count - 1, symbols, factor),
            regions[count - 1].data,
            others[count - 1].data,
        ) {
            (Ok(rom), Data::Instructions(a), Data::Instructions(b)) => {
                let padded = resized(rom, regions[count - 1].address as int);
                lemma_emit_without_equs(a@, a@.len() as int, padded, symbols);
                lemma_emit_without_equs(b@, b@.len() as int, padded, symbols);
            },
            _ => {},
        }
    }
}

/// The ROM does not depend on the order of the `equ`s. Where two lists
/// of regions differ in nothing but the order and the places of the
/// `equ`s, and the one can be assembled, the other can be assembled
/// too, from the same labels and up to the same address, and the ROM is
/// the same.
pub proof fn lemma_assembled_in_any_order(
    regions: Seq<DataHolder>,
    others: Seq<DataHolder>,
    end: u32,
    symbols: Map<Seq<char>, i64>,
)
    requires
        same_but_equ_order(regions, others),
        assembled(regions, end, symbols) is Ok,
    ensures
        assembled(others, end, symbols) == assembled(regions, end, symbols),
{
    let all = regions.len() as int;
    lemma_resolve_in_any_order(
        regions,
        all_equs(regions, all),
        others,
        all_equs(others, all),
        symbols,
    );
    let table = resolve(regions, all_equs(regions, all), symbols)->Ok_0;
    let factor = size_factor(end as int)->0;
    lemma_regions_without_equs(regions, others, all, table, factor);
}

/// The order of the `equ`s does not change what a builder compiles to.
/// Where two builders have bound the same labels, stand at the same
/// address, and hold regions that differ in nothing but the order and
/// the places of the `equ`s, either both have a ROM, and it is the same,
/// or neither has one.
pub proof fn lemma_compiled_in_any_order(one: RomBuilder, other: RomBuilder)
    requires
        one.cursor() == other.cursor(),
        one.symbols() == other.symbols(),
        same_but_equ_order(one.regions(), other.regions()),
    ensures
        one.compiled() is Ok <==> other.compiled() is Ok,
        one.compiled() is Ok ==> other.compiled() == one.compiled(),
{
    if one.compiled() is Ok {
        lemma_assembled_in_any_order(
            one.regions(),
            other.regions(),
            one.cursor(),
            one.symbols(),
        );
    }
    if other.compiled() is Ok {
        assert(same_but_equ_order(other.regions(), one.regions())) by {
            assert forall|k: int| 0 <= k < other.regions().len() implies same_but_equs(
                #[trigger] other.regions()[k],
                one.regions()[k],
            ) by {
                assert(same_but_equs(one.regions()[k], other.regions()[k]));
            }
        }
        lemma_assembled_in_any_order(
            other.regions(),
            one.regions(),
            other.cursor(),
            other.symbols(),
        );
    }
}

/// A walk over instructions looks at the instructions that it walks
/// over, and at no others.
pub proof fn lemma_walk_same(
    one: Seq<Instruction>,
    other: Seq<Instruction>,
    count: int,
    start: int,
    known: Map<Seq<char>, i64>,
)
    requires
        0 <= count <= one.len(),
        count <= other.len(),
        forall|k: int| 0 <= k < count ==> one[k] == other[k],
    ensures
        end_of(one, count, start) == end_of(other, count, start),
        labels_of(one, count, start) == labels_of(other, count, start),
        first_used_twice(one, count, known) == first_used_twice(other, count, known),
        first_without_length(one, count, start) == first_without_length(other, count, start),
    decreases count,
{
    if count > 0 {
        lemma_walk_same(one, other, count - 1, start, known);
        lemma_walk_same(one, other, count - 1, 0, known);
    }
}

/// An `equ` takes up no room and binds no label: a walk over
/// instructions ends where it ends without the `equ`s among them, with
/// the same labels, and it finds a label that is bound already, or an
/// instruction without a length, where there is one without the `equ`s.
pub proof fn lemma_walk_without_equs(
    instructions: Seq<Instruction>,
    count: int,
    start: int,
    known: Map<Seq<char>, i64>,
)
    requires
        0 <= count <= instructions.len(),
    ensures
        ({
            let rest = without_equs(instructions, count);
            let length = rest.len() as int;
            &&& end_of(instructions, count, start) == end_of(rest, length, start)
            &&& labels_of(instructions, count, start) == labels_of(rest, length, start)
            &&& first_used_twice(instructions, count, known) is None <==> first_used_twice(
                rest,
                length,
                known,
            ) is None
            &&& first_without_length(instructions, count, start) is None
                <==> first_without_length(rest, length, start) is None
        }),
    decreases count,
{
    if count > 0 {
        lemma_walk_without_equs(instructions, count - 1, start, known);
        lemma_walk_without_equs(instructions, count - 1, 0, known);
        let before = without_equs(instructions, count - 1);
        let rest = without_equs(instructions, count);
        if !(instructions[count - 1] is Equ) {
            lemma_walk_same(rest, before, before.len() as int, start, known);
            lemma_walk_same(rest, before, before.len() as int, 0, known);
        }
    }
}

/// Where the `equ`s stand among the instructions does not change how
/// the instructions are laid out: instructions that are the same but
/// for the `equ`s among them are laid out or refused together, end at
/// the same address, and bind the same labels to the same addresses.
pub proof fn lemma_layout_in_any_order(
    one: Seq<Instruction>,
    other: Seq<Instruction>,
    start: int,
    known: Map<Seq<char>, i64>,
)
    requires
        without_equs(one, one.len() as int) == without_equs(other, other.len() as int),
    ensures
        end_of(one, one.len() as int, start) == end_of(other, other.len() as int, start),
        layout(one, one.len() as int, start, known) is Ok <==> layout(
            other,
            other.len() as int,
            start,
            known,
        ) is Ok,
        layout(one, one.len() as int, start, known) is Ok ==> layout(
            other,
            other.len() as int,
            start,
            known,
        ) == layout(one, one.len() as int, start, known),
{
    lemma_walk_without_equs(one, one.len() as int, start, known);
    lemma_walk_without_equs(other, other.len() as int, start, known);
}

} // verus!
