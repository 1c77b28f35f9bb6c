//! Calories of a food: a basic food has them stored, a composite food gets
//! them from its components.
//!
//! Resolution walks the components depth first and carries the set of
//! composite foods that are being resolved. Meeting one of them again means
//! that a food contains itself, and the resolution fails.

use vstd::prelude::*;
use crate::amount::{add_amounts, lemma_saturate_absorbs, portion, portion_calories, saturate};
use crate::database::{Database, DatabaseView};
use crate::models::{component_views, CompositeFood, FoodComponentView};
use crate::table::{find_key, lemma_table_entry, lemma_table_finite, Keyed};

verus! {

/// Why a food has no calorie value.
#[derive(Debug, Clone, Copy, PartialEq, Eq, Structural)]
pub enum FoodError {
    /// The identifier names neither a basic nor a composite food.
    FoodNotFound,
    /// A composite food contains itself, directly or through other foods.
    CyclicReference,
}

impl DatabaseView {
    /// The composite foods that are not on `path`.
    pub open spec fn off_path(self, path: Set<Seq<char>>) -> Set<Seq<char>> {
        self.composite_foods.dom().difference(path)
    }

    /// The calories of one serving of `food_id` while the composite foods of
    /// `path` are being resolved.
    pub open spec fn calories_along(self, food_id: Seq<char>, path: Set<Seq<char>>) -> Result<
        u64,
        FoodError,
    >
        decreases self.off_path(path).len(), 0nat, 0nat,
        when self.composite_foods.dom().finite()
    {
        if self.basic_foods.contains_key(food_id) {
            Ok(self.basic_foods[food_id].calories_per_serving)
        } else if self.composite_foods.contains_key(food_id) {
            if path.contains(food_id) {
                Err(FoodError::CyclicReference)
            } else {
                let components = self.composite_foods[food_id].components;
                proof {
                    assert(self.off_path(path.insert(food_id)) =~= self.off_path(path).remove(
                        food_id,
                    ));
                }
                match self.components_total(components, path.insert(food_id), components.len()) {
                    Ok(total) => Ok(saturate(total) as u64),
                    Err(e) => Err(e),
                }
            }
        } else {
            Err(FoodError::FoodNotFound)
        }
    }

    /// The exact sum of the portions of the first `count` components, while
    /// the composite foods of `path` are being resolved. A component that
    /// names no food adds nothing; one that contains itself fails the sum.
    pub open spec fn components_total(
        self,
        components: Seq<FoodComponentView>,
        path: Set<Seq<char>>,
        count: nat,
    ) -> Result<nat, FoodError>
        decreases self.off_path(path).len(), 1nat, count,
        when self.composite_foods.dom().finite()
    {
        if count == 0 || count > components.len() {
            Ok(0)
        } else {
            let component = components[count - 1];
            match self.components_total(components, path, (count - 1) as nat) {
                Err(e) => Err(e),
                Ok(total) => match self.calories_along(component.food_id, path) {
                    Ok(calories) => Ok(total + portion(calories as nat, component.servings as nat)),
                    Err(FoodError::FoodNotFound) => Ok(total),
                    Err(FoodError::CyclicReference) => Err(FoodError::CyclicReference),
                },
            }
        }
    }

    /// The calories of one serving of `food_id`.
    pub open spec fn calories_of(self, food_id: Seq<char>) -> Result<u64, FoodError> {
        self.calories_along(food_id, Set::empty())
    }

    /// The calories that a component adds to its composite food: its
    /// portion of what its food resolves to, and nothing where that food
    /// has no calorie value.
    pub open spec fn component_calories(self, component: FoodComponentView) -> nat {
        match self.calories_of(component.food_id) {
            Ok(calories) => portion(calories as nat, component.servings as nat),
            Err(_) => 0,
        }
    }

    /// The exact sum of what the first `count` components add.
    pub open spec fn portions_sum(self, components: Seq<FoodComponentView>, count: nat) -> nat
        decreases count,
    {
        if count == 0 || count > components.len() {
            0
        } else {
            self.portions_sum(components, (count - 1) as nat) + self.component_calories(
                components[count - 1],
            )
        }
    }

    /// Some component names a food that contains itself.
    pub open spec fn has_cyclic_component(self, components: Seq<FoodComponentView>) -> bool {
        exists|i: int|
            0 <= i < components.len() && self.calories_of(#[trigger] components[i].food_id)
                == Err::<u64, FoodError>(FoodError::CyclicReference)
    }
}

/// A sum of components fails only for a food that contains itself.
pub proof fn lemma_failure_is_cycle(
    db: DatabaseView,
    components: Seq<FoodComponentView>,
    path: Set<Seq<char>>,
    count: nat,
)
    requires
        db.composite_foods.dom().finite(),
        db.components_total(components, path, count) is Err,
    ensures
        db.components_total(components, path, count) == Err::<nat, FoodError>(
            FoodError::CyclicReference,
        ),
    decreases count,
{
    if count > 0 && count <= components.len() {
        if db.components_total(components, path, (count - 1) as nat) is Err {
            lemma_failure_is_cycle(db, components, path, (count - 1) as nat);
        }
    }
}

/// Once a prefix of the components fails, every longer prefix fails too.
pub proof fn lemma_failure_stays(
    db: DatabaseView,
    components: Seq<FoodComponentView>,
    path: Set<Seq<char>>,
    failed: nat,
    count: nat,
)
    requires
        db.composite_foods.dom().finite(),
        failed <= count <= components.len(),
        db.components_total(components, path, failed) is Err,
    ensures
        db.components_total(components, path, count) == Err::<nat, FoodError>(
            FoodError::CyclicReference,
        ),
    decreases count,
{
    if count > failed {
        lemma_failure_stays(db, components, path, failed, (count - 1) as nat);
    } else {
        lemma_failure_is_cycle(db, components, path, failed);
    }
}

/// The food `outer` is a composite food that lists `inner` among its
/// components. A basic food of the same identifier takes precedence, so
/// `outer` must not name one.
pub open spec fn contains_directly(db: DatabaseView, outer: Seq<char>, inner: Seq<char>) -> bool {
    &&& !db.basic_foods.contains_key(outer)
    &&& db.composite_foods.contains_key(outer)
    &&& exists|i: int|
        0 <= i < db.composite_foods[outer].components.len()
            && #[trigger] db.composite_foods[outer].components[i].food_id == inner
}

/// Each food of `chain` lists the next one among its components.
pub open spec fn is_containment_chain(db: DatabaseView, chain: Seq<Seq<char>>) -> bool {
    &&& chain.len() >= 1
    &&& forall|i: int|
        0 <= i < chain.len() - 1 ==> contains_directly(db, #[trigger] chain[i], chain[i + 1])
}

/// A basic food resolves to its stored calories.
pub proof fn lemma_basic_food_resolves(db: DatabaseView, food_id: Seq<char>)
    requires
        db.wf(),
        db.basic_foods.contains_key(food_id),
    ensures
        db.calories_of(food_id) == Ok::<u64, FoodError>(
            db.basic_foods[food_id].calories_per_serving,
        ),
{
}

/// An identifier that names no food resolves to `FoodNotFound`.
pub proof fn lemma_unknown_food_is_not_found(db: DatabaseView, food_id: Seq<char>)
    requires
        db.wf(),
        !db.basic_foods.contains_key(food_id),
        !db.composite_foods.contains_key(food_id),
    ensures
        db.calories_of(food_id) == Err::<u64, FoodError>(FoodError::FoodNotFound),
{
}

/// A component that contains itself fails the sum of every prefix that
/// reaches it.
pub proof fn lemma_cyclic_component_fails(
    db: DatabaseView,
    components: Seq<FoodComponentView>,
    path: Set<Seq<char>>,
    place: int,
)
    requires
        db.composite_foods.dom().finite(),
        0 <= place < components.len(),
        db.calories_along(components[place].food_id, path) == Err::<u64, FoodError>(
            FoodError::CyclicReference,
        ),
    ensures
        db.components_total(components, path, components.len()) == Err::<nat, FoodError>(
            FoodError::CyclicReference,
        ),
{
    let reached = (place + 1) as nat;
    if db.components_total(components, path, place as nat) is Err {
        lemma_failure_is_cycle(db, components, path, place as nat);
    }
    assert(db.components_total(components, path, reached) is Err);
    lemma_failure_stays(db, components, path, reached, components.len());
}

/// Following components from `chain.first()` to a composite food that is
/// already being resolved fails with `CyclicReference`.
pub proof fn lemma_return_to_path_fails(
    db: DatabaseView,
    chain: Seq<Seq<char>>,
    path: Set<Seq<char>>,
)
    requires
        db.wf(),
        is_containment_chain(db, chain),
        path.contains(chain.last()),
        db.composite_foods.contains_key(chain.last()),
        !db.basic_foods.contains_key(chain.last()),
    ensures
        db.calories_along(chain.first(), path) == Err::<u64, FoodError>(
            FoodError::CyclicReference,
        ),
    decreases chain.len(),
{
    let food = chain.first();
    if chain.len() >= 2 {
        assert(contains_directly(db, chain[0], chain[1]));
        if !path.contains(food) {
            let components = db.composite_foods[food].components;
            let place = choose|i: int|
                0 <= i < components.len() && #[trigger] components[i].food_id == chain[1];
            let rest = chain.drop_first();
            assert(is_containment_chain(db, rest)) by {
                assert forall|i: int| 0 <= i < rest.len() - 1 implies contains_directly(
                    db,
                    #[trigger] rest[i],
                    rest[i + 1],
                ) by {
                    assert(contains_directly(db, chain[i + 1], chain[i + 2]));
                }
            }
            lemma_return_to_path_fails(db, rest, path.insert(food));
            lemma_cyclic_component_fails(db, components, path.insert(food), place);
        }
    }
}

/// A composite food that contains itself, directly or through other foods,
/// resolves to `CyclicReference`: `chain` leads from the food back to it.
pub proof fn lemma_self_containing_food_fails(db: DatabaseView, chain: Seq<Seq<char>>)
    requires
        db.wf(),
        is_containment_chain(db, chain),
        chain.len() >= 2,
        chain.first() == chain.last(),
    ensures
        db.calories_of(chain.first()) == Err::<u64, FoodError>(FoodError::CyclicReference),
{
    let food = chain.first();
    let path = Set::<Seq<char>>::empty();
    assert(contains_directly(db, chain[0], chain[1]));
    let components = db.composite_foods[food].components;
    let place = choose|i: int|
        0 <= i < components.len() && #[trigger] components[i].food_id == chain[1];
    let rest = chain.drop_first();
    assert(is_containment_chain(db, rest)) by {
        assert forall|i: int| 0 <= i < rest.len() - 1 implies contains_directly(
            db,
            #[trigger] rest[i],
            rest[i + 1],
        ) by {
            assert(contains_directly(db, chain[i + 1], chain[i + 2]));
        }
    }
    lemma_return_to_path_fails(db, rest, path.insert(food));
    lemma_cyclic_component_fails(db, components, path.insert(food), place);
}

/// Resolving with fewer foods on the path changes no result but a
/// `CyclicReference`.
proof fn lemma_shorter_path_food(
    db: DatabaseView,
    food_id: Seq<char>,
    path: Set<Seq<char>>,
    shorter: Set<Seq<char>>,
)
    requires
        db.composite_foods.dom().finite(),
        shorter.subset_of(path),
        db.calories_along(food_id, path) != Err::<u64, FoodError>(FoodError::CyclicReference),
    ensures
        db.calories_along(food_id, shorter) == db.calories_along(food_id, path),
    decreases db.off_path(path).len(), 0nat, 0nat,
{
    if !db.basic_foods.contains_key(food_id) && db.composite_foods.contains_key(food_id) {
        let components = db.composite_foods[food_id].components;
        assert(db.off_path(path.insert(food_id)) =~= db.off_path(path).remove(food_id));
        if db.components_total(components, path.insert(food_id), components.len()) is Err {
            lemma_failure_is_cycle(db, components, path.insert(food_id), components.len());
        }
        lemma_shorter_path_total(
            db,
            components,
            path.insert(food_id),
            shorter.insert(food_id),
            components.len(),
        );
    }
}

/// The same for the sum of the first `count` components.
proof fn lemma_shorter_path_total(
    db: DatabaseView,
    components: Seq<FoodComponentView>,
    path: Set<Seq<char>>,
    shorter: Set<Seq<char>>,
    count: nat,
)
    requires
        db.composite_foods.dom().finite(),
        shorter.subset_of(path),
        db.components_total(components, path, count) is Ok,
    ensures
        db.components_total(components, shorter, count) == db.components_total(
            components,
            path,
            count,
        ),
    decreases db.off_path(path).len(), 1nat, count,
{
    if count > 0 && count <= components.len() {
        lemma_shorter_path_total(db, components, path, shorter, (count - 1) as nat);
        lemma_shorter_path_food(db, components[count - 1].food_id, path, shorter);
    }
}

/// While a component `inside` of the composite food `outer` is being
/// resolved, putting `outer` on the path as well changes no result but a
/// `CyclicReference`: a resolution that came to `outer` would come to
/// `inside` again.
proof fn lemma_longer_path_food(
    db: DatabaseView,
    outer: Seq<char>,
    inside: Seq<char>,
    food_id: Seq<char>,
    path: Set<Seq<char>>,
)
    requires
        db.composite_foods.dom().finite(),
        contains_directly(db, outer, inside),
        db.composite_foods.contains_key(inside),
        !db.basic_foods.contains_key(inside),
        path.contains(inside),
        db.calories_along(food_id, path) != Err::<u64, FoodError>(FoodError::CyclicReference),
    ensures
        db.calories_along(food_id, path.insert(outer)) == db.calories_along(food_id, path),
    decreases db.off_path(path).len(), 0nat, 0nat,
{
    if path.contains(outer) {
        assert(path.insert(outer) =~= path);
    } else if !db.basic_foods.contains_key(food_id) && db.composite_foods.contains_key(food_id) {
        let components = db.composite_foods[food_id].components;
        assert(db.off_path(path.insert(food_id)) =~= db.off_path(path).remove(food_id));
        if food_id == outer {
            let place = choose|i: int|
                0 <= i < components.len() && #[trigger] components[i].food_id == inside;
            lemma_cyclic_component_fails(db, components, path.insert(food_id), place);
        } else {
            assert(path.insert(outer).insert(food_id) =~= path.insert(food_id).insert(outer));
            if db.components_total(components, path.insert(food_id), components.len()) is Err {
                lemma_failure_is_cycle(db, components, path.insert(food_id), components.len());
            }
            lemma_longer_path_total(
                db,
                outer,
                inside,
                components,
                path.insert(food_id),
                components.len(),
            );
        }
    }
}

/// The same for the sum of the first `count` components.
proof fn lemma_longer_path_total(
    db: DatabaseView,
    outer: Seq<char>,
    inside: Seq<char>,
    components: Seq<FoodComponentView>,
    path: Set<Seq<char>>,
    count: nat,
)
    requires
        db.composite_foods.dom().finite(),
        contains_directly(db, outer, inside),
        db.composite_foods.contains_key(inside),
        !db.basic_foods.contains_key(inside),
        path.contains(inside),
        db.components_total(components, path, count) is Ok,
    ensures
        db.components_total(components, path.insert(outer), count) == db.components_total(
            components,
            path,
            count,
        ),
    decreases db.off_path(path).len(), 1nat, count,
{
    if count > 0 && count <= components.len() {
        lemma_longer_path_total(db, outer, inside, components, path, (count - 1) as nat);
        lemma_longer_path_food(db, outer, inside, components[count - 1].food_id, path);
    }
}

/// Inside a composite food, a component that resolves on its own resolves
/// to the same value.
proof fn lemma_component_inside(db: DatabaseView, outer: Seq<char>, place: int)
    requires
        db.wf(),
        db.composite_foods.contains_key(outer),
        !db.basic_foods.contains_key(outer),
        0 <= place < db.composite_foods[outer].components.len(),
        db.calories_of(db.composite_foods[outer].components[place].food_id) != Err::<
            u64,
            FoodError,
        >(FoodError::CyclicReference),
    ensures
        db.calories_along(
            db.composite_foods[outer].components[place].food_id,
            Set::<Seq<char>>::empty().insert(outer),
        ) == db.calories_of(db.composite_foods[outer].components[place].food_id),
{
    let components = db.composite_foods[outer].components;
    let inside = components[place].food_id;
    let nothing = Set::<Seq<char>>::empty();
    if !db.basic_foods.contains_key(inside) && db.composite_foods.contains_key(inside) {
        assert(contains_directly(db, outer, inside));
        if inside == outer {
            assert(db.calories_along(inside, nothing.insert(outer)) == Err::<u64, FoodError>(
                FoodError::CyclicReference,
            ));
            lemma_cyclic_component_fails(db, components, nothing.insert(outer), place);
        } else {
            let inner = db.composite_foods[inside].components;
            assert(nothing.insert(outer).insert(inside) =~= nothing.insert(inside).insert(outer));
            if db.components_total(inner, nothing.insert(inside), inner.len()) is Err {
                lemma_failure_is_cycle(db, inner, nothing.insert(inside), inner.len());
            }
            lemma_longer_path_total(db, outer, inside, inner, nothing.insert(inside), inner.len());
        }
    }
}

/// Inside a composite food none of whose first `count` components contains
/// itself, these components sum to what they add one by one.
proof fn lemma_total_is_portions_sum(db: DatabaseView, outer: Seq<char>, count: nat)
    requires
        db.wf(),
        db.composite_foods.contains_key(outer),
        !db.basic_foods.contains_key(outer),
        count <= db.composite_foods[outer].components.len(),
        !db.has_cyclic_component(db.composite_foods[outer].components),
    ensures
        db.components_total(
            db.composite_foods[outer].components,
            Set::<Seq<char>>::empty().insert(outer),
            count,
        ) == Ok::<nat, FoodError>(db.portions_sum(db.composite_foods[outer].components, count)),
    decreases count,
{
    if count > 0 {
        let components = db.composite_foods[outer].components;
        lemma_total_is_portions_sum(db, outer, (count - 1) as nat);
        assert(db.calories_of(components[count - 1].food_id) != Err::<u64, FoodError>(
            FoodError::CyclicReference,
        ));
        lemma_component_inside(db, outer, count - 1);
    }
}

/// A composite food resolves to the saturated sum of what its components
/// add, each component taken at the calories that its food resolves to:
/// in particular where every component resolves. Where a component names a
/// food that contains itself, the composite food fails as that food does.
pub proof fn lemma_composite_food_resolves(db: DatabaseView, food_id: Seq<char>)
    requires
        db.wf(),
        db.composite_foods.contains_key(food_id),
        !db.basic_foods.contains_key(food_id),
    ensures
        db.calories_of(food_id) == if db.has_cyclic_component(
            db.composite_foods[food_id].components,
        ) {
            Err::<u64, FoodError>(FoodError::CyclicReference)
        } else {
            Ok::<u64, FoodError>(
                saturate(
                    db.portions_sum(
                        db.composite_foods[food_id].components,
                        db.composite_foods[food_id].components.len(),
                    ),
                ) as u64,
            )
        },
{
    let components = db.composite_foods[food_id].components;
    let nothing = Set::<Seq<char>>::empty();
    if db.has_cyclic_component(components) {
        let place = choose|i: int|
            0 <= i < components.len() && db.calories_of(#[trigger] components[i].food_id) == Err::<
                u64,
                FoodError,
            >(FoodError::CyclicReference);
        let inside = components[place].food_id;
        if db.calories_along(inside, nothing.insert(food_id)) != Err::<u64, FoodError>(
            FoodError::CyclicReference,
        ) {
            lemma_shorter_path_food(db, inside, nothing.insert(food_id), nothing);
        }
        lemma_cyclic_component_fails(db, components, nothing.insert(food_id), place);
    } else {
        lemma_total_is_portions_sum(db, food_id, components.len());
    }
}

/// A composite food all of whose components resolve resolves to the
/// saturated sum of their portions.
pub proof fn lemma_composite_of_resolving_components(db: DatabaseView, food_id: Seq<char>)
    requires
        db.wf(),
        db.composite_foods.contains_key(food_id),
        !db.basic_foods.contains_key(food_id),
        forall|i: int|
            0 <= i < db.composite_foods[food_id].components.len() ==> db.calories_of(
                #[trigger] db.composite_foods[food_id].components[i].food_id,
            ) is Ok,
    ensures
        db.calories_of(food_id) == Ok::<u64, FoodError>(
            saturate(
                db.portions_sum(
                    db.composite_foods[food_id].components,
                    db.composite_foods[food_id].components.len(),
                ),
            ) as u64,
        ),
{
    lemma_composite_food_resolves(db, food_id);
}

/// Two databases with the same foods resolve a food alike on every path.
proof fn lemma_same_foods_food(
    db: DatabaseView,
    other: DatabaseView,
    food_id: Seq<char>,
    path: Set<Seq<char>>,
)
    requires
        db.composite_foods.dom().finite(),
        db.basic_foods == other.basic_foods,
        db.composite_foods == other.composite_foods,
    ensures
        db.calories_along(food_id, path) == other.calories_along(food_id, path),
    decreases db.off_path(path).len(), 0nat, 0nat,
{
    if !db.basic_foods.contains_key(food_id) && db.composite_foods.contains_key(food_id)
        && !path.contains(food_id) {
        let components = db.composite_foods[food_id].components;
        assert(db.off_path(path.insert(food_id)) =~= db.off_path(path).remove(food_id));
        lemma_same_foods_total(db, other, components, path.insert(food_id), components.len());
    }
}

/// The same for the sum of the first `count` components.
proof fn lemma_same_foods_total(
    db: DatabaseView,
    other: DatabaseView,
    components: Seq<FoodComponentView>,
    path: Set<Seq<char>>,
    count: nat,
)
    requires
        db.composite_foods.dom().finite(),
        db.basic_foods == other.basic_foods,
        db.composite_foods == other.composite_foods,
    ensures
        db.components_total(components, path, count) == other.components_total(
            components,
            path,
            count,
        ),
    decreases db.off_path(path).len(), 1nat, count,
{
    if count > 0 && count <= components.len() {
        lemma_same_foods_total(db, other, components, path, (count - 1) as nat);
        lemma_same_foods_food(db, other, components[count - 1].food_id, path);
    }
}

/// What a food resolves to depends on the foods of the database alone, not
/// on its users or its log.
pub proof fn lemma_calories_depend_on_foods(
    db: DatabaseView,
    other: DatabaseView,
    food_id: Seq<char>,
)
    requires
        db.wf(),
        db.basic_foods == other.basic_foods,
        db.composite_foods == other.composite_foods,
    ensures
        db.calories_of(food_id) == other.calories_of(food_id),
{
    lemma_same_foods_food(db, other, food_id, Set::empty());
}

impl Database {
    /// The composite foods whose flag is set in `flags`.
    pub open(crate) spec fn path_ids(&self, flags: Seq<bool>) -> Set<Seq<char>> {
        Set::new(
            |id: Seq<char>|
                exists|i: int|
                    0 <= i < flags.len() && i < self.composite_foods.len() && flags[i]
                        && #[trigger] self.composite_foods[i].key() == id,
        )
    }

    /// Setting the flag of a composite food puts that food on the path.
    proof fn lemma_path_mark(&self, flags: Seq<bool>, place: int)
        requires
            self.wf(),
            flags.len() == self.composite_foods.len(),
            0 <= place < flags.len(),
            !flags[place],
        ensures
            !self.path_ids(flags).contains(self.composite_foods[place].key()),
            self.path_ids(flags.update(place, true)) == self.path_ids(flags).insert(
                self.composite_foods[place].key(),
            ),
    {
        let id = self.composite_foods[place].key();
        let marked = flags.update(place, true);
        assert forall|other: Seq<char>| #[trigger]
            self.path_ids(marked).contains(other) == self.path_ids(flags).insert(id).contains(
                other,
            ) by {
            if self.path_ids(marked).contains(other) {
                let i = choose|i: int|
                    0 <= i < marked.len() && i < self.composite_foods.len() && marked[i]
                        && #[trigger] self.composite_foods[i].key() == other;
                if i != place {
                    assert(flags[i] && self.composite_foods[i].key() == other);
                }
            }
            if self.path_ids(flags).insert(id).contains(other) {
                if other == id {
                    assert(marked[place] && self.composite_foods[place].key() == other);
                } else {
                    let i = choose|i: int|
                        0 <= i < flags.len() && i < self.composite_foods.len() && flags[i]
                            && #[trigger] self.composite_foods[i].key() == other;
                    assert(marked[i] && self.composite_foods[i].key() == other);
                }
            }
        }
        assert(self.path_ids(marked) =~= self.path_ids(flags).insert(id));
    }

    /// The calories of one serving of `food_id` while the composite foods
    /// flagged in `on_path` are being resolved.
    fn resolve_along(&self, food_id: &str, on_path: &mut Vec<bool>) -> (result: Result<
        u64,
        FoodError,
    >)
        requires
            self.wf(),
            old(on_path).len() == self.composite_foods.len(),
        ensures
            final(on_path)@ == old(on_path)@,
            result == self@.calories_along(food_id@, self.path_ids(old(on_path)@)),
        decreases self@.off_path(self.path_ids(old(on_path)@)).len(),
    {
        let ghost flags = on_path@;
        let ghost path = self.path_ids(flags);
        proof {
            lemma_table_finite(self.composite_foods@);
        }
        if let Some(i) = find_key(&self.basic_foods, food_id) {
            proof {
                lemma_table_entry(self.basic_foods@, i as int);
            }
            return Ok(self.basic_foods[i].calories_per_serving);
        }
        let place: usize = match find_key(&self.composite_foods, food_id) {
            Some(j) => j,
            None => {
                return Err(FoodError::FoodNotFound);
            },
        };
        proof {
            lemma_table_entry(self.composite_foods@, place as int);
        }
        if on_path[place] {
            assert(path.contains(food_id@));
            return Err(FoodError::CyclicReference);
        }
        proof {
            self.lemma_path_mark(flags, place as int);
        }
        on_path.set(place, true);
        let food: &CompositeFood = &self.composite_foods[place];
        let ghost inner = path.insert(food_id@);
        let ghost components = component_views(food.components@);
        assert(self@.off_path(inner) =~= self@.off_path(path).remove(food_id@));
        assert(self@.composite_foods[food_id@].components == components);
        let mut total: u64 = 0;
        let mut k: usize = 0;
        while k < food.components.len()
            invariant
                self.wf(),
                self@.composite_foods.dom().finite(),
                k <= food.components.len(),
                components == component_views(food.components@),
                on_path@ == flags.update(place as int, true),
                flags.len() == self.composite_foods.len(),
                place < flags.len(),
                !flags[place as int],
                flags == old(on_path)@,
                path == self.path_ids(flags),
                inner == self.path_ids(on_path@),
                self@.calories_along(food_id@, path) == match self@.components_total(
                    components,
                    inner,
                    components.len(),
                ) {
                    Ok(exact) => Ok::<u64, FoodError>(saturate(exact) as u64),
                    Err(e) => Err(e),
                },
                self@.off_path(inner).len() < self@.off_path(path).len(),
                self@.components_total(components, inner, k as nat) matches Ok(exact) && total
                    == saturate(exact),
            decreases food.components.len() - k,
        {
            let component = &food.components[k];
            assert(components[k as int] == component@);
            match self.resolve_along(component.food_id.as_str(), on_path) {
                Ok(calories) => {
                    proof {
                        let exact = self@.components_total(components, inner, k as nat)->Ok_0;
                        lemma_saturate_absorbs(
                            exact,
                            portion(calories as nat, component.servings as nat),
                        );
                    }
                    total = add_amounts(total, portion_calories(calories, component.servings));
                },
                Err(FoodError::FoodNotFound) => {},
                Err(FoodError::CyclicReference) => {
                    proof {
                        lemma_failure_stays(
                            self@,
                            components,
                            inner,
                            (k + 1) as nat,
                            components.len(),
                        );
                    }
                    on_path.set(place, false);
                    assert(on_path@ =~= flags);
                    return Err(FoodError::CyclicReference);
                },
            }
            k = k + 1;
        }
        on_path.set(place, false);
        assert(on_path@ =~= flags);
        Ok(total)
    }

    /// The calories of one serving of the food `food_id`, in thousandths of
    /// a kilocalorie.
    ///
    /// A basic food has its stored value. A composite food has the sum of
    /// its components' portions, where a component that names no food adds
    /// nothing. An identifier that names no food gives `FoodNotFound`; a
    /// composite food that contains itself gives `CyclicReference`.
    pub fn get_food_calories(&self, food_id: &str) -> (result: Result<u64, FoodError>)
        requires
            self.wf(),
        ensures
            result == self@.calories_of(food_id@),
    {
        let mut on_path: Vec<bool> = Vec::new();
        let mut i: usize = 0;
        while i < self.composite_foods.len()
            invariant
                i <= self.composite_foods.len(),
                on_path.len() == i,
                forall|j: int| 0 <= j < i ==> !on_path[j],
            decreases self.composite_foods.len() - i,
        {
            on_path.push(false);
            i = i + 1;
        }
        assert(self.path_ids(on_path@) =~= Set::<Seq<char>>::empty());
        self.resolve_along(food_id, &mut on_path)
    }
}

} // verus!
