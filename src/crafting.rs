use vstd::prelude::*;
use crate::inventory::Inventory;
use crate::item::FloatingItemType;
use crate::scene::{texts, holds_text};

verus! {

#[derive(Clone, Copy, Debug, PartialEq, Eq, Structural)]
pub enum CraftingCategory {
    Tools,
    Building,
    Food,
    Storage,
    Survival,
}

pub open spec fn category_name(c: CraftingCategory) -> Seq<char> {
    match c {
        CraftingCategory::Tools => "Tools"@,
        CraftingCategory::Building => "Building"@,
        CraftingCategory::Food => "Food"@,
        CraftingCategory::Storage => "Storage"@,
        CraftingCategory::Survival => "Survival"@,
    }
}

impl CraftingCategory {
    /// The category's display name.
    pub fn name(&self) -> (r: &'static str)
        ensures
            r@ == category_name(*self),
    {
        match self {
            CraftingCategory::Tools => "Tools",
            CraftingCategory::Building => "Building",
            CraftingCategory::Food => "Food",
            CraftingCategory::Storage => "Storage",
            CraftingCategory::Survival => "Survival",
        }
    }
}

/// A way to turn materials into another material.
pub struct CraftingRecipe {
    pub id: String,
    pub name: String,
    pub description: String,
    /// Each ingredient's type and how many units it takes.
    pub ingredients: Vec<(FloatingItemType, u32)>,
    pub result: (FloatingItemType, u32),
    pub category: CraftingCategory,
    /// Known from the start.
    pub discovered: bool,
    /// Holding one of each of these reveals the recipe.
    pub unlock_requirements: Vec<FloatingItemType>,
}

/// The recipes, and the identifiers of those the player has found.
pub struct CraftingSystem {
    pub recipes: Vec<CraftingRecipe>,
    pub discovered_recipes: Vec<String>,
}

/// Whether `inv` holds every ingredient of `ingredients` in the amount it needs.
pub open spec fn has_ingredients(inv: &Inventory, ingredients: Seq<(FloatingItemType, u32)>) -> bool {
    forall|k: int| 0 <= k < ingredients.len() ==> inv.count(#[trigger] ingredients[k].0) >= ingredients[k].1
}

/// No two ingredients share a type.
pub open spec fn distinct_types(ingredients: Seq<(FloatingItemType, u32)>) -> bool {
    forall|a: int, b: int| 0 <= a < ingredients.len() && 0 <= b < ingredients.len() && a != b
        ==> #[trigger] ingredients[a].0 != #[trigger] ingredients[b].0
}

/// Whether `t` is the type of one of `ingredients`.
pub open spec fn uses(ingredients: Seq<(FloatingItemType, u32)>, t: FloatingItemType) -> bool {
    exists|k: int| 0 <= k < ingredients.len() && #[trigger] ingredients[k].0 == t
}

/// Whether `inv` holds at least one of each type of `needs`.
pub open spec fn has_each(inv: &Inventory, needs: Seq<FloatingItemType>) -> bool {
    forall|k: int| 0 <= k < needs.len() ==> inv.count(#[trigger] needs[k]) > 0
}

fn recipe(
    id: &str,
    name: &str,
    description: &str,
    ingredients: Vec<(FloatingItemType, u32)>,
    result: (FloatingItemType, u32),
    category: CraftingCategory,
    discovered: bool,
    unlock_requirements: Vec<FloatingItemType>,
) -> (r: CraftingRecipe)
    ensures
        r.id@ == id@,
        r.ingredients@ == ingredients@,
        r.result == result,
        r.category == category,
        r.discovered == discovered,
        r.unlock_requirements@ == unlock_requirements@,
{
    CraftingRecipe {
        id: id.to_owned(),
        name: name.to_owned(),
        description: description.to_owned(),
        ingredients,
        result,
        category,
        discovered,
        unlock_requirements,
    }
}

impl CraftingSystem {
    /// Whether the recipe at `i` is known: from the start, or found since.
    pub open spec fn known(&self, i: int) -> bool {
        self.recipes@[i].discovered || texts(self.discovered_recipes@).contains(self.recipes@[i].id@)
    }

    /// Whether `can_craft(id, inv)` holds.
    pub open spec fn can_craft_spec(&self, id: Seq<char>, inv: &Inventory) -> bool {
        match self.index_of(id) {
            Some(i) => self.known(i) && has_ingredients(inv, self.recipes@[i].ingredients@),
            None => false,
        }
    }

    /// The index of the first recipe with identifier `id`, if any.
    pub open spec fn index_of(&self, id: Seq<char>) -> Option<int> {
        if exists|i: int| 0 <= i < self.recipes@.len() && #[trigger] self.recipes@[i].id@ == id {
            Some(choose|i: int| 0 <= i < self.recipes@.len() && self.recipes@[i].id@ == id
                && forall|j: int| 0 <= j < i ==> #[trigger] self.recipes@[j].id@ != id)
        } else {
            None
        }
    }

    /// The eight recipes of the game; only wood planks are known from the start.
    pub fn new() -> (r: CraftingSystem)
        ensures
            r.recipes@.len() == 8,
            r.recipes@[0].id@ == "fishing_rod"@,
            r.recipes@[1].id@ == "spear"@,
            r.recipes@[2].id@ == "planks"@,
            r.recipes@[3].id@ == "rope_bundle"@,
            r.recipes@[4].id@ == "net"@,
            r.recipes@[5].id@ == "storage_chest"@,
            r.recipes@[6].id@ == "dried_fish"@,
            r.recipes@[7].id@ == "water_collector"@,
            r.discovered_recipes@.len() == 0,
            forall|i: int| 0 <= i < 8 ==> (#[trigger] r.recipes@[i]).discovered == (i == 2),
    {
        let mut recipes: Vec<CraftingRecipe> = Vec::new();
        recipes.push(recipe("fishing_rod", "Fishing Rod", "A basic fishing rod for catching fish",
            vec![(FloatingItemType::Wood, 2), (FloatingItemType::Rope, 1)], (FloatingItemType::Wood, 1),
            CraftingCategory::Tools, false, vec![FloatingItemType::Wood, FloatingItemType::Rope]));
        recipes.push(recipe("spear", "Spear", "A sharp spear for defense and hunting",
            vec![(FloatingItemType::Wood, 1), (FloatingItemType::Metal, 1)], (FloatingItemType::Metal, 1),
            CraftingCategory::Tools, false, vec![FloatingItemType::Wood, FloatingItemType::Metal]));
        recipes.push(recipe("planks", "Wood Planks", "Processed wood planks for building",
            vec![(FloatingItemType::Wood, 3)], (FloatingItemType::Wood, 5),
            CraftingCategory::Building, true, Vec::new()));
        recipes.push(recipe("rope_bundle", "Rope Bundle", "Twisted rope for stronger binding",
            vec![(FloatingItemType::Cloth, 2)], (FloatingItemType::Rope, 1),
            CraftingCategory::Building, false, vec![FloatingItemType::Cloth]));
        recipes.push(recipe("net", "Fishing Net", "A net for catching multiple fish",
            vec![(FloatingItemType::Rope, 4), (FloatingItemType::Cloth, 2)], (FloatingItemType::Rope, 2),
            CraftingCategory::Tools, false, vec![FloatingItemType::Rope, FloatingItemType::Cloth]));
        recipes.push(recipe("storage_chest", "Storage Chest", "A chest to store extra items",
            vec![(FloatingItemType::Wood, 8), (FloatingItemType::Metal, 2), (FloatingItemType::Rope, 1)],
            (FloatingItemType::Barrel, 1), CraftingCategory::Storage, false,
            vec![FloatingItemType::Wood, FloatingItemType::Metal]));
        recipes.push(recipe("dried_fish", "Dried Fish", "Preserved fish that lasts longer",
            vec![(FloatingItemType::Fish, 2), (FloatingItemType::Cloth, 1)], (FloatingItemType::Fish, 3),
            CraftingCategory::Food, false, vec![FloatingItemType::Fish]));
        recipes.push(recipe("water_collector", "Water Collector", "Collects rainwater for drinking",
            vec![(FloatingItemType::Barrel, 1), (FloatingItemType::Cloth, 2), (FloatingItemType::Rope, 1)],
            (FloatingItemType::Bottle, 3), CraftingCategory::Survival, false, vec![FloatingItemType::Barrel]));
        CraftingSystem { recipes, discovered_recipes: Vec::new() }
    }

    /// The index of the first recipe with identifier `recipe_id`.
    pub fn find_recipe(&self, recipe_id: &str) -> (r: Option<usize>)
        ensures
            r.is_some() ==> ({
                let i = r.unwrap() as int;
                &&& 0 <= i < self.recipes@.len()
                &&& self.recipes@[i].id@ == recipe_id@
                &&& forall|j: int| 0 <= j < i ==> #[trigger] self.recipes@[j].id@ != recipe_id@
            }),
            r.is_none() ==> forall|j: int| 0 <= j < self.recipes@.len() ==> #[trigger] self.recipes@[j].id@ != recipe_id@,
    {
        let wanted = recipe_id.to_owned();
        let mut i: usize = 0;
        while i < self.recipes.len()
            invariant
                i <= self.recipes@.len(),
                wanted@ == recipe_id@,
                forall|j: int| 0 <= j < i ==> #[trigger] self.recipes@[j].id@ != recipe_id@,
            decreases self.recipes@.len() - i,
        {
            if self.recipes[i].id == wanted {
                return Some(i);
            }
            i += 1;
        }
        None
    }

    /// Whether the recipe at `i` is known.
    pub fn is_known(&self, i: usize) -> (r: bool)
        requires
            i < self.recipes@.len(),
        ensures
            r == self.known(i as int),
    {
        self.recipes[i].discovered || holds_text(&self.discovered_recipes, &self.recipes[i].id)
    }

    /// Whether the recipe `recipe_id` exists, is known, and `inventory`
    /// holds all its ingredients.
    pub fn can_craft(&self, recipe_id: &str, inventory: &Inventory) -> (r: bool)
        ensures
            r == self.can_craft_spec(recipe_id@, inventory),
    {
        let found = self.find_recipe(recipe_id);
        proof {
            self.lemma_index_of(recipe_id@, found);
        }
        match found {
            None => false,
            Some(i) => {
                if !self.is_known(i) {
                    return false;
                }
                let ingredients = &self.recipes[i].ingredients;
                let mut k: usize = 0;
                while k < ingredients.len()
                    invariant
                        k <= ingredients@.len(),
                        i < self.recipes@.len(),
                        self.index_of(recipe_id@) == Some(i as int),
                        self.known(i as int),
                        *ingredients == self.recipes@[i as int].ingredients,
                        forall|j: int| 0 <= j < k ==> inventory.count(#[trigger] ingredients@[j].0) >= ingredients@[j].1,
                    decreases ingredients@.len() - k,
                {
                    let (t, amount) = ingredients[k];
                    if inventory.get_count(t) < amount {
                        proof {
                            assert(ingredients@[k as int].0 == t && ingredients@[k as int].1 == amount);
                            assert(!(inventory.count(ingredients@[k as int].0) >= ingredients@[k as int].1));
                        }
                        return false;
                    }
                    k += 1;
                }
                true
            },
        }
    }

    /// Crafts the recipe `recipe_id` from `inventory`: takes out each
    /// ingredient, then puts in what the recipe makes, as far as it fits.
    /// Returns false, changing nothing, when the recipe cannot be crafted.
    pub fn craft_item(&mut self, recipe_id: &str, inventory: &mut Inventory) -> (r: bool)
        ensures
            *final(self) == *old(self),
            r ==> old(self).can_craft_spec(recipe_id@, old(inventory)),
            !old(self).can_craft_spec(recipe_id@, old(inventory)) ==> !r && *final(inventory) == *old(inventory),
            old(self).can_craft_spec(recipe_id@, old(inventory)) ==> ({
                let i = old(self).index_of(recipe_id@).unwrap();
                let ings = old(self).recipes@[i].ingredients@;
                let made = old(self).recipes@[i].result.0;
                distinct_types(ings) ==> {
                    &&& r
                    &&& forall|k: int| 0 <= k < ings.len() && #[trigger] ings[k].0 != made ==> final(inventory).count(ings[k].0)
                        == old(inventory).count(ings[k].0) - ings[k].1
                    &&& forall|t: FloatingItemType| !uses(ings, t) && t != made ==> #[trigger] final(inventory).count(t)
                        == old(inventory).count(t)
                }
            }),
    {
        if !self.can_craft(recipe_id, inventory) {
            return false;
        }
        let found = self.find_recipe(recipe_id);
        proof {
            self.lemma_index_of(recipe_id@, found);
        }
        let i = match found {
            Some(i) => i,
            None => {
                return false;
            },
        };
        let ghost start = *inventory;
        let ings = &self.recipes[i].ingredients;
        let mut k: usize = 0;
        while k < ings.len()
            invariant
                k <= ings@.len(),
                i < self.recipes@.len(),
                *self == *old(self),
                *ings == self.recipes@[i as int].ingredients,
                start == *old(inventory),
                self.index_of(recipe_id@) == Some(i as int),
                old(self).can_craft_spec(recipe_id@, old(inventory)),
                has_ingredients(&start, ings@),
                distinct_types(ings@) ==> forall|j: int| 0 <= j < k ==> inventory.count(#[trigger] ings@[j].0)
                    == start.count(ings@[j].0) - ings@[j].1,
                distinct_types(ings@) ==> forall|t: FloatingItemType|
                    !(exists|j: int| 0 <= j < k && #[trigger] ings@[j].0 == t) ==> #[trigger] inventory.count(t) == start.count(t),
            decreases ings@.len() - k,
        {
            let (t, amount) = ings[k];
            let ghost before = *inventory;
            proof {
                if distinct_types(ings@) {
                    assert(!(exists|j: int| 0 <= j < k && #[trigger] ings@[j].0 == t)) by {
                        if exists|j: int| 0 <= j < k && #[trigger] ings@[j].0 == t {
                            let j = choose|j: int| 0 <= j < k && #[trigger] ings@[j].0 == t;
                            assert(ings@[j].0 == ings@[k as int].0);
                        }
                    }
                    assert(inventory.count(t) == start.count(t));
                    assert(start.count(ings@[k as int].0) >= ings@[k as int].1);
                }
            }
            if !inventory.remove_material(t, amount) {
                return false;
            }
            proof {
                if distinct_types(ings@) {
                    assert forall|j: int| 0 <= j < k + 1 implies inventory.count(#[trigger] ings@[j].0)
                        == start.count(ings@[j].0) - ings@[j].1 by {
                        if j < k {
                            assert(ings@[j].0 != ings@[k as int].0);
                        }
                    }
                    assert forall|u: FloatingItemType|
                        !(exists|j: int| 0 <= j < k + 1 && #[trigger] ings@[j].0 == u) implies #[trigger] inventory.count(u) == start.count(u) by {
                        assert(ings@[k as int].0 != u);
                        assert(!(exists|j: int| 0 <= j < k && #[trigger] ings@[j].0 == u)) by {
                            if exists|j: int| 0 <= j < k && #[trigger] ings@[j].0 == u {
                                let j = choose|j: int| 0 <= j < k && #[trigger] ings@[j].0 == u;
                                assert(0 <= j < k + 1 && ings@[j].0 == u);
                            }
                        }
                    }
                }
            }
            k += 1;
        }
        let (made, amount) = self.recipes[i].result;
        inventory.add_material(made, amount);
        proof {
            if distinct_types(ings@) {
                assert forall|t: FloatingItemType| !uses(ings@, t) && t != made implies #[trigger] inventory.count(t) == start.count(t) by {
                    assert(!(exists|j: int| 0 <= j < k && #[trigger] ings@[j].0 == t)) by {
                        if exists|j: int| 0 <= j < k && #[trigger] ings@[j].0 == t {
                            let j = choose|j: int| 0 <= j < k && #[trigger] ings@[j].0 == t;
                            assert(0 <= j < ings@.len() && ings@[j].0 == t);
                        }
                    }
                }
            }
        }
        true
    }

    /// Marks as found every unknown recipe whose unlock requirements
    /// `inventory` holds, one of each.
    pub fn discover_recipes(&mut self, inventory: &Inventory)
        ensures
            final(self).recipes@.len() == old(self).recipes@.len(),
            forall|i: int| 0 <= i < old(self).recipes@.len() ==> {
                &&& (#[trigger] final(self).recipes@[i]).id == old(self).recipes@[i].id
                &&& final(self).recipes@[i].ingredients == old(self).recipes@[i].ingredients
                &&& final(self).recipes@[i].result == old(self).recipes@[i].result
                &&& final(self).recipes@[i].category == old(self).recipes@[i].category
                &&& final(self).recipes@[i].unlock_requirements == old(self).recipes@[i].unlock_requirements
                &&& (old(self).known(i) || has_each(inventory, old(self).recipes@[i].unlock_requirements@)) ==> final(self).known(i)
                &&& final(self).recipes@[i].discovered ==> old(self).recipes@[i].discovered || has_each(
                    inventory,
                    old(self).recipes@[i].unlock_requirements@,
                )
            },
            forall|x: Seq<char>| #[trigger] texts(final(self).discovered_recipes@).contains(x) ==> texts(
                old(self).discovered_recipes@,
            ).contains(x) || exists|i: int|
                0 <= i < old(self).recipes@.len() && #[trigger] old(self).recipes@[i].id@ == x && has_each(
                    inventory,
                    old(self).recipes@[i].unlock_requirements@,
                ),
    {
        let n = self.recipes.len();
        let mut i: usize = 0;
        while i < n
            invariant
                n == self.recipes@.len(),
                n == old(self).recipes@.len(),
                i <= n,
                forall|j: int| 0 <= j < n ==> {
                    &&& (#[trigger] self.recipes@[j]).id == old(self).recipes@[j].id
                    &&& self.recipes@[j].ingredients == old(self).recipes@[j].ingredients
                    &&& self.recipes@[j].result == old(self).recipes@[j].result
                    &&& self.recipes@[j].category == old(self).recipes@[j].category
                    &&& self.recipes@[j].unlock_requirements == old(self).recipes@[j].unlock_requirements
                    &&& self.recipes@[j].discovered ==> old(self).recipes@[j].discovered || has_each(
                        inventory,
                        old(self).recipes@[j].unlock_requirements@,
                    )
                },
                forall|j: int| 0 <= j < n ==> old(self).known(j) ==> #[trigger] self.known(j),
                forall|j: int| 0 <= j < i ==> has_each(inventory, old(self).recipes@[j].unlock_requirements@) ==> #[trigger] self.known(j),
                forall|x: Seq<char>| #[trigger] texts(self.discovered_recipes@).contains(x) ==> texts(
                    old(self).discovered_recipes@,
                ).contains(x) || exists|j: int|
                    0 <= j < n && #[trigger] old(self).recipes@[j].id@ == x && has_each(
                        inventory,
                        old(self).recipes@[j].unlock_requirements@,
                    ),
            decreases n - i,
        {
            if !self.is_known(i) {
                let needs = &self.recipes[i].unlock_requirements;
                let mut ok = true;
                let mut k: usize = 0;
                while k < needs.len()
                    invariant
                        k <= needs@.len(),
                        ok ==> forall|j: int| 0 <= j < k ==> inventory.count(#[trigger] needs@[j]) > 0,
                        !ok ==> !has_each(inventory, needs@),
                    decreases needs@.len() - k,
                {
                    if inventory.get_count(needs[k]) == 0 {
                        ok = false;
                        proof {
                            assert(!(inventory.count(needs@[k as int]) > 0));
                        }
                    }
                    k += 1;
                }
                if ok {
                    proof {
                        assert(has_each(inventory, old(self).recipes@[i as int].unlock_requirements@));
                    }
                    let ghost before = *self;
                    let id = self.recipes[i].id.clone();
                    self.recipes[i].discovered = true;
                    self.discovered_recipes.push(id);
                    proof {
                        assert(texts(self.discovered_recipes@) =~= texts(before.discovered_recipes@).push(id@));
                        assert forall|j: int| 0 <= j < n implies #[trigger] self.known(j) || !before.known(j) by {
                            if before.known(j) && j != i {
                                assert(self.recipes@[j] == before.recipes@[j]);
                                if texts(before.discovered_recipes@).contains(before.recipes@[j].id@) {
                                    let a = choose|a: int| 0 <= a < texts(before.discovered_recipes@).len()
                                        && texts(before.discovered_recipes@)[a] == before.recipes@[j].id@;
                                    assert(texts(self.discovered_recipes@)[a] == before.recipes@[j].id@);
                                }
                            }
                        }
                        assert forall|x: Seq<char>| #[trigger] texts(self.discovered_recipes@).contains(x) implies texts(
                            old(self).discovered_recipes@,
                        ).contains(x) || exists|j: int|
                            0 <= j < n && #[trigger] old(self).recipes@[j].id@ == x && has_each(
                                inventory,
                                old(self).recipes@[j].unlock_requirements@,
                            ) by {
                            let a = choose|a: int| 0 <= a < texts(self.discovered_recipes@).len()
                                && texts(self.discovered_recipes@)[a] == x;
                            if a < texts(before.discovered_recipes@).len() {
                                assert(texts(before.discovered_recipes@)[a] == x);
                                assert(texts(before.discovered_recipes@).contains(x));
                            } else {
                                assert(before.recipes@[i as int].id == old(self).recipes@[i as int].id);
                                assert(id == before.recipes@[i as int].id);
                                assert(old(self).recipes@[i as int].id@ == x);
                                assert(has_each(inventory, old(self).recipes@[i as int].unlock_requirements@));
                            }
                        }
                    }
                }
            }
            i += 1;
        }
    }

    /// Whether `rec` is known: from the start, or found since.
    pub open spec fn known_recipe(&self, rec: CraftingRecipe) -> bool {
        rec.discovered || texts(self.discovered_recipes@).contains(rec.id@)
    }

    /// The known recipes, in table order.
    pub fn get_available_recipes(&self) -> (r: Vec<&CraftingRecipe>)
        ensures
            forall|k: int| 0 <= k < r@.len() ==> self.recipes@.contains(*#[trigger] r@[k]) && self.known_recipe(*r@[k]),
            forall|i: int| 0 <= i < self.recipes@.len() && #[trigger] self.known(i) ==> r@.contains(&self.recipes@[i]),
    {
        self.recipes_where(None)
    }

    /// The known recipes of `category`, in table order.
    pub fn get_recipes_by_category(&self, category: CraftingCategory) -> (r: Vec<&CraftingRecipe>)
        ensures
            forall|k: int| 0 <= k < r@.len() ==> self.recipes@.contains(*#[trigger] r@[k]) && self.known_recipe(*r@[k])
                && r@[k].category == category,
            forall|i: int| 0 <= i < self.recipes@.len() && #[trigger] self.known(i) && self.recipes@[i].category == category
                ==> r@.contains(&self.recipes@[i]),
    {
        self.recipes_where(Some(category))
    }

    fn recipes_where(&self, category: Option<CraftingCategory>) -> (r: Vec<&CraftingRecipe>)
        ensures
            forall|k: int| 0 <= k < r@.len() ==> self.recipes@.contains(*#[trigger] r@[k]) && self.known_recipe(*r@[k])
                && (category.is_none() || r@[k].category == category.unwrap()),
            forall|i: int| 0 <= i < self.recipes@.len() && #[trigger] self.known(i) && (category.is_none()
                || self.recipes@[i].category == category.unwrap()) ==> r@.contains(&self.recipes@[i]),
    {
        let mut r: Vec<&CraftingRecipe> = Vec::new();
        let mut i: usize = 0;
        while i < self.recipes.len()
            invariant
                i <= self.recipes@.len(),
                forall|k: int| 0 <= k < r@.len() ==> self.recipes@.contains(*#[trigger] r@[k]) && self.known_recipe(*r@[k])
                    && (category.is_none() || r@[k].category == category.unwrap()),
                forall|j: int| 0 <= j < i && #[trigger] self.known(j) && (category.is_none() || self.recipes@[j].category
                    == category.unwrap()) ==> r@.contains(&self.recipes@[j]),
            decreases self.recipes@.len() - i,
        {
            let wanted = match category {
                Some(c) => self.recipes[i].category == c,
                None => true,
            };
            if wanted && self.is_known(i) {
                let ghost before = r@;
                r.push(&self.recipes[i]);
                proof {
                    assert(self.recipes@[i as int] == *r@[r@.len() - 1]);
                    assert forall|k: int| 0 <= k < r@.len() implies self.recipes@.contains(*#[trigger] r@[k])
                        && self.known_recipe(*r@[k]) && (category.is_none() || r@[k].category == category.unwrap()) by {
                        if k < before.len() {
                            assert(r@[k] == before[k]);
                        }
                    }
                    assert forall|j: int| 0 <= j < i + 1 && #[trigger] self.known(j) && (category.is_none()
                        || self.recipes@[j].category == category.unwrap()) implies r@.contains(&self.recipes@[j]) by {
                        if j < i {
                            let k = choose|k: int| 0 <= k < before.len() && before[k] == &self.recipes@[j];
                            assert(r@[k] == before[k]);
                        } else {
                            assert(r@[r@.len() - 1] == &self.recipes@[j]);
                        }
                    }
                }
            }
            i += 1;
        }
        r
    }

    proof fn lemma_index_of(&self, id: Seq<char>, found: Option<usize>)
        requires
            found.is_some() ==> ({
                let i = found.unwrap() as int;
                &&& 0 <= i < self.recipes@.len()
                &&& self.recipes@[i].id@ == id
                &&& forall|j: int| 0 <= j < i ==> #[trigger] self.recipes@[j].id@ != id
            }),
            found.is_none() ==> forall|j: int| 0 <= j < self.recipes@.len() ==> #[trigger] self.recipes@[j].id@ != id,
        ensures
            self.index_of(id) == match found {
                Some(i) => Some(i as int),
                None => None::<int>,
            },
    {
        if let Some(i) = found {
            let c = choose|c: int| 0 <= c < self.recipes@.len() && self.recipes@[c].id@ == id
                && forall|j: int| 0 <= j < c ==> #[trigger] self.recipes@[j].id@ != id;
            assert(self.recipes@[i as int].id@ == id);
            if c < i {
            } else if c > i {
                assert(self.recipes@[i as int].id@ != id);
            }
        }
    }
}

} // verus!
