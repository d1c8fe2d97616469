use raft_world::crafting::{CraftingCategory, CraftingSystem};
use raft_world::inventory::Inventory;
use raft_world::item::FloatingItemType;

#[test]
fn only_planks_are_known_at_first() {
    let cs = CraftingSystem::new();
    let names: Vec<&str> = cs.get_available_recipes().iter().map(|r| r.id.as_str()).collect();
    assert_eq!(names, vec!["planks"]);
    assert_eq!(cs.get_recipes_by_category(CraftingCategory::Tools).len(), 0);
    assert_eq!(CraftingCategory::Survival.name(), "Survival");
}

#[test]
fn planks_turn_three_wood_into_five() {
    let mut cs = CraftingSystem::new();
    let mut inv = Inventory::new();
    assert!(!cs.can_craft("planks", &inv));
    assert!(!cs.craft_item("planks", &mut inv));
    inv.add_material(FloatingItemType::Wood, 3);
    assert!(cs.can_craft("planks", &inv));
    assert!(cs.craft_item("planks", &mut inv));
    assert_eq!(inv.get_count(FloatingItemType::Wood), 5);
    assert!(!cs.can_craft("no_such_recipe", &inv));
}

#[test]
fn unknown_recipe_needs_discovery() {
    let mut cs = CraftingSystem::new();
    let mut inv = Inventory::new();
    inv.add_material(FloatingItemType::Wood, 10);
    inv.add_material(FloatingItemType::Metal, 3);
    inv.add_material(FloatingItemType::Rope, 2);
    assert!(!cs.can_craft("storage_chest", &inv));
    cs.discover_recipes(&inv);
    assert!(cs.can_craft("storage_chest", &inv));
    assert!(cs.discovered_recipes.contains(&"storage_chest".to_string()));
    assert!(!cs.discovered_recipes.contains(&"dried_fish".to_string()));
    assert!(cs.craft_item("storage_chest", &mut inv));
    assert_eq!(inv.get_count(FloatingItemType::Wood), 2);
    assert_eq!(inv.get_count(FloatingItemType::Metal), 1);
    assert_eq!(inv.get_count(FloatingItemType::Rope), 1);
    assert_eq!(inv.get_count(FloatingItemType::Barrel), 1);
    let tools: Vec<&str> = cs.get_recipes_by_category(CraftingCategory::Tools).iter().map(|r| r.id.as_str()).collect();
    assert_eq!(tools, vec!["fishing_rod", "spear"]);
}
