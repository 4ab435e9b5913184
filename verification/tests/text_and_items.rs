use ruststeve::items::{count_items, count_logs, total_count, Stack};
use ruststeve::scan::least_key;
use ruststeve::state::{is_dragon_dead, pickaxe_tier, sword_tier, sync_from_bot};
use ruststeve::text::{chars_of, contains, ends_with, push_number, replace_all, same};
use ruststeve::types::{failure, success, Equipment, GameState, Inventory, Tier, WorldState};

fn stack(name: &str, count: i32) -> Option<Stack> {
    Some(Stack { name: name.to_string(), count })
}

#[test]
fn texts_are_compared_by_their_characters() {
    assert!(same("oak_log", "oak_log"));
    assert!(!same("oak_log", "oak_logs"));
    assert!(!same("", "a"));
    assert!(same("", ""));
    assert_eq!(chars_of("aé"), vec!['a', 'é']);
}

#[test]
fn tails_and_parts_are_found() {
    assert!(ends_with("dark_oak_log", "_log"));
    assert!(!ends_with("log", "_log"));
    assert!(ends_with("_log", "_log"));
    assert!(contains("deepslate_iron_ore", "iron_ore"));
    assert!(contains("flowing_lava", "lava"));
    assert!(!contains("lav", "lava"));
    assert!(contains("anything", ""));
}

#[test]
fn numbers_are_written_in_decimal() {
    let mut s = String::from("n=");
    push_number(&mut s, 0);
    s.push(' ');
    push_number(&mut s, -64);
    s.push(' ');
    push_number(&mut s, i64::MIN);
    s.push(' ');
    push_number(&mut s, i64::MAX);
    assert_eq!(s, "n=0 -64 -9223372036854775808 9223372036854775807");
}

#[test]
fn every_occurrence_is_replaced() {
    assert_eq!(replace_all("oak_log", "_log", "_planks"), "oak_planks");
    assert_eq!(replace_all("a_log_b_log", "_log", "_planks"), "a_planks_b_planks");
    assert_eq!(replace_all("_lo", "_log", "_planks"), "_lo");
    assert_eq!(replace_all("aaaa", "aa", "b"), "bb");
    assert_eq!(replace_all("aaa", "aa", "b"), "ba");
    assert_eq!(replace_all("", "_log", "_planks"), "");
    assert_eq!(replace_all("é_log", "_log", "ß"), "éß");
}

#[test]
fn stacks_add_up() {
    let slots = vec![stack("oak_log", 3), None, stack("stick", 5), stack("birch_log", 4), stack("oak_log", 1)];
    assert_eq!(count_items(&slots, "oak_log"), 4);
    assert_eq!(count_items(&slots, "stone"), 0);
    assert_eq!(total_count(&slots), 13);
    assert_eq!(count_logs(&slots), 8);
    assert_eq!(total_count(&Vec::new()), 0);
}

#[test]
fn least_key_is_the_first_of_the_least() {
    assert_eq!(least_key(&vec![7, 3, 9, 3], 100), Some(1));
    assert_eq!(least_key(&vec![7, 3], 3), None);
    assert_eq!(least_key(&vec![7, 3], 4), Some(1));
    assert_eq!(least_key(&Vec::new(), u64::MAX), None);
    let near = 2.5f64.to_bits();
    let far = 9.75f64.to_bits();
    assert_eq!(least_key(&vec![far, near], 10.0f64.to_bits()), Some(1));
    assert_eq!(least_key(&vec![12.0f64.to_bits()], 10.0f64.to_bits()), None);
}

#[test]
fn tool_tiers_come_from_names() {
    assert_eq!(pickaxe_tier("wooden_pickaxe"), Tier::Wood);
    assert_eq!(pickaxe_tier("stone_pickaxe"), Tier::Stone);
    assert_eq!(pickaxe_tier("iron_pickaxe"), Tier::Iron);
    assert_eq!(pickaxe_tier("golden_pickaxe"), Tier::Iron);
    assert_eq!(pickaxe_tier("netherite_pickaxe"), Tier::Diamond);
    assert_eq!(pickaxe_tier("iron_sword"), Tier::Nothing);
    assert_eq!(sword_tier("stone_sword"), Tier::Stone);
    assert_eq!(sword_tier("diamond_sword"), Tier::Diamond);
    assert_eq!(sword_tier("stick"), Tier::Nothing);
}

#[test]
fn ranks_rise_with_the_tier() {
    let all = [Tier::Nothing, Tier::Wood, Tier::Stone, Tier::Iron, Tier::Diamond];
    for i in 0..all.len() {
        assert_eq!(all[i].rank(), i as i32);
    }
}

#[test]
fn state_counts_what_is_carried() {
    let slots = vec![
        stack("oak_log", 2),
        stack("oak_planks", 7),
        stack("stick", 3),
        stack("cobblestone", 5),
        stack("cobbled_deepslate", 6),
        stack("coal", 1),
        stack("charcoal", 2),
        stack("raw_iron", 4),
        stack("iron_ingot", 9),
        stack("cooked_beef", 2),
        stack("bread", 1),
        stack("iron_pickaxe", 1),
        stack("wooden_pickaxe", 1),
        stack("stone_sword", 1),
        stack("crafting_table", 1),
        stack("furnace", 1),
        stack("bucket", 2),
        stack("water_bucket", 1),
        stack("flint", 1),
        stack("flint_and_steel", 1),
        stack("diamond", 0),
        None,
    ];
    let s = sync_from_bot(&slots, "overworld", true, true);
    assert_eq!(
        s.inventory,
        Inventory {
            logs: 2,
            planks: 7,
            sticks: 3,
            cobblestone: 11,
            coal: 3,
            iron_ore: 4,
            iron_ingots: 9,
            diamonds: 0,
            food: 3,
            crafting_tables: 1,
            buckets: 2,
            water_buckets: 1,
            flint: 1,
            flint_and_steel: 1,
        }
    );
    assert_eq!(s.equipment.pickaxe, Some(Tier::Iron));
    assert_eq!(s.equipment.sword, Some(Tier::Stone));
    assert!(s.equipment.has_crafting_table);
    assert!(s.equipment.has_furnace);
    assert_eq!(s.world.dimension, "overworld");
    assert!(s.world.portal_built);
    assert!(s.alive);
    assert!(!is_dragon_dead(&s));
}

#[test]
fn empty_stacks_count_for_nothing_but_a_furnace() {
    let slots = vec![stack("iron_pickaxe", 0), stack("oak_log", -3), stack("furnace", 0)];
    let s = sync_from_bot(&slots, "the_nether", false, false);
    assert_eq!(s.inventory, Inventory::default());
    assert_eq!(s.equipment.pickaxe, Some(Tier::Nothing));
    assert!(s.equipment.has_furnace);
    assert!(!s.alive);
}

#[test]
fn defaults_are_empty() {
    let s = GameState::default();
    assert_eq!(s.inventory.logs, 0);
    assert_eq!(s.equipment, Equipment::default());
    assert_eq!(s.equipment.pickaxe_tier(), Tier::Nothing);
    assert_eq!(s.equipment.sword_rank(), 0);
    assert_eq!(s.world, WorldState::default());
    assert!(!s.alive);
}

#[test]
fn results_carry_their_message() {
    assert!(success("done").success);
    assert_eq!(success("done").message, "done");
    assert!(!failure("no").success);
    assert_eq!(failure("no").message, "no");
}

#[test]
fn a_name_goes_to_one_counter() {
    let s = sync_from_bot(&vec![stack("oak_log", 5)], "overworld", false, true);
    let i = s.inventory;
    assert_eq!(i.logs, 5);
    assert_eq!(
        i.planks + i.sticks + i.cobblestone + i.coal + i.iron_ore + i.iron_ingots + i.diamonds + i.food,
        0
    );
}
