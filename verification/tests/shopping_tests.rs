use mcp_tandoor::client::{Food, ShoppingListEntry};
use mcp_tandoor::server::{
    check_target, clear_error_text, clear_start, clear_step, food_lookup, food_lookup_error,
    group_by_section, bulk_request, select_candidates, suggestions, Candidate, CheckTarget, ClearAction,
    ClearRecord, FoodLookup, QueuedItem, RecipeScore, SectionGroup,
};

fn entry(id: i32, food_id: i32, name: &str, section: Option<&str>, checked: bool) -> ShoppingListEntry {
    ShoppingListEntry {
        id,
        food: Food {
            id: food_id,
            name: name.to_string(),
            plural_name: None,
            description: None,
            recipe: None,
            food_onhand: false,
            substitute_onhand: false,
            supermarket_category: section.map(|s| s.to_string()),
            inherit_fields: vec![],
        },
        unit: None,
        order: id,
        checked,
        completed_by: None,
    }
}

#[test]
fn shopping_list_grouped_by_store_section() {
    let entries = vec![
        entry(1, 10, "Apples", Some("Produce"), false),
        entry(2, 11, "Milk", Some("Dairy"), true),
        entry(3, 12, "Pears", Some("Produce"), true),
        entry(4, 13, "Salt", None, false),
        entry(5, 14, "Butter", Some("Dairy"), false),
        entry(6, 15, "Kale", Some("Produce"), false),
    ];
    let groups = group_by_section(&entries);
    assert_eq!(
        groups,
        vec![
            SectionGroup { section: Some("Produce".to_string()), unchecked: vec![0, 5], checked: vec![2] },
            SectionGroup { section: Some("Dairy".to_string()), unchecked: vec![4], checked: vec![1] },
            SectionGroup { section: None, unchecked: vec![3], checked: vec![] },
        ]
    );
    // Every entry stands exactly once in the layout.
    let mut seen: Vec<usize> = groups.iter().flat_map(|g| g.unchecked.iter().chain(g.checked.iter()).copied()).collect();
    seen.sort();
    assert_eq!(seen, vec![0, 1, 2, 3, 4, 5]);
    assert_eq!(group_by_section(&vec![]), vec![]);
}

#[test]
fn food_lookups() {
    assert_eq!(food_lookup(Some(&vec![7, 8])), FoodLookup::Found(7));
    assert_eq!(food_lookup(Some(&vec![])), FoodLookup::NotFound);
    assert_eq!(food_lookup(None), FoodLookup::SearchFailed);
    assert_eq!(food_lookup_error(FoodLookup::Found(7)), None);
    assert_eq!(food_lookup_error(FoodLookup::NotFound), Some("Food not found".to_string()));
    assert_eq!(food_lookup_error(FoodLookup::SearchFailed), Some("Failed to search for food".to_string()));
}

#[test]
fn check_targets() {
    assert_eq!(check_target(Some(42), None), CheckTarget::Entry(42));
    assert_eq!(check_target(Some(42), Some("x".to_string())), CheckTarget::Entry(42));
    assert_eq!(check_target(None, Some("milk".to_string())), CheckTarget::FoodName("milk".to_string()));
    assert_eq!(check_target(None, None), CheckTarget::Ignored);
    assert_eq!(check_target(Some(4294967297), None), CheckTarget::Entry(1));
}

#[test]
fn clearing_an_entry() {
    let checked = entry(3, 30, "Milk", None, true);
    let open = entry(4, 40, "Eggs", None, false);
    assert_eq!(clear_start(&open), ClearAction::Done);
    let a = clear_start(&checked);
    assert_eq!(a, ClearAction::Delete(3));
    assert_eq!(clear_step(&checked, a, true), (ClearRecord::Removed, ClearAction::MarkOnHand(30)));
    assert_eq!(clear_step(&checked, a, false), (ClearRecord::RemoveFailed, ClearAction::Done));
    assert_eq!(clear_step(&checked, ClearAction::MarkOnHand(30), true), (ClearRecord::PantryUpdated, ClearAction::Done));
    assert_eq!(clear_step(&checked, ClearAction::MarkOnHand(30), false), (ClearRecord::PantryFailed, ClearAction::Done));
    assert_eq!(clear_step(&checked, ClearAction::Done, true), (ClearRecord::Nothing, ClearAction::Done));
    assert_eq!(clear_error_text(ClearRecord::RemoveFailed), Some("Failed to remove from shopping list".to_string()));
    assert_eq!(clear_error_text(ClearRecord::PantryFailed), Some("Failed to update pantry".to_string()));
    assert_eq!(clear_error_text(ClearRecord::Removed), None);
}

#[test]
fn bulk_request_of_found_items() {
    let lookups = vec![FoodLookup::Found(7), FoodLookup::NotFound, FoodLookup::SearchFailed, FoodLookup::Found(9)];
    assert_eq!(
        bulk_request(&lookups),
        Some(vec![QueuedItem { item: 0, food: 7 }, QueuedItem { item: 3, food: 9 }])
    );
    assert_eq!(bulk_request(&vec![FoodLookup::NotFound, FoodLookup::SearchFailed]), None);
    assert_eq!(bulk_request(&vec![]), None);
}

#[test]
fn suggestions_leave_out_unread_and_empty_recipes() {
    let score = |matching: usize, total: usize, missing: usize| {
        Some(RecipeScore { matching, total, missing: vec!["x".to_string(); missing] })
    };
    let scores = vec![
        score(0, 0, 0), // no lines to match: never suggested
        None,           // details could not be read
        score(1, 2, 1), // 50 %
        score(3, 4, 1), // 75 %
        score(1, 4, 3), // 25 %
        score(2, 4, 2), // 50 %, later than position 2
    ];
    assert_eq!(
        select_candidates(&scores, "maximum-use"),
        vec![
            Candidate { position: 2, matching: 1, total: 2 },
            Candidate { position: 3, matching: 3, total: 4 },
            Candidate { position: 5, matching: 2, total: 4 },
        ]
    );
    assert_eq!(
        suggestions(&scores, "maximum-use", 10),
        vec![
            Candidate { position: 3, matching: 3, total: 4 },
            Candidate { position: 2, matching: 1, total: 2 },
            Candidate { position: 5, matching: 2, total: 4 },
        ]
    );
    assert_eq!(suggestions(&scores, "maximum-use", 1), vec![Candidate { position: 3, matching: 3, total: 4 }]);
    assert_eq!(suggestions(&scores, "strict", 10), vec![Candidate { position: 3, matching: 3, total: 4 }]);
    assert_eq!(suggestions(&vec![score(0, 0, 0), None], "expiring", 10), vec![]);
}
