use mcp_tandoor::client::{
    CalendarDate, Food, Keyword, Recipe, Step, StepIngredient,
};
use mcp_tandoor::server::{
    accepts, added_summary, added_to_book_message, check_api_access, checked_summary,
    classify_keyword_failure, cleared_summary, cook_log_request, date_range, default_days_back,
    default_days_until_expiry, default_format, default_mode, default_servings,
    effective_servings, entry_id_from_number, entry_removed_message, filter_by_meal_type,
    find_by_name, group_by_checked, is_grouped_format, keyword_names, meal_plan_request,
    meal_plan_shopping_summary, name_or, next_auth_step, positions_where,
    recipe_book_deleted_message, recipe_book_entry_request, recipe_book_request,
    recipe_deleted_message, recipe_patch, recipe_request, scaling_applied, score_recipe,
    search_summary, shopping_positions, shopping_request_kind, step_lines, stocked_names,
    suggestions_summary, top_ranked, total_time, updated_summary, AddToRecipeBookParams,
    AuthStep, Candidate, CreateMealPlanParams, CreateRecipeBookParams, CreateRecipeParams,
    KeywordFailure, LogCookedRecipeParams, ShoppingRequest, UpdateRecipeParams,
};
use mcp_tandoor::TandoorClient;

fn food(id: i32, name: &str, onhand: bool, substitute: bool) -> Food {
    Food {
        id,
        name: name.to_string(),
        plural_name: None,
        description: None,
        recipe: None,
        food_onhand: onhand,
        substitute_onhand: substitute,
        supermarket_category: None,
        inherit_fields: vec![],
    }
}

fn line(id: i32, name: &str, header: bool, no_amount: bool) -> StepIngredient {
    StepIngredient {
        id,
        food: food(id, name, false, false),
        unit: None,
        note: None,
        order: id,
        is_header: header,
        no_amount,
    }
}

fn step(name: &str, instruction: &str, ingredients: Vec<StepIngredient>) -> Step {
    Step {
        id: 1,
        name: name.to_string(),
        instruction: instruction.to_string(),
        ingredients,
        time: None,
        order: 1,
        file: None,
        instructions_markdown: None,
        show_as_header: None,
        step_recipe: None,
        show_ingredients_table: None,
    }
}

fn recipe(steps: Vec<Step>) -> Recipe {
    Recipe {
        id: 10,
        name: "Soup".to_string(),
        description: None,
        instructions: None,
        servings: Some(2),
        working_time: Some(10),
        waiting_time: None,
        internal: false,
        show_ingredient_overview: None,
        keywords: vec![],
        steps,
        image: None,
        source_url: None,
        file_path: None,
        servings_text: None,
        private: None,
        new: None,
    }
}

#[test]
fn defaults() {
    assert_eq!(default_format(), "flat");
    assert_eq!(default_days_back(), 30);
    assert_eq!(default_servings(), 1);
    assert_eq!(default_mode(), "maximum-use");
    assert_eq!(default_days_until_expiry(), 3);
}

#[test]
fn authentication_order() {
    let creds = Some(("admin".to_string(), "pw".to_string()));
    assert_eq!(next_auth_step(true, Some("t".to_string()), creds.clone()), AuthStep::Ready);
    assert_eq!(
        next_auth_step(false, Some("t".to_string()), creds.clone()),
        AuthStep::UseToken("t".to_string())
    );
    assert_eq!(
        next_auth_step(false, None, creds),
        AuthStep::Login("admin".to_string(), "pw".to_string())
    );
    assert_eq!(
        next_auth_step(false, None, None),
        AuthStep::Fail("No authentication credentials available".to_string())
    );
}

#[test]
fn api_access_needs_token() {
    let mut c = TandoorClient::new("http://x".to_string());
    assert_eq!(check_api_access(&c), Err("No authentication token available".to_string()));
    c.set_token("t".to_string());
    assert_eq!(check_api_access(&c), Ok(()));
}

#[test]
fn total_times() {
    assert_eq!(total_time(Some(10), Some(15)), 25);
    assert_eq!(total_time(None, Some(15)), 15);
    assert_eq!(total_time(None, None), 0);
}

#[test]
fn search_summaries() {
    assert_eq!(search_summary(3, Some("pasta")), "Found 3 recipes matching 'pasta'");
    assert_eq!(search_summary(0, None), "Found 0 recipes");
}

#[test]
fn keyword_name_list() {
    let k = |id: i32, n: &str| Keyword { id, name: n.to_string(), label: None, description: None, numchild: None, full_name: None };
    assert_eq!(keyword_names(&vec![k(1, "quick"), k(2, "vegan")]), vec!["quick".to_string(), "vegan".to_string()]);
}

#[test]
fn instruction_lines() {
    let steps = vec![step("", "Boil water", vec![]), step("Sauce", "Stir", vec![])];
    assert_eq!(step_lines(&steps), vec!["Boil water".to_string(), "Sauce: Stir".to_string()]);
}

#[test]
fn servings_and_scaling() {
    assert_eq!(effective_servings(Some(6), Some(4)), 6);
    assert_eq!(effective_servings(None, Some(4)), 4);
    assert_eq!(effective_servings(None, None), 1);
    assert!(scaling_applied(Some(6), Some(4)));
    assert!(!scaling_applied(Some(4), Some(4)));
    assert!(!scaling_applied(Some(4), None));
    assert!(!scaling_applied(None, Some(4)));
    assert!(scaling_applied(Some(0), Some(0)));
}

#[test]
fn recipe_creation_request() {
    let r = recipe_request(CreateRecipeParams {
        name: "Stew".to_string(),
        description: Some("hearty".to_string()),
        instructions: Some("Simmer".to_string()),
        servings: Some(4),
        prep_time: Some(20),
        cook_time: None,
        keywords: Some(vec!["winter".to_string(), "easy".to_string()]),
    });
    assert_eq!(r.name, "Stew");
    assert_eq!(r.working_time, 20);
    assert_eq!(r.waiting_time, 0);
    assert_eq!(r.keywords.len(), 2);
    assert_eq!(r.keywords[1].name, "easy");
    assert_eq!(r.steps.len(), 1);
    assert_eq!(r.steps[0].instruction, "Simmer");
    assert_eq!(r.steps[0].order, 1);
    assert_eq!(r.steps[0].name, None);
    let bare = recipe_request(CreateRecipeParams {
        name: "Toast".to_string(),
        description: None,
        instructions: None,
        servings: None,
        prep_time: None,
        cook_time: Some(3),
        keywords: None,
    });
    assert!(bare.steps.is_empty());
    assert!(bare.keywords.is_empty());
    assert_eq!(bare.waiting_time, 3);
}

#[test]
fn grouping_by_checked() {
    let flags = vec![false, true, true, false];
    let (unchecked, checked) = group_by_checked(&flags);
    assert_eq!(unchecked, vec![0, 3]);
    assert_eq!(checked, vec![1, 2]);
    assert_eq!(positions_where(&vec![], true), Vec::<usize>::new());
    assert!(is_grouped_format("grouped"));
    assert!(!is_grouped_format("flat"));
}

#[test]
fn meal_type_filter() {
    let names = vec!["Dinner".to_string(), "Lunch".to_string(), "DINNER".to_string()];
    assert_eq!(filter_by_meal_type(&names, Some("dinner")), vec![0, 2]);
    assert_eq!(filter_by_meal_type(&names, None), vec![0, 1, 2]);
    assert_eq!(filter_by_meal_type(&names, Some("brunch")), Vec::<usize>::new());
}

#[test]
fn find_entry_by_food_name() {
    let names = vec!["Red Onion".to_string(), "Onion".to_string(), "Milk".to_string()];
    assert_eq!(find_by_name(&names, "onion"), Some(0));
    assert_eq!(find_by_name(&names, "MILK"), Some(2));
    assert_eq!(find_by_name(&names, "bread"), None);
    assert_eq!(entry_id_from_number(42), 42);
}

#[test]
fn summaries() {
    assert_eq!(added_summary(2, 1), "Added 2 items, 1 errors");
    assert_eq!(checked_summary(0, 0), "Checked 0 items, 0 errors");
    assert_eq!(updated_summary(3, 2), "Updated 3 items, 2 errors");
    assert_eq!(cleared_summary(4, 3), "Removed 4 checked items, updated pantry for 3 items");
    assert_eq!(suggestions_summary(1, 12), "Found 1 recipe suggestions using your 12 available ingredients");
    assert_eq!(
        meal_plan_shopping_summary(5, 2, "2024-01-01", "2024-01-07"),
        "Added 5 ingredients to shopping list from 2 meal plans (2024-01-01 to 2024-01-07)"
    );
    assert_eq!(date_range("2024-01-01", "2024-01-07"), "2024-01-01 to 2024-01-07");
    assert_eq!(recipe_deleted_message(9), "Recipe 9 deleted successfully");
    assert_eq!(recipe_book_deleted_message(4), "Recipe book 4 deleted");
    assert_eq!(entry_removed_message(6), "Removed recipe book entry 6");
    assert_eq!(added_to_book_message("Soup", "Winter"), "Added 'Soup' to book 'Winter'");
}

#[test]
fn shopping_request_kinds() {
    assert_eq!(shopping_request_kind(true, true), ShoppingRequest::Items);
    assert_eq!(shopping_request_kind(false, true), ShoppingRequest::Text);
    assert_eq!(shopping_request_kind(false, false), ShoppingRequest::Missing);
}

#[test]
fn pantry_names() {
    let foods = vec![food(1, "Rice", true, false), food(2, "Salt", false, false), food(3, "Butter", false, true)];
    assert_eq!(stocked_names(&foods), vec!["Rice".to_string(), "Butter".to_string()]);
}

#[test]
fn recipe_scoring() {
    let r = recipe(vec![
        step("", "a", vec![line(1, "Rice", false, false), line(2, "Spices", true, false)]),
        step("", "b", vec![line(3, "SALT", false, true), line(4, "Onion", false, false), line(5, "rice", false, false)]),
    ]);
    let pantry = vec!["rice".to_string(), "Salt".to_string()];
    let s = score_recipe(&r, &pantry);
    assert_eq!(s.total, 3);
    assert_eq!(s.matching, 2);
    assert_eq!(s.missing, vec!["Onion".to_string()]);
    assert_eq!(shopping_positions(&r), vec![(0, 0), (1, 1), (1, 2)]);
}

#[test]
fn suggestion_modes() {
    assert!(accepts("maximum-use", 1, 2, 1));
    assert!(!accepts("maximum-use", 2, 5, 3));
    assert!(accepts("expiring", 3, 10, 3));
    assert!(!accepts("expiring", 3, 10, 4));
    assert!(!accepts("expiring", 2, 10, 0));
    assert!(accepts("strict", 3, 5, 2));
    assert!(!accepts("strict", 1, 2, 1));
}

#[test]
fn ranking_by_share_then_order() {
    let c = |position: usize, matching: usize, total: usize| Candidate { position, matching, total };
    let cands = vec![c(0, 1, 2), c(1, 3, 4), c(2, 2, 4), c(3, 3, 4), c(4, 1, 1)];
    let top = top_ranked(&cands, 10);
    assert_eq!(top, vec![c(4, 1, 1), c(1, 3, 4), c(3, 3, 4), c(0, 1, 2), c(2, 2, 4)]);
    let top2 = top_ranked(&cands, 2);
    assert_eq!(top2, vec![c(4, 1, 1), c(1, 3, 4)]);
    assert_eq!(top_ranked(&vec![], 10), Vec::<Candidate>::new());
}

#[test]
fn meal_plan_requests() {
    let params = |date: &str| CreateMealPlanParams {
        recipe_id: Some(5),
        title: None,
        servings: 2,
        date: date.to_string(),
        meal_type: 1,
        note: Some("n".to_string()),
    };
    let ok = meal_plan_request(params("2024-03-09")).unwrap();
    assert_eq!(ok.date, CalendarDate { year: 2024, month: 3, day: 9 });
    assert_eq!(ok.recipe, Some(5));
    assert_eq!(ok.servings, 2);
    assert!(meal_plan_request(params("09/03/2024")).is_err());
    assert!(meal_plan_request(params("2024-02-30")).is_err());
}

#[test]
fn other_requests() {
    let c = cook_log_request(LogCookedRecipeParams { recipe_id: 3, servings: 1, rating: Some(5), comment: None });
    assert_eq!((c.recipe, c.servings, c.rating, c.comment), (3, 1, Some(5), None));
    let b = recipe_book_request(CreateRecipeBookParams { name: "Winter".to_string(), description: None });
    assert_eq!(b.name, "Winter");
    let e = recipe_book_entry_request(AddToRecipeBookParams { recipe_book: 2, recipe: 9 });
    assert_eq!((e.book, e.recipe), (2, 9));
    let p = recipe_patch(UpdateRecipeParams {
        id: 7,
        name: Some("New".to_string()),
        description: None,
        keywords: Some(vec![1, 2]),
        servings: None,
        cooking_time: Some(25),
        waiting_time: None,
        source_url: None,
        source_title: Some("ignored".to_string()),
    });
    assert_eq!(p.id, 7);
    assert_eq!(p.working_time, Some(25));
    assert_eq!(p.keyword_ids, Some(vec![1, 2]));
    assert_eq!(name_or(None, "unknown"), "unknown");
    assert_eq!(name_or(Some("Soup".to_string()), "unknown"), "Soup");
}

#[test]
fn keyword_failure_kinds() {
    assert_eq!(
        classify_keyword_failure("Not authenticated - please verify credentials and re-authenticate"),
        KeywordFailure::Authentication
    );
    assert_eq!(
        classify_keyword_failure("Failed to connect to Tandoor API: refused"),
        KeywordFailure::Connection
    );
    assert_eq!(classify_keyword_failure("Invalid response format"), KeywordFailure::Other);
}
