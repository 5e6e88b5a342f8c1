use mcp_tandoor::client::{
    is_bare_array, CalendarDate, CookLogDateError, Keyword, Method, Operation, PaginatedResponse, ShoppingListDecode,
};
use mcp_tandoor::client::types::KeywordFieldError;
use mcp_tandoor::dates::today_utc;
use mcp_tandoor::TandoorClient;

fn client() -> TandoorClient {
    TandoorClient::new("http://localhost:8080".to_string())
}

#[test]
fn new_client_has_no_token() {
    let c = client();
    assert!(!c.is_authenticated());
    assert_eq!(c.get_token(), None);
    assert_eq!(c.base_url(), "http://localhost:8080");
}

#[test]
fn auth_header_needs_token() {
    let mut c = client();
    assert_eq!(
        c.get_auth_header(),
        Err("Not authenticated - please verify credentials and re-authenticate".to_string())
    );
    c.set_token("abc".to_string());
    assert_eq!(c.get_auth_header(), Ok("Bearer abc".to_string()));
}

#[test]
fn set_token_replaces_earlier_token() {
    let mut c = client();
    c.set_token("first".to_string());
    c.set_token("second".to_string());
    assert_eq!(c.get_token(), Some("second"));
    assert_eq!(c.get_auth_header(), Ok("Bearer second".to_string()));
}

#[test]
fn token_preview_keeps_ten_bytes() {
    let mut c = client();
    assert_eq!(c.get_token_preview(), None);
    c.set_token("tda_00000000_0000".to_string());
    assert_eq!(c.get_token_preview(), Some("tda_000000...".to_string()));
    c.set_token("short".to_string());
    assert_eq!(c.get_token_preview(), Some("short...".to_string()));
}

#[test]
fn search_url_without_filters_has_no_query() {
    let c = client();
    assert_eq!(
        c.search_recipes_url(None, None, None, None, None, None, None),
        "http://localhost:8080/api/recipe/"
    );
}

#[test]
fn search_url_with_all_filters() {
    let c = client();
    let kws = [3i64, 7];
    let foods = [11i64];
    assert_eq!(
        c.search_recipes_url(Some("pasta al forno"), Some(5), Some(&kws), Some(&foods), Some(30), Some(4), Some(true)),
        "http://localhost:8080/api/recipe/?query=pasta%20al%20forno&page_size=5&keywords_or=3&keywords_or=7&foods_or=11&cooking_time=30&rating=4&random=true"
    );
}

#[test]
fn search_url_random_false_is_not_sent() {
    let c = client();
    assert_eq!(
        c.search_recipes_url(Some("pasta"), Some(5), None, None, None, None, Some(false)),
        "http://localhost:8080/api/recipe/?query=pasta&page_size=5"
    );
}

#[test]
fn search_url_encodes_utf8_and_reserved_bytes() {
    let c = client();
    assert_eq!(
        c.search_recipes_url(Some("crème&brûlée~_.-"), None, None, None, None, None, None),
        "http://localhost:8080/api/recipe/?query=cr%C3%A8me%26br%C3%BBl%C3%A9e~_.-"
    );
}

#[test]
fn search_url_negative_numbers() {
    let c = client();
    assert_eq!(
        c.search_recipes_url(None, Some(-1), None, None, Some(i64::MIN), None, None),
        "http://localhost:8080/api/recipe/?page_size=-1&cooking_time=-9223372036854775808"
    );
}

#[test]
fn food_search_url_encodes_query() {
    let c = client();
    assert_eq!(
        c.search_foods_url("olive oil", Some(1)),
        "http://localhost:8080/api/food/?query=olive%20oil&page_size=1"
    );
    assert_eq!(c.search_foods_url("", None), "http://localhost:8080/api/food/?query=");
}

#[test]
fn resource_urls() {
    let c = client();
    assert_eq!(c.auth_url(), "http://localhost:8080/api-token-auth/");
    assert_eq!(c.recipes_url(), "http://localhost:8080/api/recipe/");
    assert_eq!(c.recipe_url(42), "http://localhost:8080/api/recipe/42/");
    assert_eq!(c.import_url(), "http://localhost:8080/api/recipe-from-source/");
    assert_eq!(c.food_url(9), "http://localhost:8080/api/food/9/");
    assert_eq!(c.shopping_list_url(), "http://localhost:8080/api/shopping-list-entry/");
    assert_eq!(c.shopping_list_bulk_url(), "http://localhost:8080/api/shopping-list-entry/bulk/");
    assert_eq!(c.shopping_list_entry_url(5), "http://localhost:8080/api/shopping-list-entry/5/");
    assert_eq!(c.meal_plan_url(3), "http://localhost:8080/api/meal-plan/3/");
    assert_eq!(c.meal_types_url(), "http://localhost:8080/api/meal-type/");
    assert_eq!(c.keywords_url(), "http://localhost:8080/api/keyword/");
    assert_eq!(c.units_url(), "http://localhost:8080/api/unit/");
    assert_eq!(c.recipe_book_url(8), "http://localhost:8080/api/recipe-book/8/");
    assert_eq!(c.recipe_book_entry_url(12), "http://localhost:8080/api/recipe-book-entry/12/");
    assert_eq!(c.supermarkets_url(), "http://localhost:8080/api/supermarket/");
}

#[test]
fn optional_filter_urls() {
    let c = client();
    assert_eq!(c.meal_plans_url(None, None), "http://localhost:8080/api/meal-plan/");
    assert_eq!(
        c.meal_plans_url(Some("2024-01-01"), Some("2024-01-07")),
        "http://localhost:8080/api/meal-plan/?from_date=2024-01-01&to_date=2024-01-07"
    );
    assert_eq!(
        c.meal_plans_url(None, Some("2024-01-07")),
        "http://localhost:8080/api/meal-plan/?to_date=2024-01-07"
    );
    assert_eq!(c.cook_log_url(Some(4), None), "http://localhost:8080/api/cook-log/?recipe=4");
    assert_eq!(
        c.cook_log_url(Some(4), Some("2024-02-01")),
        "http://localhost:8080/api/cook-log/?recipe=4&from_date=2024-02-01"
    );
    assert_eq!(c.recipe_books_url(None), "http://localhost:8080/api/recipe-book/");
    assert_eq!(
        c.recipe_books_url(Some("weeknight dinners")),
        "http://localhost:8080/api/recipe-book/?query=weeknight%20dinners"
    );
    assert_eq!(c.recipe_book_entries_url(Some(2)), "http://localhost:8080/api/recipe-book-entry/?book=2");
    assert_eq!(c.recipe_book_entries_url(None), "http://localhost:8080/api/recipe-book-entry/");
    assert_eq!(c.unit_conversions_url(Some(77)), "http://localhost:8080/api/unit-conversion/?food=77");
    assert_eq!(c.unit_conversions_url(None), "http://localhost:8080/api/unit-conversion/");
}

#[test]
fn cook_log_url_for_days_adds_a_date() {
    let c = client();
    assert_eq!(
        c.cook_log_url_for_days(None, None),
        Ok("http://localhost:8080/api/cook-log/".to_string())
    );
    let url = c.cook_log_url_for_days(Some(3), Some(30)).unwrap();
    let prefix = "http://localhost:8080/api/cook-log/?recipe=3&from_date=";
    assert!(url.starts_with(prefix));
    let date = &url[prefix.len()..];
    assert_eq!(date.len(), 10);
    assert_eq!(&date[4..5], "-");
    assert_eq!(&date[7..8], "-");
    let today = today_utc().expect("a clock after 1970");
    assert_eq!(c.cook_log_url_for_days(Some(3), Some(30)), Ok(c.cook_log_url_since(Some(3), today, 30).unwrap()));
}

#[test]
fn cook_log_url_since_a_given_day() {
    let c = client();
    let today = CalendarDate { year: 2024, month: 3, day: 10 };
    assert_eq!(
        c.cook_log_url_since(Some(3), today, 30),
        Some("http://localhost:8080/api/cook-log/?recipe=3&from_date=2024-02-09".to_string())
    );
    assert_eq!(
        c.cook_log_url_since(None, today, 0),
        Some("http://localhost:8080/api/cook-log/?from_date=2024-03-10".to_string())
    );
    assert_eq!(
        c.cook_log_url_since(None, today, -1),
        Some("http://localhost:8080/api/cook-log/?from_date=2024-03-11".to_string())
    );
    assert_eq!(c.cook_log_url_since(None, CalendarDate { year: 2024, month: 2, day: 30 }, 1), None);
    assert_eq!(c.cook_log_url_since(None, today, i32::MAX), None);
}

#[test]
fn cook_log_start_dates_as_chrono_writes_them() {
    let c = client();
    let at = |year: i32, month: u32, day: u32, back: i32| {
        c.cook_log_url_since(None, CalendarDate { year, month, day }, back)
            .map(|u| u["http://localhost:8080/api/cook-log/?from_date=".len()..].to_string())
    };
    assert_eq!(at(5, 1, 10, 0), Some("0005-01-10".to_string()));
    assert_eq!(at(12345, 1, 10, 0), Some("+12345-01-10".to_string()));
    assert_eq!(at(-5, 1, 10, 0), Some("-0005-01-10".to_string()));
    assert_eq!(at(0, 3, 1, 1), Some("0000-02-29".to_string()));
    assert_eq!(at(2000, 2, 29, 0), Some("2000-02-29".to_string()));
    assert_eq!(at(1900, 2, 29, 0), None);
    assert_eq!(at(2023, 2, 29, 0), None);
    assert_eq!(at(2024, 4, 31, 0), None);
    assert_eq!(at(2024, 13, 1, 0), None);
    assert_eq!(at(262142, 12, 31, 0), Some("+262142-12-31".to_string()));
    assert_eq!(at(262143, 1, 1, 0), None);
    assert_eq!(at(-262143, 1, 1, 0), Some("-262143-01-01".to_string()));
    assert_eq!(at(-262144, 12, 31, 0), None);
}

#[test]
fn a_second_token_replaces_the_first() {
    let mut c = client();
    c.set_token("first".to_string());
    c.set_token("second".to_string());
    assert_eq!(c.get_token(), Some("second"));
    assert_eq!(c.get_auth_header(), Ok("Bearer second".to_string()));
    assert_eq!(c.base_url(), "http://localhost:8080");
}

#[test]
fn cook_log_url_for_days_outside_the_calendar() {
    let c = client();
    assert_eq!(c.cook_log_url_for_days(Some(1), Some(i32::MAX)), Err(CookLogDateError::OutOfCalendar));
    assert_eq!(c.cook_log_url_for_days(None, Some(i32::MIN)), Err(CookLogDateError::OutOfCalendar));
}

#[test]
fn methods_of_requests() {
    assert_eq!(Operation::SearchRecipes.method(), Method::Get);
    assert_eq!(Operation::CreateRecipe.method(), Method::Post);
    assert_eq!(Operation::UpdateRecipe(1).method(), Method::Patch);
    assert_eq!(Operation::DeleteMealPlan.method(), Method::Delete);
    assert_eq!(Operation::RemoveFromRecipeBook(3).method(), Method::Delete);
    assert_eq!(Operation::UpdateFoodAvailability.method(), Method::Patch);
}

#[test]
fn successful_status_is_no_failure() {
    assert_eq!(Operation::SearchRecipes.status_failure(200, "200 OK", None), None);
    assert_eq!(Operation::CreateRecipe.status_failure(201, "201 Created", None), None);
    assert_eq!(Operation::DeleteRecipe(1).status_failure(204, "204 No Content", None), None);
    assert_eq!(Operation::ImportRecipe.status_failure(400, "400 Bad Request", Some("x")), None);
}

#[test]
fn recipe_failures_name_the_id() {
    let op = Operation::GetRecipe(999999);
    assert_eq!(
        op.status_failure(404, "404 Not Found", Some("gone")),
        Some("Recipe with ID 999999 not found".to_string())
    );
    assert_eq!(
        op.status_failure(403, "403 Forbidden", Some("no")),
        Some("Access denied to recipe 999999".to_string())
    );
    assert_eq!(
        op.status_failure(500, "500 Internal Server Error", None),
        Some("Failed to get recipe: 500 Internal Server Error - Unable to read error response".to_string())
    );
}

#[test]
fn failures_with_and_without_body() {
    assert_eq!(
        Operation::SearchRecipes.status_failure(400, "400 Bad Request", Some("bad")),
        Some("Failed to search recipes: 400 Bad Request - bad".to_string())
    );
    assert_eq!(
        Operation::AddToShoppingList.status_failure(400, "400 Bad Request", Some("ignored")),
        Some("Failed to add to shopping list: 400 Bad Request".to_string())
    );
    assert_eq!(
        Operation::UpdateRecipe(7).status_failure(400, "400 Bad Request", None),
        Some("Failed to update recipe 7: 400 Bad Request - ".to_string())
    );
    assert_eq!(
        Operation::DeleteRecipeBook(2).status_failure(404, "404 Not Found", None),
        Some("Failed to delete recipe book 2: 404 Not Found".to_string())
    );
    assert_eq!(
        Operation::RemoveFromRecipeBook(5).status_failure(404, "404 Not Found", None),
        Some("Failed to remove recipe book entry 5: 404 Not Found".to_string())
    );
    assert_eq!(
        Operation::GetUnitConversions.status_failure(502, "502 Bad Gateway", None),
        Some("Failed to get unit conversions: 502 Bad Gateway".to_string())
    );
}

#[test]
fn keyword_and_unit_failures_by_status() {
    let k = Operation::GetKeywords;
    assert_eq!(
        k.status_failure(401, "401 Unauthorized", Some("b")),
        Some("Authentication expired or invalid. Please re-authenticate.".to_string())
    );
    assert_eq!(
        k.status_failure(403, "403 Forbidden", Some("b")),
        Some("Access denied to keywords endpoint. Check user permissions.".to_string())
    );
    assert_eq!(
        k.status_failure(404, "404 Not Found", Some("b")),
        Some("Keywords endpoint not found. Check Tandoor version and API availability.".to_string())
    );
    assert_eq!(
        k.status_failure(503, "503 Service Unavailable", Some("down")),
        Some("Tandoor server error getting keywords (503 Service Unavailable): down".to_string())
    );
    assert_eq!(
        k.status_failure(418, "418 I'm a teapot", Some("tea")),
        Some("Failed to get keywords with status 418 I'm a teapot: tea".to_string())
    );
    assert_eq!(
        Operation::GetUnits.status_failure(500, "500 Internal Server Error", None),
        Some("Tandoor server error getting units (500 Internal Server Error): Unable to read error response".to_string())
    );
    assert_eq!(
        Operation::GetUnits.status_failure(403, "403 Forbidden", None),
        Some("Access denied to units endpoint. Check user permissions.".to_string())
    );
}

#[test]
fn connect_and_decode_failures() {
    assert_eq!(
        Operation::SearchFoods.connect_failure("timed out"),
        "Failed to connect to Tandoor API: timed out"
    );
    assert_eq!(Operation::GetMealTypes.connect_failure("timed out"), "timed out");
    assert_eq!(
        Operation::GetKeywords.decode_failure("eof"),
        "Invalid response format from Tandoor server: eof"
    );
    assert_eq!(
        Operation::ImportRecipe.decode_failure("eof"),
        "Invalid response from recipe import endpoint: eof"
    );
    assert_eq!(Operation::GetRecipe(1).decode_failure("eof"), "Invalid response format: eof");
    assert_eq!(Operation::GetSupermarkets.decode_failure("eof"), "eof");
    assert_eq!(ShoppingListDecode::Read.message("x"), "Failed to read response: x");
    assert_eq!(ShoppingListDecode::Array.message("x"), "Invalid array response format: x");
    assert_eq!(ShoppingListDecode::Paginated.message("x"), "Invalid paginated response format: x");
}

#[test]
fn body_shape_detection() {
    assert!(is_bare_array("[]"));
    assert!(is_bare_array("  \n\t[{\"id\": 1}]"));
    assert!(is_bare_array("\u{3000}["));
    assert!(!is_bare_array("{\"count\": 0}"));
    assert!(!is_bare_array(""));
    assert!(!is_bare_array("   "));
    assert!(!is_bare_array("x["));
}

#[test]
fn bare_array_becomes_single_page() {
    let page = PaginatedResponse::from_results(vec![1, 2, 3]);
    assert_eq!(page.count, 3);
    assert_eq!(page.next, None);
    assert_eq!(page.previous, None);
    assert_eq!(page.results, vec![1, 2, 3]);
    let empty: PaginatedResponse<u8> = PaginatedResponse::from_results(vec![]);
    assert_eq!(empty.count, 0);
}

#[test]
fn keyword_with_label_only_takes_label_as_name() {
    let k = Keyword::from_fields(Some(1), None, Some("dinner".to_string()), None, None, None).unwrap();
    assert_eq!(k.name, "dinner");
    assert_eq!(k.label, Some("dinner".to_string()));
}

#[test]
fn keyword_name_wins_over_label() {
    let k = Keyword::from_fields(Some(2), Some("breakfast".to_string()), Some("morning".to_string()), None, Some(0), None).unwrap();
    assert_eq!(k.name, "breakfast");
    assert_eq!(k.id, 2);
    assert_eq!(k.numchild, Some(0));
}

#[test]
fn keyword_errors() {
    assert_eq!(
        Keyword::from_fields(None, Some("x".to_string()), None, None, None, None),
        Err(KeywordFieldError::MissingId)
    );
    assert_eq!(
        Keyword::from_fields(Some(3), None, None, None, None, None),
        Err(KeywordFieldError::MissingName)
    );
}
