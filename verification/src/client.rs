//! The Tandoor API client: its authentication state, the address and method
//! of every request, and what each request's failure is reported as.
//!
//! Sending a request and decoding its answer is the transport's work; this
//! module decides everything around it.
pub mod types;

pub use self::types::{
    AuthRequest, AuthToken, CalendarDate, CreateCookLogRequest, CreateFoodRequest,
    CreateKeywordRequest, CreateMealPlanRequest, CreateRecipeBookEntryRequest,
    CreateRecipeBookRequest, CreateRecipeRequest, CreateStepIngredientRequest, CreateStepRequest,
    CreateUnitRequest, Food, InheritField, Keyword, MealPlan, MealType, PaginatedResponse,
    PropertyType, Recipe, RecipeImport, ShoppingListEntry, Step, StepIngredient, Supermarket, Unit,
    UpdateFoodRequest,
};

use crate::dates::{format_date, iso_date_text, is_calendar_date, shift_date, shifted_date, timestamp_date, today_utc};
use crate::text::{
    append_decimal, decimal, first_visible_is, joined, percent_encoded, starts_visibly_with,
    url_encode, views, join_with,
};
use vstd::prelude::*;
use vstd::string::*;
use vstd::utf8::*;

verus! {

// ---------------------------------------------------------------------------
// Small string helpers
// ---------------------------------------------------------------------------

/// `a` followed by `b`.
pub fn concat2(a: &str, b: &str) -> (r: String)
    ensures
        r@ == a@ + b@,
{
    let mut r = String::from_str(a);
    r.append(b);
    r
}

/// `a`, `b`, `c` in order.
pub fn concat3(a: &str, b: &str, c: &str) -> (r: String)
    ensures
        r@ == a@ + b@ + c@,
{
    let mut r = String::from_str(a);
    r.append(b);
    r.append(c);
    r
}

/// `a`, `b`, `c`, `d` in order.
pub fn concat4(a: &str, b: &str, c: &str, d: &str) -> (r: String)
    ensures
        r@ == a@ + b@ + c@ + d@,
{
    let mut r = String::from_str(a);
    r.append(b);
    r.append(c);
    r.append(d);
    r
}

/// `prefix` followed by the decimal rendering of `n`.
pub fn with_decimal(prefix: &str, n: i64) -> (r: String)
    ensures
        r@ == prefix@ + decimal(n as int),
{
    let mut r = String::from_str(prefix);
    append_decimal(&mut r, n);
    r
}

/// A URL with its query: unchanged when there are no parameters, otherwise
/// `?` and the parameters joined by `&`.
pub open spec fn with_query(url: Seq<char>, params: Seq<Seq<char>>) -> Seq<char> {
    if params.len() == 0 {
        url
    } else {
        url + "?"@ + joined(params, "&"@)
    }
}

fn finish_url(url: String, params: &Vec<String>) -> (r: String)
    ensures
        r@ == with_query(url@, views(params@)),
{
    if params.len() == 0 {
        url
    } else {
        let mut r = url;
        r.append("?");
        let q = join_with(params, "&");
        r.append(q.as_str());
        r
    }
}

/// The parameter `name` (with its `=`) and a value, when there is one.
pub open spec fn opt_param(name: Seq<char>, value: Option<Seq<char>>) -> Seq<Seq<char>> {
    match value {
        Some(v) => seq![name + v],
        None => Seq::empty(),
    }
}

/// The decimal rendering of an optional number.
pub open spec fn opt_decimal(value: Option<int>) -> Option<Seq<char>> {
    match value {
        Some(v) => Some(decimal(v)),
        None => None,
    }
}

/// The parameter `name` once for each value, in order.
pub open spec fn repeated_param(name: Seq<char>, values: Option<Seq<i64>>) -> Seq<Seq<char>> {
    match values {
        Some(vs) => vs.map_values(|v: i64| name + decimal(v as int)),
        None => Seq::empty(),
    }
}

/// The percent-encoding of a text, over its UTF-8 bytes.
pub open spec fn encoded(s: Seq<char>) -> Seq<char> {
    percent_encoded(encode_utf8(s))
}

fn push_repeated(params: &mut Vec<String>, name: &str, values: Option<&[i64]>)
    ensures
        views(final(params)@) == views(old(params)@) + repeated_param(
            name@,
            match values {
                Some(vs) => Some(vs@),
                None => None,
            },
        ),
{
    if let Some(vs) = values {
        let ghost start = views(params@);
        let mut i: usize = 0;
        while i < vs.len()
            invariant
                i <= vs@.len(),
                views(params@) == start + vs@.subrange(0, i as int).map_values(
                    |v: i64| name@ + decimal(v as int),
                ),
            decreases vs.len() - i,
        {
            let p = with_decimal(name, vs[i]);
            let ghost before = params@;
            params.push(p);
            assert(views(params@) =~= views(before).push(p@));
            assert(vs@.subrange(0, i + 1).map_values(|v: i64| name@ + decimal(v as int))
                =~= vs@.subrange(0, i as int).map_values(|v: i64| name@ + decimal(v as int)).push(
                name@ + decimal(vs@[i as int] as int),
            ));
            i = i + 1;
        }
        assert(vs@.subrange(0, vs@.len() as int) =~= vs@);
    } else {
        assert(views(params@) =~= views(params@) + Seq::<Seq<char>>::empty());
    }
}

// ---------------------------------------------------------------------------
// Requests and how their failures read
// ---------------------------------------------------------------------------

/// HTTP method of a request.
#[derive(Debug, Clone, Copy, PartialEq, Eq)]
pub enum Method {
    Get,
    Post,
    Patch,
    Delete,
}

/// The requests the client makes. Requests whose failure message names an
/// identifier carry it.
#[derive(Debug, Clone, Copy, PartialEq, Eq)]
pub enum Operation {
    Authenticate,
    SearchRecipes,
    GetRecipe(i32),
    CreateRecipe,
    ImportRecipe,
    SearchFoods,
    UpdateFoodAvailability,
    GetShoppingList,
    AddToShoppingList,
    AddBulkToShoppingList,
    UpdateShoppingListEntry,
    DeleteShoppingListEntry,
    GetMealPlans,
    CreateMealPlan,
    DeleteMealPlan,
    GetMealTypes,
    GetCookLog,
    LogCookedRecipe,
    GetKeywords,
    GetUnits,
    UpdateRecipe(i32),
    DeleteRecipe(i32),
    GetRecipeBooks,
    CreateRecipeBook,
    DeleteRecipeBook(i32),
    GetRecipeBookEntries,
    AddToRecipeBook,
    RemoveFromRecipeBook(i32),
    GetSupermarkets,
    GetUnitConversions,
}

/// The method each request uses.
pub open spec fn method_of(op: Operation) -> Method {
    match op {
        Operation::Authenticate | Operation::CreateRecipe | Operation::ImportRecipe
        | Operation::AddToShoppingList | Operation::AddBulkToShoppingList
        | Operation::CreateMealPlan | Operation::LogCookedRecipe | Operation::CreateRecipeBook
        | Operation::AddToRecipeBook => Method::Post,
        Operation::UpdateFoodAvailability | Operation::UpdateShoppingListEntry
        | Operation::UpdateRecipe(_) => Method::Patch,
        Operation::DeleteShoppingListEntry | Operation::DeleteMealPlan
        | Operation::DeleteRecipe(_) | Operation::DeleteRecipeBook(_)
        | Operation::RemoveFromRecipeBook(_) => Method::Delete,
        _ => Method::Get,
    }
}

/// A status in 200..=299.
pub open spec fn is_success(code: u16) -> bool {
    200 <= code && code <= 299
}

/// The request's answer status is checked (the import request reports its
/// outcome in the answer body instead).
pub open spec fn checks_status(op: Operation) -> bool {
    !(op is ImportRecipe)
}

/// The failure message quotes the answer body.
pub open spec fn reports_body(op: Operation) -> bool {
    match op {
        Operation::Authenticate | Operation::SearchRecipes | Operation::GetRecipe(_)
        | Operation::CreateRecipe | Operation::SearchFoods | Operation::GetShoppingList
        | Operation::AddBulkToShoppingList | Operation::GetMealPlans | Operation::GetCookLog
        | Operation::GetKeywords | Operation::GetUnits | Operation::UpdateRecipe(_)
        | Operation::CreateRecipeBook | Operation::AddToRecipeBook => true,
        _ => false,
    }
}

/// What stands for the body when it cannot be read.
pub open spec fn unreadable_body(op: Operation) -> Seq<char> {
    match op {
        Operation::UpdateRecipe(_) | Operation::CreateRecipeBook | Operation::AddToRecipeBook => Seq::empty(),
        _ => "Unable to read error response"@,
    }
}

/// `status` and the body as the message quotes them: `status - body`.
pub open spec fn status_and_body(status: Seq<char>, body: Seq<char>) -> Seq<char> {
    status + " - "@ + body
}

/// The error reported when a request's answer has an unsuccessful status.
pub open spec fn failure_text(op: Operation, code: u16, status: Seq<char>, body: Seq<char>) -> Seq<char> {
    match op {
        Operation::Authenticate => "Failed to authenticate: "@ + status_and_body(status, body),
        Operation::SearchRecipes => "Failed to search recipes: "@ + status_and_body(status, body),
        Operation::GetRecipe(id) => if code == 404 {
            "Recipe with ID "@ + decimal(id as int) + " not found"@
        } else if code == 403 {
            "Access denied to recipe "@ + decimal(id as int)
        } else {
            "Failed to get recipe: "@ + status_and_body(status, body)
        },
        Operation::CreateRecipe => "Failed to create recipe: "@ + status_and_body(status, body),
        Operation::ImportRecipe => "Failed to import recipe: "@ + status,
        Operation::SearchFoods => "Failed to search foods: "@ + status_and_body(status, body),
        Operation::UpdateFoodAvailability => "Failed to update food availability: "@ + status,
        Operation::GetShoppingList => "Failed to get shopping list: "@ + status_and_body(status, body),
        Operation::AddToShoppingList => "Failed to add to shopping list: "@ + status,
        Operation::AddBulkToShoppingList => "Failed to add bulk to shopping list: "@
            + status_and_body(status, body),
        Operation::UpdateShoppingListEntry => "Failed to update shopping list entry: "@ + status,
        Operation::DeleteShoppingListEntry => "Failed to delete shopping list entry: "@ + status,
        Operation::GetMealPlans => "Failed to get meal plans: "@ + status_and_body(status, body),
        Operation::CreateMealPlan => "Failed to create meal plan: "@ + status,
        Operation::DeleteMealPlan => "Failed to delete meal plan: "@ + status,
        Operation::GetMealTypes => "Failed to get meal types: "@ + status,
        Operation::GetCookLog => "Failed to get cook log: "@ + status_and_body(status, body),
        Operation::LogCookedRecipe => "Failed to log cooked recipe: "@ + status,
        Operation::GetKeywords => if code == 401 {
            "Authentication expired or invalid. Please re-authenticate."@
        } else if code == 403 {
            "Access denied to keywords endpoint. Check user permissions."@
        } else if code == 404 {
            "Keywords endpoint not found. Check Tandoor version and API availability."@
        } else if 500 <= code && code <= 599 {
            "Tandoor server error getting keywords ("@ + status + "): "@ + body
        } else {
            "Failed to get keywords with status "@ + status + ": "@ + body
        },
        Operation::GetUnits => if code == 401 {
            "Authentication expired or invalid. Please re-authenticate."@
        } else if code == 403 {
            "Access denied to units endpoint. Check user permissions."@
        } else if code == 404 {
            "Units endpoint not found. Check Tandoor version and API availability."@
        } else if 500 <= code && code <= 599 {
            "Tandoor server error getting units ("@ + status + "): "@ + body
        } else {
            "Failed to get units with status "@ + status + ": "@ + body
        },
        Operation::UpdateRecipe(id) => "Failed to update recipe "@ + decimal(id as int) + ": "@
            + status_and_body(status, body),
        Operation::DeleteRecipe(id) => "Failed to delete recipe "@ + decimal(id as int) + ": "@
            + status,
        Operation::GetRecipeBooks => "Failed to get recipe books: "@ + status,
        Operation::CreateRecipeBook => "Failed to create recipe book: "@ + status_and_body(status, body),
        Operation::DeleteRecipeBook(id) => "Failed to delete recipe book "@ + decimal(id as int)
            + ": "@ + status,
        Operation::GetRecipeBookEntries => "Failed to get recipe book entries: "@ + status,
        Operation::AddToRecipeBook => "Failed to add recipe to book: "@ + status_and_body(status, body),
        Operation::RemoveFromRecipeBook(id) => "Failed to remove recipe book entry "@ + decimal(
            id as int,
        ) + ": "@ + status,
        Operation::GetSupermarkets => "Failed to get supermarkets: "@ + status,
        Operation::GetUnitConversions => "Failed to get unit conversions: "@ + status,
    }
}

/// Connection failures are prefixed with the API name, except for the
/// requests that pass the transport's error through as it is.
pub open spec fn wraps_connect_error(op: Operation) -> bool {
    match op {
        Operation::UpdateFoodAvailability | Operation::AddToShoppingList
        | Operation::UpdateShoppingListEntry | Operation::DeleteShoppingListEntry
        | Operation::CreateMealPlan | Operation::DeleteMealPlan | Operation::GetMealTypes
        | Operation::LogCookedRecipe => false,
        _ => true,
    }
}

/// The error reported when a request cannot be sent.
pub open spec fn connect_failure_text(op: Operation, err: Seq<char>) -> Seq<char> {
    if wraps_connect_error(op) {
        "Failed to connect to Tandoor API: "@ + err
    } else {
        err
    }
}

/// The error reported when an answer cannot be decoded (the shopping list
/// has its own, see `ShoppingListDecode`).
pub open spec fn decode_failure_text(op: Operation, err: Seq<char>) -> Seq<char> {
    match op {
        Operation::Authenticate | Operation::SearchRecipes | Operation::GetRecipe(_)
        | Operation::CreateRecipe | Operation::SearchFoods | Operation::AddBulkToShoppingList
        | Operation::GetMealPlans | Operation::GetCookLog => "Invalid response format: "@ + err,
        Operation::GetKeywords | Operation::GetUnits => "Invalid response format from Tandoor server: "@
            + err,
        Operation::ImportRecipe => "Invalid response from recipe import endpoint: "@ + err,
        _ => err,
    }
}

impl Operation {
    /// The HTTP method of this request.
    pub fn method(&self) -> (m: Method)
        ensures
            m == method_of(*self),
    {
        match self {
            Operation::Authenticate | Operation::CreateRecipe | Operation::ImportRecipe
            | Operation::AddToShoppingList | Operation::AddBulkToShoppingList
            | Operation::CreateMealPlan | Operation::LogCookedRecipe
            | Operation::CreateRecipeBook | Operation::AddToRecipeBook => Method::Post,
            Operation::UpdateFoodAvailability | Operation::UpdateShoppingListEntry
            | Operation::UpdateRecipe(_) => Method::Patch,
            Operation::DeleteShoppingListEntry | Operation::DeleteMealPlan
            | Operation::DeleteRecipe(_) | Operation::DeleteRecipeBook(_)
            | Operation::RemoveFromRecipeBook(_) => Method::Delete,
            _ => Method::Get,
        }
    }

    /// Whether an answer with status `code` is taken as it is: a status in
    /// 200..=299, or any status for the import request.
    pub fn accepts_status(&self, code: u16) -> (b: bool)
        ensures
            b == (is_success(code) || !checks_status(*self)),
    {
        (200 <= code && code <= 299) || matches!(self, Operation::ImportRecipe)
    }

    /// Whether the failure message of this request quotes the answer body.
    pub fn reports_body(&self) -> (b: bool)
        ensures
            b == reports_body(*self),
    {
        match self {
            Operation::Authenticate | Operation::SearchRecipes | Operation::GetRecipe(_)
            | Operation::CreateRecipe | Operation::SearchFoods | Operation::GetShoppingList
            | Operation::AddBulkToShoppingList | Operation::GetMealPlans | Operation::GetCookLog
            | Operation::GetKeywords | Operation::GetUnits | Operation::UpdateRecipe(_)
            | Operation::CreateRecipeBook | Operation::AddToRecipeBook => true,
            _ => false,
        }
    }

    /// The error for an answer with status `code`, shown as `status`, and the
    /// answer body (`None` when it could not be read); `None` when the status
    /// is accepted.
    pub fn status_failure(&self, code: u16, status: &str, body: Option<&str>) -> (r: Option<
        String,
    >)
        ensures
            r is None <==> (is_success(code) || !checks_status(*self)),
            r matches Some(m) ==> m@ == failure_text(
                *self,
                code,
                status@,
                match body {
                    Some(b) => b@,
                    None => unreadable_body(*self),
                },
            ),
    {
        if (200 <= code && code <= 299) || matches!(self, Operation::ImportRecipe) {
            return None;
        }
        let fallback = match self {
            Operation::UpdateRecipe(_) | Operation::CreateRecipeBook | Operation::AddToRecipeBook => "",
            _ => "Unable to read error response",
        };
        let b: &str = match body {
            Some(b) => b,
            None => fallback,
        };
        let sb = concat3(status, " - ", b);
        proof {
            reveal_strlit("");
        }
        let m = match self {
            Operation::Authenticate => concat2("Failed to authenticate: ", sb.as_str()),
            Operation::SearchRecipes => concat2("Failed to search recipes: ", sb.as_str()),
            Operation::GetRecipe(id) => {
                if code == 404 {
                    let mut m = with_decimal("Recipe with ID ", *id as i64);
                    m.append(" not found");
                    m
                } else if code == 403 {
                    with_decimal("Access denied to recipe ", *id as i64)
                } else {
                    concat2("Failed to get recipe: ", sb.as_str())
                }
            },
            Operation::CreateRecipe => concat2("Failed to create recipe: ", sb.as_str()),
            Operation::ImportRecipe => concat2("Failed to import recipe: ", status),
            Operation::SearchFoods => concat2("Failed to search foods: ", sb.as_str()),
            Operation::UpdateFoodAvailability => concat2(
                "Failed to update food availability: ",
                status,
            ),
            Operation::GetShoppingList => concat2("Failed to get shopping list: ", sb.as_str()),
            Operation::AddToShoppingList => concat2("Failed to add to shopping list: ", status),
            Operation::AddBulkToShoppingList => concat2(
                "Failed to add bulk to shopping list: ",
                sb.as_str(),
            ),
            Operation::UpdateShoppingListEntry => concat2(
                "Failed to update shopping list entry: ",
                status,
            ),
            Operation::DeleteShoppingListEntry => concat2(
                "Failed to delete shopping list entry: ",
                status,
            ),
            Operation::GetMealPlans => concat2("Failed to get meal plans: ", sb.as_str()),
            Operation::CreateMealPlan => concat2("Failed to create meal plan: ", status),
            Operation::DeleteMealPlan => concat2("Failed to delete meal plan: ", status),
            Operation::GetMealTypes => concat2("Failed to get meal types: ", status),
            Operation::GetCookLog => concat2("Failed to get cook log: ", sb.as_str()),
            Operation::LogCookedRecipe => concat2("Failed to log cooked recipe: ", status),
            Operation::GetKeywords => {
                if code == 401 {
                    String::from_str("Authentication expired or invalid. Please re-authenticate.")
                } else if code == 403 {
                    String::from_str("Access denied to keywords endpoint. Check user permissions.")
                } else if code == 404 {
                    String::from_str(
                        "Keywords endpoint not found. Check Tandoor version and API availability.",
                    )
                } else if 500 <= code && code <= 599 {
                    concat4("Tandoor server error getting keywords (", status, "): ", b)
                } else {
                    concat4("Failed to get keywords with status ", status, ": ", b)
                }
            },
            Operation::GetUnits => {
                if code == 401 {
                    String::from_str("Authentication expired or invalid. Please re-authenticate.")
                } else if code == 403 {
                    String::from_str("Access denied to units endpoint. Check user permissions.")
                } else if code == 404 {
                    String::from_str(
                        "Units endpoint not found. Check Tandoor version and API availability.",
                    )
                } else if 500 <= code && code <= 599 {
                    concat4("Tandoor server error getting units (", status, "): ", b)
                } else {
                    concat4("Failed to get units with status ", status, ": ", b)
                }
            },
            Operation::UpdateRecipe(id) => {
                let mut m = with_decimal("Failed to update recipe ", *id as i64);
                m.append(": ");
                m.append(sb.as_str());
                m
            },
            Operation::DeleteRecipe(id) => {
                let mut m = with_decimal("Failed to delete recipe ", *id as i64);
                m.append(": ");
                m.append(status);
                m
            },
            Operation::GetRecipeBooks => concat2("Failed to get recipe books: ", status),
            Operation::CreateRecipeBook => concat2("Failed to create recipe book: ", sb.as_str()),
            Operation::DeleteRecipeBook(id) => {
                let mut m = with_decimal("Failed to delete recipe book ", *id as i64);
                m.append(": ");
                m.append(status);
                m
            },
            Operation::GetRecipeBookEntries => concat2(
                "Failed to get recipe book entries: ",
                status,
            ),
            Operation::AddToRecipeBook => concat2("Failed to add recipe to book: ", sb.as_str()),
            Operation::RemoveFromRecipeBook(id) => {
                let mut m = with_decimal("Failed to remove recipe book entry ", *id as i64);
                m.append(": ");
                m.append(status);
                m
            },
            Operation::GetSupermarkets => concat2("Failed to get supermarkets: ", status),
            Operation::GetUnitConversions => concat2("Failed to get unit conversions: ", status),
        };
        Some(m)
    }

    /// The error for a request that could not be sent, from the transport's
    /// error text.
    pub fn connect_failure(&self, err: &str) -> (r: String)
        ensures
            r@ == connect_failure_text(*self, err@),
    {
        match self {
            Operation::UpdateFoodAvailability | Operation::AddToShoppingList
            | Operation::UpdateShoppingListEntry | Operation::DeleteShoppingListEntry
            | Operation::CreateMealPlan | Operation::DeleteMealPlan | Operation::GetMealTypes
            | Operation::LogCookedRecipe => String::from_str(err),
            _ => concat2("Failed to connect to Tandoor API: ", err),
        }
    }

    /// The error for an answer that could not be decoded, from the decoder's
    /// error text.
    pub fn decode_failure(&self, err: &str) -> (r: String)
        ensures
            r@ == decode_failure_text(*self, err@),
    {
        match self {
            Operation::Authenticate | Operation::SearchRecipes | Operation::GetRecipe(_)
            | Operation::CreateRecipe | Operation::SearchFoods
            | Operation::AddBulkToShoppingList | Operation::GetMealPlans
            | Operation::GetCookLog => concat2("Invalid response format: ", err),
            Operation::GetKeywords | Operation::GetUnits => concat2(
                "Invalid response format from Tandoor server: ",
                err,
            ),
            Operation::ImportRecipe => concat2("Invalid response from recipe import endpoint: ", err),
            _ => String::from_str(err),
        }
    }
}

/// The stages at which reading the shopping list can fail.
#[derive(Debug, Clone, Copy, PartialEq, Eq)]
pub enum ShoppingListDecode {
    /// The body could not be read as text.
    Read,
    /// The body is a bare array that did not decode.
    Array,
    /// The body is a paginated object that did not decode.
    Paginated,
}

pub open spec fn shopping_list_decode_text(stage: ShoppingListDecode, err: Seq<char>) -> Seq<char> {
    match stage {
        ShoppingListDecode::Read => "Failed to read response: "@ + err,
        ShoppingListDecode::Array => "Invalid array response format: "@ + err,
        ShoppingListDecode::Paginated => "Invalid paginated response format: "@ + err,
    }
}

impl ShoppingListDecode {
    /// The error reported at this stage, from the underlying error text.
    pub fn message(&self, err: &str) -> (r: String)
        ensures
            r@ == shopping_list_decode_text(*self, err@),
    {
        match self {
            ShoppingListDecode::Read => concat2("Failed to read response: ", err),
            ShoppingListDecode::Array => concat2("Invalid array response format: ", err),
            ShoppingListDecode::Paginated => concat2("Invalid paginated response format: ", err),
        }
    }
}

/// The cook log's start date for a given today's date: `days` days
/// earlier, written `YYYY-MM-DD`; nothing when today's date is no date
/// chrono can hold or the start date would leave its calendar.
pub open spec fn start_date_text(year: int, month: int, day: int, days: int) -> Option<Seq<char>> {
    if !is_calendar_date(year, month, day) {
        None
    } else {
        match shifted_date(year, month, day, days) {
            Some(s) => Some(iso_date_text(s.0, s.1, s.2)),
            None => None,
        }
    }
}

/// A date that a reading of the clock can give: the UTC date of some time
/// at or after the Unix epoch.
pub open spec fn is_clock_date(year: int, month: int, day: int) -> bool {
    exists|secs: int, nanos: int|
        secs >= 0 && 0 <= nanos < 1_000_000_000 && #[trigger] timestamp_date(secs, nanos) == Some(
            (year, month, day),
        )
}

/// Why the cook log's start date could not be computed.
#[derive(Debug, Clone, Copy, PartialEq, Eq)]
pub enum CookLogDateError {
    /// The clock reads before 1970, or outside chrono's calendar.
    ClockUnreadable,
    /// The start date would leave chrono's calendar.
    OutOfCalendar,
}

/// The recipe filter of the cook log: `recipe=ID` when a recipe is given.
pub open spec fn recipe_filter(recipe_id: Option<i32>) -> Seq<Seq<char>> {
    opt_param(
        "recipe="@,
        opt_decimal(
            match recipe_id {
                Some(id) => Some(id as int),
                None => None,
            },
        ),
    )
}

/// Whether a shopping-list answer is a bare array (it starts with `[` once
/// leading white space is trimmed) rather than a paginated object.
pub fn is_bare_array(body: &str) -> (b: bool)
    ensures
        b == first_visible_is(body@, '['),
{
    starts_visibly_with(body, '[')
}

// ---------------------------------------------------------------------------
// The client
// ---------------------------------------------------------------------------

/// The error text when a request needs a token and there is none.
pub open spec fn not_authenticated_text() -> Seq<char> {
    "Not authenticated - please verify credentials and re-authenticate"@
}

/// The `Authorization` header value for a token, `Bearer <token>`.
pub open spec fn bearer_header(token: Option<Seq<char>>) -> Option<Seq<char>> {
    match token {
        Some(t) => Some("Bearer "@ + t),
        None => None,
    }
}

/// Client state: the server's base URL and the Bearer token, once there is one.
pub struct TandoorClient {
    base_url: String,
    token: Option<String>,
}

/// Query parameters of a recipe search, in the order they are sent.
pub open spec fn recipe_search_params(
    query: Option<Seq<char>>,
    limit: Option<i32>,
    keywords: Option<Seq<i64>>,
    foods: Option<Seq<i64>>,
    max_cooking_time: Option<i64>,
    min_rating: Option<i64>,
    random: Option<bool>,
) -> Seq<Seq<char>> {
    opt_param(
        "query="@,
        match query {
            Some(q) => Some(encoded(q)),
            None => None,
        },
    ) + opt_param(
        "page_size="@,
        opt_decimal(
            match limit {
                Some(l) => Some(l as int),
                None => None,
            },
        ),
    ) + repeated_param("keywords_or="@, keywords) + repeated_param("foods_or="@, foods)
        + opt_param(
        "cooking_time="@,
        opt_decimal(
            match max_cooking_time {
                Some(t) => Some(t as int),
                None => None,
            },
        ),
    ) + opt_param(
        "rating="@,
        opt_decimal(
            match min_rating {
                Some(r) => Some(r as int),
                None => None,
            },
        ),
    ) + (if random == Some(true) {
        seq!["random=true"@]
    } else {
        Seq::empty()
    })
}

/// A slice as an optional sequence.
pub open spec fn opt_slice(values: Option<&[i64]>) -> Option<Seq<i64>> {
    match values {
        Some(vs) => Some(vs@),
        None => None,
    }
}

/// A text as an optional sequence.
pub open spec fn opt_text(value: Option<&str>) -> Option<Seq<char>> {
    match value {
        Some(v) => Some(v@),
        None => None,
    }
}

impl TandoorClient {
    /// The base URL.
    pub closed spec fn base(&self) -> Seq<char> {
        self.base_url@
    }

    /// The token, once there is one.
    pub closed spec fn token_view(&self) -> Option<Seq<char>> {
        match self.token {
            Some(t) => Some(t@),
            None => None,
        }
    }

    /// A client for the server at `base_url`, without a token.
    pub fn new(base_url: String) -> (c: Self)
        ensures
            c.base() == base_url@,
            c.token_view() is None,
    {
        TandoorClient { base_url, token: None }
    }

    /// The base URL.
    pub fn base_url(&self) -> (r: &str)
        ensures
            r@ == self.base(),
    {
        self.base_url.as_str()
    }

    /// Whether the client holds a token.
    pub fn is_authenticated(&self) -> (b: bool)
        ensures
            b == self.token_view() is Some,
    {
        self.token.is_some()
    }

    /// The client's state as a plain value: its base URL and its token.
    pub open spec fn state(&self) -> (Seq<char>, Option<Seq<char>>) {
        (self.base(), self.token_view())
    }

    /// Stores `token`, replacing any earlier one.
    pub fn set_token(&mut self, token: String)
        ensures
            final(self).state() == after_set_token(old(self).state(), token@),
            final(self).token_view() == Some(token@),
            final(self).base() == old(self).base(),
    {
        self.token = Some(token);
    }

    /// The token, once there is one.
    pub fn get_token(&self) -> (r: Option<&str>)
        ensures
            r is Some <==> self.token_view() is Some,
            r matches Some(t) ==> t@ == self.token_view().unwrap(),
    {
        match &self.token {
            Some(t) => Some(t.as_str()),
            None => None,
        }
    }

    /// The first ten bytes of the token followed by `...`, for logs.
    ///
    /// The token must not have a multi-byte character across its tenth byte.
    pub fn get_token_preview(&self) -> (r: Option<String>)
        requires
            self.token_view() matches Some(t) ==> encode_utf8(t).len() <= usize::MAX,
            self.token_view() matches Some(t) ==> is_char_boundary(
                encode_utf8(t),
                if encode_utf8(t).len() < 10 { encode_utf8(t).len() as int } else { 10 },
            ),
        ensures
            r is Some <==> self.token_view() is Some,
            r matches Some(p) ==> {
                let t = self.token_view().unwrap();
                let k = if encode_utf8(t).len() < 10 { encode_utf8(t).len() as int } else { 10 };
                &&& p@.len() >= 3
                &&& p@.subrange(p@.len() - 3, p@.len() as int) == "..."@
                &&& encode_utf8(p@.subrange(0, p@.len() - 3)) == encode_utf8(t).subrange(0, k)
            },
    {
        match &self.token {
            Some(t) => {
                let s = t.as_str();
                let n = s.len();
                let k = if n < 10 { n } else { 10 };
                proof {
                    broadcast use is_char_boundary_start_end_of_seq, encode_utf8_valid_utf8;
                    assert(s.spec_bytes() == encode_utf8(s@));
                    assert(s@ == self.token_view().unwrap());
                    let tv = self.token_view().unwrap();
                    assert(encode_utf8(tv).len() == n);
                    assert(k as int == if encode_utf8(tv).len() < 10 { encode_utf8(tv).len() as int } else { 10 });
                    assert(is_char_boundary(encode_utf8(tv), k as int));
                }
                let (head, _tail) = s.split_at(k);
                let p = concat2(head, "...");
                proof {
                    reveal_strlit("...");
                    assert(head.spec_bytes() == encode_utf8(head@));
                    assert(p@.subrange(0, p@.len() - 3) =~= head@);
                    assert(p@.subrange(p@.len() - 3, p@.len() as int) =~= "..."@);
                }
                Some(p)
            },
            None => None,
        }
    }

    /// The `Authorization` header value, `Bearer <token>`; an error when
    /// there is no token.
    pub fn get_auth_header(&self) -> (r: Result<String, String>)
        ensures
            r is Ok <==> self.token_view() is Some,
            r matches Ok(h) ==> Some(h@) == bearer_header(self.token_view()),
            r matches Err(e) ==> e@ == not_authenticated_text(),
    {
        match &self.token {
            Some(t) => Ok(concat2("Bearer ", t.as_str())),
            None => Err(String::from_str(
                "Not authenticated - please verify credentials and re-authenticate",
            )),
        }
    }

    /// `base_url` followed by `path`.
    pub fn endpoint(&self, path: &str) -> (r: String)
        ensures
            r@ == self.base() + path@,
    {
        concat2(self.base_url.as_str(), path)
    }

    fn endpoint_with_id(&self, prefix: &str, id: i64) -> (r: String)
        ensures
            r@ == self.base() + prefix@ + decimal(id as int) + "/"@,
    {
        let mut r = concat2(self.base_url.as_str(), prefix);
        append_decimal(&mut r, id);
        r.append("/");
        r
    }

    /// Token endpoint.
    pub fn auth_url(&self) -> (r: String)
        ensures
            r@ == self.base() + "/api-token-auth/"@,
    {
        self.endpoint("/api-token-auth/")
    }

    /// Recipe search, with its filters as query parameters.
    pub fn search_recipes_url(
        &self,
        query: Option<&str>,
        limit: Option<i32>,
        keywords: Option<&[i64]>,
        foods: Option<&[i64]>,
        max_cooking_time: Option<i64>,
        min_rating: Option<i64>,
        random: Option<bool>,
    ) -> (r: String)
        ensures
            r@ == with_query(
                self.base() + "/api/recipe/"@,
                recipe_search_params(
                    opt_text(query),
                    limit,
                    opt_slice(keywords),
                    opt_slice(foods),
                    max_cooking_time,
                    min_rating,
                    random,
                ),
            ),
    {
        let url = self.endpoint("/api/recipe/");
        let mut params: Vec<String> = Vec::new();
        if let Some(q) = query {
            let e = url_encode(q);
            params.push(concat2("query=", e.as_str()));
        }
        if let Some(l) = limit {
            params.push(with_decimal("page_size=", l as i64));
        }
        let ghost p2 = views(params@);
        push_repeated(&mut params, "keywords_or=", keywords);
        push_repeated(&mut params, "foods_or=", foods);
        let ghost p4 = views(params@);
        if let Some(t) = max_cooking_time {
            params.push(with_decimal("cooking_time=", t));
        }
        if let Some(rt) = min_rating {
            params.push(with_decimal("rating=", rt));
        }
        let ghost p6 = views(params@);
        if let Some(true) = random {
            params.push(String::from_str("random=true"));
        }
        proof {
            let qp = opt_param(
                "query="@,
                match opt_text(query) {
                    Some(q) => Some(encoded(q)),
                    None => None,
                },
            );
            let lp = opt_param(
                "page_size="@,
                opt_decimal(
                    match limit {
                        Some(l) => Some(l as int),
                        None => None,
                    },
                ),
            );
            assert(p2 =~= qp + lp);
            let tp = opt_param(
                "cooking_time="@,
                opt_decimal(
                    match max_cooking_time {
                        Some(t) => Some(t as int),
                        None => None,
                    },
                ),
            );
            let rp = opt_param(
                "rating="@,
                opt_decimal(
                    match min_rating {
                        Some(r) => Some(r as int),
                        None => None,
                    },
                ),
            );
            assert(p6 =~= p4 + tp + rp);
            let xp: Seq<Seq<char>> = if random == Some(true) {
                seq!["random=true"@]
            } else {
                Seq::empty()
            };
            assert(views(params@) =~= p6 + xp);
        }
        finish_url(url, &params)
    }

    /// One recipe.
    pub fn recipe_url(&self, id: i32) -> (r: String)
        ensures
            r@ == self.base() + "/api/recipe/"@ + decimal(id as int) + "/"@,
    {
        self.endpoint_with_id("/api/recipe/", id as i64)
    }

    /// Recipe creation (and search without filters).
    pub fn recipes_url(&self) -> (r: String)
        ensures
            r@ == self.base() + "/api/recipe/"@,
    {
        self.endpoint("/api/recipe/")
    }

    /// Recipe import from a web page.
    pub fn import_url(&self) -> (r: String)
        ensures
            r@ == self.base() + "/api/recipe-from-source/"@,
    {
        self.endpoint("/api/recipe-from-source/")
    }

    /// Food search by name, with an optional page size.
    pub fn search_foods_url(&self, query: &str, limit: Option<i32>) -> (r: String)
        ensures
            r@ == self.base() + "/api/food/?query="@ + encoded(query@) + match limit {
                Some(l) => "&page_size="@ + decimal(l as int),
                None => Seq::empty(),
            },
    {
        let mut r = self.endpoint("/api/food/?query=");
        let e = url_encode(query);
        r.append(e.as_str());
        if let Some(l) = limit {
            let p = with_decimal("&page_size=", l as i64);
            r.append(p.as_str());
        }
        r
    }

    /// One food.
    pub fn food_url(&self, food_id: i32) -> (r: String)
        ensures
            r@ == self.base() + "/api/food/"@ + decimal(food_id as int) + "/"@,
    {
        self.endpoint_with_id("/api/food/", food_id as i64)
    }

    /// The shopping list (and adding one entry).
    pub fn shopping_list_url(&self) -> (r: String)
        ensures
            r@ == self.base() + "/api/shopping-list-entry/"@,
    {
        self.endpoint("/api/shopping-list-entry/")
    }

    /// Adding several shopping-list entries at once.
    pub fn shopping_list_bulk_url(&self) -> (r: String)
        ensures
            r@ == self.base() + "/api/shopping-list-entry/bulk/"@,
    {
        self.endpoint("/api/shopping-list-entry/bulk/")
    }

    /// One shopping-list entry.
    pub fn shopping_list_entry_url(&self, entry_id: i32) -> (r: String)
        ensures
            r@ == self.base() + "/api/shopping-list-entry/"@ + decimal(entry_id as int) + "/"@,
    {
        self.endpoint_with_id("/api/shopping-list-entry/", entry_id as i64)
    }

    /// Meal plans, optionally bounded by dates.
    pub fn meal_plans_url(&self, from_date: Option<&str>, to_date: Option<&str>) -> (r: String)
        ensures
            r@ == with_query(
                self.base() + "/api/meal-plan/"@,
                opt_param("from_date="@, opt_text(from_date)) + opt_param(
                    "to_date="@,
                    opt_text(to_date),
                ),
            ),
    {
        let url = self.endpoint("/api/meal-plan/");
        let mut params: Vec<String> = Vec::new();
        if let Some(f) = from_date {
            params.push(concat2("from_date=", f));
        }
        let ghost p1 = views(params@);
        if let Some(t) = to_date {
            params.push(concat2("to_date=", t));
        }
        proof {
            assert(p1 =~= opt_param("from_date="@, opt_text(from_date)));
            assert(views(params@) =~= opt_param("from_date="@, opt_text(from_date)) + opt_param(
                "to_date="@,
                opt_text(to_date),
            ));
        }
        finish_url(url, &params)
    }

    /// One meal plan.
    pub fn meal_plan_url(&self, plan_id: i32) -> (r: String)
        ensures
            r@ == self.base() + "/api/meal-plan/"@ + decimal(plan_id as int) + "/"@,
    {
        self.endpoint_with_id("/api/meal-plan/", plan_id as i64)
    }

    /// Meal types.
    pub fn meal_types_url(&self) -> (r: String)
        ensures
            r@ == self.base() + "/api/meal-type/"@,
    {
        self.endpoint("/api/meal-type/")
    }

    /// Cook log, optionally for one recipe and from a date on.
    pub fn cook_log_url(&self, recipe_id: Option<i32>, from_date: Option<&str>) -> (r: String)
        ensures
            r@ == with_query(
                self.base() + "/api/cook-log/"@,
                opt_param(
                    "recipe="@,
                    opt_decimal(
                        match recipe_id {
                            Some(id) => Some(id as int),
                            None => None,
                        },
                    ),
                ) + opt_param("from_date="@, opt_text(from_date)),
            ),
    {
        let url = self.endpoint("/api/cook-log/");
        let mut params: Vec<String> = Vec::new();
        if let Some(id) = recipe_id {
            params.push(with_decimal("recipe=", id as i64));
        }
        let ghost p1 = views(params@);
        if let Some(f) = from_date {
            params.push(concat2("from_date=", f));
        }
        proof {
            let rp = opt_param(
                "recipe="@,
                opt_decimal(
                    match recipe_id {
                        Some(id) => Some(id as int),
                        None => None,
                    },
                ),
            );
            assert(p1 =~= rp);
            assert(views(params@) =~= rp + opt_param("from_date="@, opt_text(from_date)));
        }
        finish_url(url, &params)
    }

    /// Cook log, optionally for one recipe, from the date `days_back` days
    /// before `today` (written `YYYY-MM-DD` by chrono); `None` exactly when
    /// that date cannot be computed (it would leave chrono's calendar).
    pub fn cook_log_url_since(&self, recipe_id: Option<i32>, today: CalendarDate, days_back: i32) -> (r:
        Option<String>)
        ensures
            r is None <==> start_date_text(today.year as int, today.month as int, today.day as int, days_back as int) is None,
            r matches Some(u) ==> u@ == with_query(
                self.base() + "/api/cook-log/"@,
                recipe_filter(recipe_id) + seq![
                    "from_date="@ + start_date_text(
                        today.year as int,
                        today.month as int,
                        today.day as int,
                        days_back as int,
                    ).unwrap(),
                ],
            ),
    {
        let start = match shift_date(today, days_back) {
            Some(s) => s,
            None => return None,
        };
        let text = match format_date(start, "%Y-%m-%d") {
            Some(t) => t,
            None => return None,
        };
        let r = self.cook_log_url(recipe_id, Some(text.as_str()));
        assert(opt_param("from_date="@, Some(text@)) == seq!["from_date="@ + text@]);
        assert(start_date_text(today.year as int, today.month as int, today.day as int, days_back as int)
            == Some(text@));
        Some(r)
    }

    /// Cook log, optionally for one recipe and for the last `days_back` days.
    /// The start date is today's date (UTC) less `days_back` days, by
    /// `cook_log_url_since`. Today's date depends on the clock, so what is
    /// stated is the address `cook_log_url_since` gives for some calendar
    /// date at or after the epoch; without a look-back the address is fixed.
    /// Fails when the clock cannot be read as a date, or when the start date
    /// would leave chrono's calendar.
    pub fn cook_log_url_for_days(&self, recipe_id: Option<i32>, days_back: Option<i32>) -> (r:
        Result<String, CookLogDateError>)
        ensures
            days_back is None ==> r is Ok && r->Ok_0@ == with_query(
                self.base() + "/api/cook-log/"@,
                recipe_filter(recipe_id),
            ),
            days_back is Some && r is Ok ==> exists|y: int, m: int, dd: int|
                {
                    &&& is_calendar_date(y, m, dd)
                    &&& is_clock_date(y, m, dd)
                    &&& (#[trigger] start_date_text(y, m, dd, days_back.unwrap() as int)) is Some
                    &&& r->Ok_0@ == with_query(
                        self.base() + "/api/cook-log/"@,
                        recipe_filter(recipe_id) + seq!["from_date="@ + start_date_text(y, m, dd, days_back.unwrap() as int).unwrap()],
                    )
                },
            days_back is Some && r == Err::<String, CookLogDateError>(CookLogDateError::OutOfCalendar)
                ==> exists|y: int, m: int, dd: int|
                {
                    &&& is_calendar_date(y, m, dd)
                    &&& is_clock_date(y, m, dd)
                    &&& (#[trigger] start_date_text(y, m, dd, days_back.unwrap() as int)) is None
                },
    {
        match days_back {
            Some(days) => {
                let today = match today_utc() {
                    Some(t) => t,
                    None => return Err(CookLogDateError::ClockUnreadable),
                };
                match self.cook_log_url_since(recipe_id, today, days) {
                    Some(u) => Ok(u),
                    None => Err(CookLogDateError::OutOfCalendar),
                }
            },
            None => {
                let r = self.cook_log_url(recipe_id, None);
                assert(recipe_filter(recipe_id) + opt_param("from_date="@, None) =~= recipe_filter(recipe_id));
                Ok(r)
            },
        }
    }

    /// Keywords.
    pub fn keywords_url(&self) -> (r: String)
        ensures
            r@ == self.base() + "/api/keyword/"@,
    {
        self.endpoint("/api/keyword/")
    }

    /// Units.
    pub fn units_url(&self) -> (r: String)
        ensures
            r@ == self.base() + "/api/unit/"@,
    {
        self.endpoint("/api/unit/")
    }

    /// Recipe books, optionally filtered by name.
    pub fn recipe_books_url(&self, query: Option<&str>) -> (r: String)
        ensures
            r@ == self.base() + "/api/recipe-book/"@ + match query {
                Some(q) => "?query="@ + encoded(q@),
                None => Seq::empty(),
            },
    {
        let mut r = self.endpoint("/api/recipe-book/");
        if let Some(q) = query {
            r.append("?query=");
            let e = url_encode(q);
            r.append(e.as_str());
        }
        r
    }

    /// One recipe book.
    pub fn recipe_book_url(&self, id: i32) -> (r: String)
        ensures
            r@ == self.base() + "/api/recipe-book/"@ + decimal(id as int) + "/"@,
    {
        self.endpoint_with_id("/api/recipe-book/", id as i64)
    }

    /// Recipe-book entries, optionally of one book.
    pub fn recipe_book_entries_url(&self, book_id: Option<i32>) -> (r: String)
        ensures
            r@ == self.base() + "/api/recipe-book-entry/"@ + match book_id {
                Some(b) => "?book="@ + decimal(b as int),
                None => Seq::empty(),
            },
    {
        let mut r = self.endpoint("/api/recipe-book-entry/");
        if let Some(b) = book_id {
            let p = with_decimal("?book=", b as i64);
            r.append(p.as_str());
        }
        r
    }

    /// One recipe-book entry.
    pub fn recipe_book_entry_url(&self, entry_id: i32) -> (r: String)
        ensures
            r@ == self.base() + "/api/recipe-book-entry/"@ + decimal(entry_id as int) + "/"@,
    {
        self.endpoint_with_id("/api/recipe-book-entry/", entry_id as i64)
    }

    /// Supermarkets.
    pub fn supermarkets_url(&self) -> (r: String)
        ensures
            r@ == self.base() + "/api/supermarket/"@,
    {
        self.endpoint("/api/supermarket/")
    }

    /// Unit conversions, optionally of one food.
    pub fn unit_conversions_url(&self, food_id: Option<i64>) -> (r: String)
        ensures
            r@ == self.base() + "/api/unit-conversion/"@ + match food_id {
                Some(f) => "?food="@ + decimal(f as int),
                None => Seq::empty(),
            },
    {
        let mut r = self.endpoint("/api/unit-conversion/");
        if let Some(f) = food_id {
            let p = with_decimal("?food=", f);
            r.append(p.as_str());
        }
        r
    }
}

/// What storing a token does to the client's state: the base URL stays,
/// the token becomes the one stored.
pub open spec fn after_set_token(state: (Seq<char>, Option<Seq<char>>), token: Seq<char>) -> (
    Seq<char>,
    Option<Seq<char>>,
) {
    (state.0, Some(token))
}

/// A token read back after it was stored is the token stored: whatever the
/// client held before, after `set_token(t)` it is authenticated, `get_token`
/// gives `t`, requests carry `Bearer t`, and the base URL is unchanged; and
/// storing a second token replaces the first.
pub proof fn law_stored_token_is_used(
    state: (Seq<char>, Option<Seq<char>>),
    token: Seq<char>,
    later: Seq<char>,
)
    ensures
        after_set_token(state, token).1 is Some,
        after_set_token(state, token).1.unwrap() == token,
        bearer_header(after_set_token(state, token).1) == Some("Bearer "@ + token),
        after_set_token(state, token).0 == state.0,
        after_set_token(after_set_token(state, token), later) == after_set_token(state, later),
{
}

/// A recipe search without any filter asks for the bare recipe endpoint,
/// with no query part at all.
pub proof fn law_unfiltered_search_has_no_query(base: Seq<char>)
    ensures
        with_query(
            base + "/api/recipe/"@,
            recipe_search_params(None, None, None, None, None, None, None),
        ) == base + "/api/recipe/"@,
{
    assert(recipe_search_params(None, None, None, None, None, None, None) =~= Seq::<Seq<char>>::empty());
}

/// A recipe search with only a query sends exactly that one parameter,
/// percent-encoded.
pub proof fn law_query_only_search(base: Seq<char>, query: Seq<char>)
    ensures
        with_query(
            base + "/api/recipe/"@,
            recipe_search_params(Some(query), None, None, None, None, None, None),
        ) == base + "/api/recipe/"@ + "?"@ + "query="@ + encoded(query),
{
    let ps = recipe_search_params(Some(query), None, None, None, None, None, None);
    assert(ps =~= seq!["query="@ + encoded(query)]);
    assert(joined(ps, "&"@) == ps[0]);
    assert(base + "/api/recipe/"@ + "?"@ + ("query="@ + encoded(query)) =~= base + "/api/recipe/"@
        + "?"@ + "query="@ + encoded(query));
}

/// Inserting a block between two parts of a sequence.
proof fn lemma_block_inserted<T>(a: Seq<T>, x: Seq<T>, b: Seq<T>)
    ensures
        (a + b).subrange(0, a.len() as int) + x + (a + b).subrange(a.len() as int, (a + b).len() as int) == a + x + b,
{
    assert((a + b).subrange(0, a.len() as int) =~= a);
    assert((a + b).subrange(a.len() as int, (a + b).len() as int) =~= b);
}

/// The search parameters after the food filter.
pub open spec fn search_tail_params(max_cooking_time: Option<i64>, min_rating: Option<i64>, random: Option<bool>) -> Seq<Seq<char>> {
    opt_param(
        "cooking_time="@,
        opt_decimal(
            match max_cooking_time {
                Some(t) => Some(t as int),
                None => None,
            },
        ),
    ) + opt_param(
        "rating="@,
        opt_decimal(
            match min_rating {
                Some(r) => Some(r as int),
                None => None,
            },
        ),
    ) + (if random == Some(true) {
        seq!["random=true"@]
    } else {
        Seq::empty()
    })
}

/// The search parameters before the keyword filter.
pub open spec fn search_head_params(query: Option<Seq<char>>, limit: Option<i32>) -> Seq<Seq<char>> {
    opt_param(
        "query="@,
        match query {
            Some(q) => Some(encoded(q)),
            None => None,
        },
    ) + opt_param(
        "page_size="@,
        opt_decimal(
            match limit {
                Some(l) => Some(l as int),
                None => None,
            },
        ),
    )
}

/// Each requested food id is sent as its own `foods_or=ID` parameter, all
/// of them, in the order given: the parameters of a search with foods are
/// those of the same search without them, with one `foods_or=` parameter
/// per id inserted as one block.
#[verifier::rlimit(30)]
pub proof fn law_every_food_is_sent(
    query: Option<Seq<char>>,
    limit: Option<i32>,
    keywords: Option<Seq<i64>>,
    foods: Seq<i64>,
    max_cooking_time: Option<i64>,
    min_rating: Option<i64>,
    random: Option<bool>,
)
    ensures
        ({
            let with = recipe_search_params(query, limit, keywords, Some(foods), max_cooking_time, min_rating, random);
            let without = recipe_search_params(query, limit, keywords, None, max_cooking_time, min_rating, random);
            &&& with.len() == without.len() + foods.len()
            &&& exists|o: int|
                0 <= o <= without.len() && #[trigger] without.subrange(0, o) + foods.map_values(
                    |f: i64| "foods_or="@ + decimal(f as int),
                ) + without.subrange(o, without.len() as int) == with
        }),
{
    let head = search_head_params(query, limit) + repeated_param("keywords_or="@, keywords);
    let tail = search_tail_params(max_cooking_time, min_rating, random);
    let fs = foods.map_values(|f: i64| "foods_or="@ + decimal(f as int));
    let with = recipe_search_params(query, limit, keywords, Some(foods), max_cooking_time, min_rating, random);
    let without = recipe_search_params(query, limit, keywords, None, max_cooking_time, min_rating, random);
    assert(with =~= head + fs + tail);
    assert(without =~= head + tail);
    lemma_block_inserted(head, fs, tail);
    let o = head.len() as int;
    assert(without.subrange(0, o) + fs + without.subrange(o, without.len() as int) == with);
}

/// Each requested keyword id is sent as its own `keywords_or=ID`
/// parameter, all of them, in the order given, inserted as one block.
#[verifier::rlimit(30)]
pub proof fn law_every_keyword_is_sent(
    query: Option<Seq<char>>,
    limit: Option<i32>,
    keywords: Seq<i64>,
    foods: Option<Seq<i64>>,
    max_cooking_time: Option<i64>,
    min_rating: Option<i64>,
    random: Option<bool>,
)
    ensures
        ({
            let with = recipe_search_params(query, limit, Some(keywords), foods, max_cooking_time, min_rating, random);
            let without = recipe_search_params(query, limit, None, foods, max_cooking_time, min_rating, random);
            &&& with.len() == without.len() + keywords.len()
            &&& exists|o: int|
                0 <= o <= without.len() && #[trigger] without.subrange(0, o) + keywords.map_values(
                    |k: i64| "keywords_or="@ + decimal(k as int),
                ) + without.subrange(o, without.len() as int) == with
        }),
{
    let head = search_head_params(query, limit);
    let tail = repeated_param("foods_or="@, foods) + search_tail_params(max_cooking_time, min_rating, random);
    let ks = keywords.map_values(|k: i64| "keywords_or="@ + decimal(k as int));
    let with = recipe_search_params(query, limit, Some(keywords), foods, max_cooking_time, min_rating, random);
    let without = recipe_search_params(query, limit, None, foods, max_cooking_time, min_rating, random);
    assert(with =~= head + ks + tail);
    assert(without =~= head + tail);
    lemma_block_inserted(head, ks, tail);
    let o = head.len() as int;
    assert(without.subrange(0, o) + ks + without.subrange(o, without.len() as int) == with);
}

} // verus!
