//! The rules behind the tool server: when and how to authenticate, how tool
//! parameters become API requests, and how answers are selected, grouped,
//! ranked and summarised.
//!
//! The protocol plumbing, the network round trips and the rendering of
//! results as JSON live with the server executable.
use crate::client::types::{
    CreateCookLogRequest, CreateKeywordRequest, CreateMealPlanRequest,
    CreateRecipeBookEntryRequest, CreateRecipeBookRequest, CreateRecipeRequest, CreateStepRequest,
    Food, Keyword, Recipe, ShoppingListEntry, Step, StepIngredient,
};
use crate::client::{concat3, concat4, TandoorClient};
use crate::dates::{naive_date_parse, parse_date};
use crate::text::{
    append_digits, decimal, has_substring, lowercase, contains_text, occurs_at, to_lower, views,
};
use vstd::prelude::*;
use vstd::string::*;

verus! {

// ---------------------------------------------------------------------------
// Tool parameters
// ---------------------------------------------------------------------------

/// Parameters of the recipe search tool.
#[derive(Debug, Clone, PartialEq)]
pub struct SearchRecipesParams {
    pub query: Option<String>,
    pub limit: Option<i32>,
    /// Keyword ids, any of which a recipe may have.
    pub keywords: Option<Vec<i64>>,
    /// Food ids, any of which a recipe may use.
    pub foods: Option<Vec<i64>>,
    /// Maximum total cooking time in minutes.
    pub max_cooking_time: Option<i64>,
    /// Minimum rating (0-5).
    pub min_rating: Option<i64>,
    /// Ask for a random recipe.
    pub random: Option<bool>,
}

/// Parameters of the recipe details tool.
#[derive(Debug, Clone, PartialEq)]
pub struct GetRecipeDetailsParams {
    pub id: i32,
    /// Servings to scale the ingredients to.
    pub servings: Option<i32>,
}

/// Parameters of the recipe creation tool.
#[derive(Debug, Clone, PartialEq)]
pub struct CreateRecipeParams {
    pub name: String,
    pub description: Option<String>,
    pub instructions: Option<String>,
    pub servings: Option<i32>,
    pub prep_time: Option<i32>,
    pub cook_time: Option<i32>,
    pub keywords: Option<Vec<String>>,
}

/// Parameters of the shopping-list tool.
#[derive(Debug, Clone, PartialEq)]
pub struct GetShoppingListParams {
    /// `grouped` or `flat`.
    pub format: String,
}

/// Parameters of the meal-plan listing tool.
#[derive(Debug, Clone, PartialEq)]
pub struct GetMealPlansParams {
    /// First day, `YYYY-MM-DD`.
    pub from_date: String,
    /// Last day, `YYYY-MM-DD`.
    pub to_date: String,
    /// Only plans of this meal type (compared without case).
    pub meal_type: Option<String>,
}

/// Parameters of the meal-plan creation tool.
#[derive(Debug, Clone, PartialEq)]
pub struct CreateMealPlanParams {
    pub recipe_id: Option<i32>,
    pub title: Option<String>,
    pub servings: i32,
    /// `YYYY-MM-DD`.
    pub date: String,
    pub meal_type: i32,
    pub note: Option<String>,
}

/// Parameters of the cook-log tool.
#[derive(Debug, Clone, PartialEq)]
pub struct GetCookLogParams {
    pub recipe_id: Option<i32>,
    pub days_back: i32,
}

/// Parameters of the cooked-recipe logging tool.
#[derive(Debug, Clone, PartialEq)]
pub struct LogCookedRecipeParams {
    pub recipe_id: i32,
    pub servings: i32,
    pub rating: Option<i32>,
    pub comment: Option<String>,
}

/// Parameters of the inventory-based suggestion tool.
#[derive(Debug, Clone, PartialEq)]
pub struct SuggestFromInventoryParams {
    /// `maximum-use`, `expiring`, or anything else for a strict match.
    pub mode: String,
    pub days_until_expiry: i32,
}

/// Parameters of the recipe update tool.
#[derive(Debug, Clone, PartialEq)]
pub struct UpdateRecipeParams {
    pub id: i32,
    pub name: Option<String>,
    pub description: Option<String>,
    /// Keyword ids to assign.
    pub keywords: Option<Vec<i64>>,
    pub servings: Option<i64>,
    pub cooking_time: Option<i64>,
    pub waiting_time: Option<i64>,
    pub source_url: Option<String>,
    pub source_title: Option<String>,
}

/// Parameters of the recipe book creation tool.
#[derive(Debug, Clone, PartialEq)]
pub struct CreateRecipeBookParams {
    pub name: String,
    pub description: Option<String>,
}

/// Parameters of the tool that adds a recipe to a book.
#[derive(Debug, Clone, PartialEq)]
pub struct AddToRecipeBookParams {
    pub recipe_book: i32,
    pub recipe: i32,
}

/// Default shopping-list layout.
pub fn default_format() -> (r: String)
    ensures
        r@ == "flat"@,
{
    String::from_str("flat")
}

/// Default look-back of the cook log, in days.
pub fn default_days_back() -> (r: i32)
    ensures
        r == 30,
{
    30
}

/// Default servings of a logged meal.
pub fn default_servings() -> (r: i32)
    ensures
        r == 1,
{
    1
}

/// Default suggestion mode.
pub fn default_mode() -> (r: String)
    ensures
        r@ == "maximum-use"@,
{
    String::from_str("maximum-use")
}

/// Default days until expiry for suggestions.
pub fn default_days_until_expiry() -> (r: i32)
    ensures
        r == 3,
{
    3
}

// ---------------------------------------------------------------------------
// Authentication
// ---------------------------------------------------------------------------

/// What to do before a tool may call the API.
#[derive(Debug, Clone, PartialEq)]
pub enum AuthStep {
    /// The client already holds a token.
    Ready,
    /// Give the client this shared token.
    UseToken(String),
    /// Log in with these credentials.
    Login(String, String),
    /// Give up with this error.
    Fail(String),
}

pub open spec fn no_credentials_text() -> Seq<char> {
    "No authentication credentials available"@
}

/// The order in which authentication is sought: a client that holds a token
/// is used as it is; otherwise a token shared by the server is preferred to
/// logging in with stored credentials; with neither, the tool fails.
pub fn next_auth_step(
    client_authenticated: bool,
    shared_token: Option<String>,
    credentials: Option<(String, String)>,
) -> (s: AuthStep)
    ensures
        client_authenticated ==> s == AuthStep::Ready,
        !client_authenticated && shared_token is Some ==> s == AuthStep::UseToken(
            shared_token.unwrap(),
        ),
        !client_authenticated && shared_token is None && credentials is Some ==> s
            == AuthStep::Login(credentials.unwrap().0, credentials.unwrap().1),
        !client_authenticated && shared_token is None && credentials is None ==> (s matches AuthStep::Fail(
            m,
        ) && m@ == no_credentials_text()),
{
    if client_authenticated {
        AuthStep::Ready
    } else if let Some(t) = shared_token {
        AuthStep::UseToken(t)
    } else if let Some((u, p)) = credentials {
        AuthStep::Login(u, p)
    } else {
        AuthStep::Fail(String::from_str("No authentication credentials available"))
    }
}

pub open spec fn no_token_text() -> Seq<char> {
    "No authentication token available"@
}

/// The start-up check: the client must hold a token.
pub fn check_api_access(client: &TandoorClient) -> (r: Result<(), String>)
    ensures
        r is Ok <==> client.token_view() is Some,
        r matches Err(e) ==> e@ == no_token_text(),
{
    if client.is_authenticated() {
        Ok(())
    } else {
        Err(String::from_str("No authentication token available"))
    }
}

// ---------------------------------------------------------------------------
// Numbers in messages
// ---------------------------------------------------------------------------

/// `a`, the count `x`, `b`, the count `y`, `c`.
pub fn counts_phrase(a: &str, x: usize, b: &str, y: usize, c: &str) -> (r: String)
    ensures
        r@ == a@ + decimal(x as int) + b@ + decimal(y as int) + c@,
{
    let mut r = String::from_str(a);
    append_digits(&mut r, x as u64);
    r.append(b);
    append_digits(&mut r, y as u64);
    r.append(c);
    r
}

/// `a`, the count `x`, `b`.
pub fn count_phrase(a: &str, x: usize, b: &str) -> (r: String)
    ensures
        r@ == a@ + decimal(x as int) + b@,
{
    let mut r = String::from_str(a);
    append_digits(&mut r, x as u64);
    r.append(b);
    r
}

/// `a`, the number `x`, `b`.
pub fn number_phrase(a: &str, x: i32, b: &str) -> (r: String)
    ensures
        r@ == a@ + decimal(x as int) + b@,
{
    let mut r = String::from_str(a);
    crate::text::append_decimal(&mut r, x as i64);
    r.append(b);
    r
}

// ---------------------------------------------------------------------------
// Recipes
// ---------------------------------------------------------------------------

/// A time in minutes, absent counting as zero.
pub open spec fn minutes(m: Option<i32>) -> int {
    match m {
        Some(v) => v as int,
        None => 0,
    }
}

/// Total time of a recipe: working plus waiting time, absent parts counting
/// as zero. The sum must fit the 32-bit field it is reported in.
pub fn total_time(working_time: Option<i32>, waiting_time: Option<i32>) -> (t: i32)
    requires
        i32::MIN <= minutes(working_time) + minutes(waiting_time) <= i32::MAX,
    ensures
        t == minutes(working_time) + minutes(waiting_time),
{
    let w: i32 = match working_time {
        Some(v) => v,
        None => 0,
    };
    let x: i32 = match waiting_time {
        Some(v) => v,
        None => 0,
    };
    w + x
}

/// The names of keywords, in order.
pub fn keyword_names(keywords: &Vec<Keyword>) -> (r: Vec<String>)
    ensures
        views(r@) == keywords@.map_values(|k: Keyword| k.name@),
{
    let mut r: Vec<String> = Vec::new();
    let mut i: usize = 0;
    while i < keywords.len()
        invariant
            i <= keywords@.len(),
            views(r@) == keywords@.subrange(0, i as int).map_values(|k: Keyword| k.name@),
        decreases keywords.len() - i,
    {
        let ghost before = r@;
        r.push(keywords[i].name.clone());
        assert(views(r@) =~= views(before).push(keywords@[i as int].name@));
        assert(keywords@.subrange(0, i + 1).map_values(|k: Keyword| k.name@)
            =~= keywords@.subrange(0, i as int).map_values(|k: Keyword| k.name@).push(
            keywords@[i as int].name@,
        ));
        i = i + 1;
    }
    assert(keywords@.subrange(0, keywords@.len() as int) =~= keywords@);
    r
}

/// How a recipe search is summarised: `Found N recipes`, and the query when
/// there was one.
pub open spec fn search_summary_text(count: i32, query: Option<Seq<char>>) -> Seq<char> {
    "Found "@ + decimal(count as int) + " recipes"@ + match query {
        Some(q) => " matching '"@ + q + "'"@,
        None => Seq::empty(),
    }
}

pub fn search_summary(count: i32, query: Option<&str>) -> (r: String)
    ensures
        r@ == search_summary_text(
            count,
            match query {
                Some(q) => Some(q@),
                None => None,
            },
        ),
{
    let mut r = number_phrase("Found ", count, " recipes");
    match query {
        Some(q) => {
            let m = concat3(" matching '", q, "'");
            r.append(m.as_str());
        },
        None => {
            assert(r@ =~= r@ + Seq::<char>::empty());
        },
    }
    r
}

/// How a step reads in the instruction list: its instruction, prefixed by
/// its name and `: ` when it has a name.
pub open spec fn step_line(s: Step) -> Seq<char> {
    if s.name@.len() == 0 {
        s.instruction@
    } else {
        s.name@ + ": "@ + s.instruction@
    }
}

/// The instruction list of a recipe, one line per step.
pub fn step_lines(steps: &Vec<Step>) -> (r: Vec<String>)
    ensures
        views(r@) == steps@.map_values(|s: Step| step_line(s)),
{
    let mut r: Vec<String> = Vec::new();
    let mut i: usize = 0;
    while i < steps.len()
        invariant
            i <= steps@.len(),
            views(r@) == steps@.subrange(0, i as int).map_values(|s: Step| step_line(s)),
        decreases steps.len() - i,
    {
        let s = &steps[i];
        let line = if s.name.as_str().is_empty() {
            s.instruction.clone()
        } else {
            concat3(s.name.as_str(), ": ", s.instruction.as_str())
        };
        let ghost before = r@;
        r.push(line);
        assert(views(r@) =~= views(before).push(step_line(steps@[i as int])));
        assert(steps@.subrange(0, i + 1).map_values(|s: Step| step_line(s)) =~= steps@.subrange(
            0,
            i as int,
        ).map_values(|s: Step| step_line(s)).push(step_line(steps@[i as int])));
        i = i + 1;
    }
    assert(steps@.subrange(0, steps@.len() as int) =~= steps@);
    r
}

/// Servings reported for recipe details: the requested servings, else the
/// recipe's own, else one.
pub fn effective_servings(requested: Option<i32>, recipe_servings: Option<i32>) -> (r: i32)
    ensures
        r == match requested {
            Some(s) => s,
            None => match recipe_servings {
                Some(s) => s,
                None => 1,
            },
        },
{
    match requested {
        Some(s) => s,
        None => match recipe_servings {
            Some(s) => s,
            None => 1,
        },
    }
}

/// Whether ingredient amounts are rescaled: the factor is requested servings
/// over the recipe's servings when both are known, and one otherwise; it
/// differs from one exactly when the two counts differ or the recipe's count
/// is zero (a zero divisor gives no factor of one).
pub fn scaling_applied(requested: Option<i32>, recipe_servings: Option<i32>) -> (b: bool)
    ensures
        b == (requested is Some && recipe_servings is Some && (requested.unwrap()
            != recipe_servings.unwrap() || recipe_servings.unwrap() == 0)),
{
    match (requested, recipe_servings) {
        (Some(t), Some(o)) => t != o || o == 0,
        _ => false,
    }
}

/// The request that the recipe creation tool sends: the name, description
/// and servings as given; prep time as working time and cook time as waiting
/// time (absent as zero); one keyword per name; and, when instructions are
/// given, a single unnamed first step holding them without ingredients.
pub fn recipe_request(params: CreateRecipeParams) -> (r: CreateRecipeRequest)
    ensures
        r.name == params.name,
        r.description == params.description,
        r.servings == params.servings,
        r.working_time as int == minutes(params.prep_time),
        r.waiting_time as int == minutes(params.cook_time),
        r.keywords@.map_values(|k: CreateKeywordRequest| k.name@) == match params.keywords {
            Some(ks) => views(ks@),
            None => Seq::empty(),
        },
        r.steps@.len() == (if params.instructions is Some { 1int } else { 0 }),
        params.instructions matches Some(text) ==> {
            &&& r.steps@[0].name is None
            &&& r.steps@[0].instruction == text
            &&& r.steps@[0].ingredients@.len() == 0
            &&& r.steps@[0].time is None
            &&& r.steps@[0].order == 1
        },
{
    let names: Vec<String> = match params.keywords {
        Some(ks) => ks,
        None => Vec::new(),
    };
    let mut keywords: Vec<CreateKeywordRequest> = Vec::new();
    let mut i: usize = 0;
    while i < names.len()
        invariant
            i <= names@.len(),
            keywords@.map_values(|k: CreateKeywordRequest| k.name@) == views(
                names@.subrange(0, i as int),
            ),
        decreases names.len() - i,
    {
        let ghost before = keywords@;
        keywords.push(CreateKeywordRequest { name: names[i].clone() });
        assert(keywords@.map_values(|k: CreateKeywordRequest| k.name@) =~= before.map_values(
            |k: CreateKeywordRequest| k.name@,
        ).push(names@[i as int]@));
        assert(views(names@.subrange(0, i + 1)) =~= views(names@.subrange(0, i as int)).push(
            names@[i as int]@,
        ));
        i = i + 1;
    }
    assert(names@.subrange(0, names@.len() as int) =~= names@);
    let steps: Vec<CreateStepRequest> = match params.instructions {
        Some(text) => {
            let mut v = Vec::new();
            v.push(CreateStepRequest {
                name: None,
                instruction: text,
                ingredients: Vec::new(),
                time: None,
                order: 1,
            });
            v
        },
        None => Vec::new(),
    };
    let working_time: i32 = match params.prep_time {
        Some(t) => t,
        None => 0,
    };
    let waiting_time: i32 = match params.cook_time {
        Some(t) => t,
        None => 0,
    };
    CreateRecipeRequest {
        name: params.name,
        description: params.description,
        servings: params.servings,
        working_time,
        waiting_time,
        keywords,
        steps,
    }
}

// ---------------------------------------------------------------------------
// Selecting by flag
// ---------------------------------------------------------------------------

/// The positions whose flag equals `want`, in increasing order.
pub open spec fn positions(flags: Seq<bool>, want: bool) -> Seq<int>
    decreases flags.len(),
{
    if flags.len() == 0 {
        Seq::empty()
    } else if flags.last() == want {
        positions(flags.drop_last(), want).push(flags.len() - 1)
    } else {
        positions(flags.drop_last(), want)
    }
}

/// Positions as plain integers.
pub open spec fn as_ints(v: Seq<usize>) -> Seq<int> {
    v.map_values(|i: usize| i as int)
}

/// The positions whose flag equals `want`, in increasing order.
pub fn positions_where(flags: &Vec<bool>, want: bool) -> (r: Vec<usize>)
    ensures
        as_ints(r@) == positions(flags@, want),
{
    let mut r: Vec<usize> = Vec::new();
    let mut i: usize = 0;
    while i < flags.len()
        invariant
            i <= flags@.len(),
            as_ints(r@) == positions(flags@.subrange(0, i as int), want),
        decreases flags.len() - i,
    {
        let ghost pre = flags@.subrange(0, i as int);
        let ghost next = flags@.subrange(0, i + 1);
        assert(next.drop_last() =~= pre);
        let ghost before = r@;
        if flags[i] == want {
            r.push(i);
            assert(as_ints(r@) =~= as_ints(before).push(i as int));
        }
        i = i + 1;
    }
    assert(flags@.subrange(0, flags@.len() as int) =~= flags@);
    r
}

/// Every position of the flags is listed under its own flag and only there,
/// so the two selections together cover the flags exactly once.
pub proof fn lemma_positions_partition(flags: Seq<bool>)
    ensures
        positions(flags, true).len() + positions(flags, false).len() == flags.len(),
        forall|i: int| 0 <= i < flags.len() ==> #[trigger] positions(flags, flags[i]).contains(i),
        forall|w: bool, i: int| 0 <= i < flags.len() && w != flags[i] ==> !#[trigger] positions(flags, w).contains(i),
        forall|w: bool, k: int| 0 <= k < positions(flags, w).len() ==> 0 <= #[trigger] positions(flags, w)[k] < flags.len()
            && flags[positions(flags, w)[k]] == w,
    decreases flags.len(),
{
    if flags.len() > 0 {
        let pre = flags.drop_last();
        lemma_positions_partition(pre);
        let n = flags.len() - 1;
        assert forall|i: int| 0 <= i < flags.len() implies #[trigger] positions(flags, flags[i]).contains(i) by {
            if i < n {
                assert(pre[i] == flags[i]);
                assert(positions(pre, pre[i]).contains(i));
                let k = choose|k: int| 0 <= k < positions(pre, pre[i]).len() && positions(pre, pre[i])[k] == i;
                if flags.last() == flags[i] {
                    assert(positions(flags, flags[i])[k] == i);
                }
            } else {
                assert(positions(flags, flags[i]).last() == i);
            }
        }
        assert forall|w: bool, i: int| 0 <= i < flags.len() && w != flags[i] implies !#[trigger] positions(flags, w).contains(i) by {
            if i < n {
                assert(pre[i] == flags[i]);
                assert(!positions(pre, w).contains(i));
                if positions(flags, w).contains(i) {
                    let k = choose|k: int| 0 <= k < positions(flags, w).len() && positions(flags, w)[k] == i;
                    if k < positions(pre, w).len() {
                        assert(positions(pre, w)[k] == i);
                    }
                }
            } else {
                if positions(flags, w).contains(i) {
                    let k = choose|k: int| 0 <= k < positions(flags, w).len() && positions(flags, w)[k] == i;
                    assert(positions(flags, w) == positions(pre, w));
                    assert(0 <= positions(pre, w)[k] < pre.len());
                }
            }
        }
        assert forall|w: bool, k: int| 0 <= k < positions(flags, w).len() implies 0 <= #[trigger] positions(flags, w)[k] < flags.len()
            && flags[positions(flags, w)[k]] == w by {
            if k < positions(pre, w).len() {
                assert(positions(flags, w)[k] == positions(pre, w)[k]);
            }
        }
    }
}

/// Positions of shopping-list entries by state: the unchecked ones first,
/// then the checked ones, each in list order.
pub fn group_by_checked(checked: &Vec<bool>) -> (r: (Vec<usize>, Vec<usize>))
    ensures
        as_ints(r.0@) == positions(checked@, false),
        as_ints(r.1@) == positions(checked@, true),
{
    (positions_where(checked, false), positions_where(checked, true))
}

/// Whether the shopping list is shown grouped: by store section (see
/// `group_by_section`), with the unchecked and checked entries listed
/// beside it (see `group_by_checked`).
pub fn is_grouped_format(format: &str) -> (b: bool)
    ensures
        b == (format@ == "grouped"@),
{
    crate::text::same_text(format, "grouped")
}

// ---------------------------------------------------------------------------
// The shopping list by store section
// ---------------------------------------------------------------------------

/// An optional text as a plain value.
pub open spec fn opt_string(o: Option<String>) -> Option<Seq<char>> {
    match o {
        Some(s) => Some(s@),
        None => None,
    }
}

/// The store section an entry belongs to: its food's supermarket category,
/// or none for a food without one.
pub open spec fn section_of(e: ShoppingListEntry) -> Option<Seq<char>> {
    opt_string(e.food.supermarket_category)
}

/// The sections of the entries, in order.
pub open spec fn entry_sections(entries: Seq<ShoppingListEntry>) -> Seq<Option<Seq<char>>> {
    entries.map_values(|e: ShoppingListEntry| section_of(e))
}

/// The distinct sections, in the order in which they first occur.
pub open spec fn sections_of(cats: Seq<Option<Seq<char>>>) -> Seq<Option<Seq<char>>>
    decreases cats.len(),
{
    if cats.len() == 0 {
        Seq::empty()
    } else if sections_of(cats.drop_last()).contains(cats.last()) {
        sections_of(cats.drop_last())
    } else {
        sections_of(cats.drop_last()).push(cats.last())
    }
}

/// Flags the entries that are in section `sec` and whose checked state is
/// `want`.
pub open spec fn in_section(entries: Seq<ShoppingListEntry>, sec: Option<Seq<char>>, want: bool) -> Seq<bool> {
    Seq::new(
        entries.len(),
        |i: int| section_of(entries[i]) == sec && entries[i].checked == want,
    )
}

/// One store section of the grouped shopping list: its name (none for
/// foods without a section) and the positions of its unchecked and checked
/// entries, each in list order.
#[derive(Debug, Clone, PartialEq)]
pub struct SectionGroup {
    pub section: Option<String>,
    pub unchecked: Vec<usize>,
    pub checked: Vec<usize>,
}

fn same_section(a: &Option<String>, b: &Option<String>) -> (r: bool)
    ensures
        r == (opt_string(*a) == opt_string(*b)),
{
    match (a, b) {
        (Some(x), Some(y)) => crate::text::same_text(x.as_str(), y.as_str()),
        (None, None) => true,
        _ => false,
    }
}

fn copy_section(a: &Option<String>) -> (r: Option<String>)
    ensures
        opt_string(r) == opt_string(*a),
{
    match a {
        Some(x) => Some(x.clone()),
        None => None,
    }
}

fn section_flags(entries: &Vec<ShoppingListEntry>, sec: &Option<String>, want: bool) -> (r: Vec<bool>)
    ensures
        r@ == in_section(entries@, opt_string(*sec), want),
{
    let mut r: Vec<bool> = Vec::new();
    let mut i: usize = 0;
    while i < entries.len()
        invariant
            i <= entries@.len(),
            r@ == Seq::new(
                i as nat,
                |k: int| section_of(entries@[k]) == opt_string(*sec) && entries@[k].checked == want,
            ),
        decreases entries.len() - i,
    {
        let e = &entries[i];
        let keep = same_section(&e.food.supermarket_category, sec) && e.checked == want;
        r.push(keep);
        i = i + 1;
        assert(r@ =~= Seq::new(
            i as nat,
            |k: int| section_of(entries@[k]) == opt_string(*sec) && entries@[k].checked == want,
        ));
    }
    assert(r@ =~= in_section(entries@, opt_string(*sec), want));
    r
}

/// The grouped layout of the shopping list by store section: one group per
/// section, in the order in which sections first occur in the list, each
/// listing the positions of its unchecked entries and of its checked
/// entries in list order.
pub fn group_by_section(entries: &Vec<ShoppingListEntry>) -> (r: Vec<SectionGroup>)
    ensures
        r@.len() == sections_of(entry_sections(entries@)).len(),
        forall|k: int|
            0 <= k < r@.len() ==> {
                let sec = sections_of(entry_sections(entries@))[k];
                &&& opt_string(#[trigger] r@[k].section) == sec
                &&& as_ints(r@[k].unchecked@) == positions(in_section(entries@, sec, false), true)
                &&& as_ints(r@[k].checked@) == positions(in_section(entries@, sec, true), true)
            },
{
    let ghost cats = entry_sections(entries@);
    let mut secs: Vec<Option<String>> = Vec::new();
    let mut i: usize = 0;
    while i < entries.len()
        invariant
            i <= entries@.len(),
            cats == entry_sections(entries@),
            secs@.map_values(|o: Option<String>| opt_string(o)) == sections_of(cats.subrange(0, i as int)),
        decreases entries.len() - i,
    {
        let c = &entries[i].food.supermarket_category;
        let ghost seen = secs@.map_values(|o: Option<String>| opt_string(o));
        assert(cats.subrange(0, i + 1).drop_last() =~= cats.subrange(0, i as int));
        assert(cats.subrange(0, i + 1).last() == opt_string(*c));
        let mut found = false;
        let mut j: usize = 0;
        while j < secs.len()
            invariant
                j <= secs@.len(),
                seen == secs@.map_values(|o: Option<String>| opt_string(o)),
                found ==> seen.contains(opt_string(*c)),
                !found ==> forall|k: int| 0 <= k < j ==> seen[k] != opt_string(*c),
            decreases secs.len() - j,
        {
            if same_section(&secs[j], c) {
                assert(seen[j as int] == opt_string(*c));
                found = true;
            }
            j = j + 1;
        }
        if !found {
            secs.push(copy_section(c));
            assert(secs@.map_values(|o: Option<String>| opt_string(o)) =~= seen.push(opt_string(*c)));
        }
        i = i + 1;
    }
    assert(cats.subrange(0, entries@.len() as int) =~= cats);
    let ghost names = sections_of(cats);
    let mut r: Vec<SectionGroup> = Vec::new();
    let mut k: usize = 0;
    while k < secs.len()
        invariant
            k <= secs@.len(),
            cats == entry_sections(entries@),
            names == sections_of(cats),
            secs@.map_values(|o: Option<String>| opt_string(o)) == names,
            r@.len() == k,
            forall|m: int|
                0 <= m < k ==> {
                    let sec = names[m];
                    &&& opt_string(#[trigger] r@[m].section) == sec
                    &&& as_ints(r@[m].unchecked@) == positions(in_section(entries@, sec, false), true)
                    &&& as_ints(r@[m].checked@) == positions(in_section(entries@, sec, true), true)
                },
        decreases secs.len() - k,
    {
        let sec = &secs[k];
        assert(opt_string(*sec) == names[k as int]);
        let unchecked_flags = section_flags(entries, sec, false);
        let checked_flags = section_flags(entries, sec, true);
        let group = SectionGroup {
            section: copy_section(sec),
            unchecked: positions_where(&unchecked_flags, true),
            checked: positions_where(&checked_flags, true),
        };
        r.push(group);
        k = k + 1;
    }
    r
}

/// The sections list every entry's section exactly once.
pub proof fn lemma_sections_of(cats: Seq<Option<Seq<char>>>)
    ensures
        forall|i: int| 0 <= i < cats.len() ==> sections_of(cats).contains(#[trigger] cats[i]),
        forall|a: int, b: int|
            0 <= a < b < sections_of(cats).len() ==> #[trigger] sections_of(cats)[a] != #[trigger] sections_of(cats)[b],
        forall|k: int| 0 <= k < sections_of(cats).len() ==> cats.contains(#[trigger] sections_of(cats)[k]),
    decreases cats.len(),
{
    if cats.len() > 0 {
        let pre = cats.drop_last();
        lemma_sections_of(pre);
        assert forall|i: int| 0 <= i < cats.len() implies sections_of(cats).contains(#[trigger] cats[i]) by {
            if i < cats.len() - 1 {
                assert(pre[i] == cats[i]);
                assert(sections_of(pre).contains(pre[i]));
                let k = choose|k: int| 0 <= k < sections_of(pre).len() && sections_of(pre)[k] == pre[i];
                assert(sections_of(cats)[k] == cats[i]);
            } else if !sections_of(pre).contains(cats.last()) {
                assert(sections_of(cats).last() == cats[i]);
            }
        }
        assert forall|k: int| 0 <= k < sections_of(cats).len() implies cats.contains(#[trigger] sections_of(cats)[k]) by {
            if k < sections_of(pre).len() {
                assert(sections_of(cats)[k] == sections_of(pre)[k]);
                assert(pre.contains(sections_of(pre)[k]));
                let j = choose|j: int| 0 <= j < pre.len() && pre[j] == sections_of(pre)[k];
                assert(cats[j] == pre[j]);
            } else {
                assert(cats[cats.len() - 1] == sections_of(cats)[k]);
            }
        }
    }
}

/// Every entry of the shopping list stands in the grouped layout exactly
/// once: among the entries of its own store section, under its own checked
/// state, and in no other section or state; and no section is listed twice.
pub proof fn law_every_entry_in_its_section(entries: Seq<ShoppingListEntry>)
    ensures
        forall|i: int|
            0 <= i < entries.len() ==> sections_of(entry_sections(entries)).contains(#[trigger] section_of(entries[i])),
        forall|a: int, b: int|
            0 <= a < b < sections_of(entry_sections(entries)).len() ==> #[trigger] sections_of(
                entry_sections(entries),
            )[a] != #[trigger] sections_of(entry_sections(entries))[b],
        forall|i: int|
            0 <= i < entries.len() ==> #[trigger] positions(
                in_section(entries, section_of(entries[i]), entries[i].checked),
                true,
            ).contains(i),
        forall|i: int, sec: Option<Seq<char>>, want: bool|
            0 <= i < entries.len() && (sec != section_of(entries[i]) || want != entries[i].checked)
                ==> !#[trigger] positions(in_section(entries, sec, want), true).contains(i),
{
    let cats = entry_sections(entries);
    lemma_sections_of(cats);
    assert forall|i: int| 0 <= i < entries.len() implies sections_of(entry_sections(entries)).contains(
        #[trigger] section_of(entries[i]),
    ) by {
        assert(cats[i] == section_of(entries[i]));
    }
    assert forall|i: int| 0 <= i < entries.len() implies #[trigger] positions(
        in_section(entries, section_of(entries[i]), entries[i].checked),
        true,
    ).contains(i) by {
        let f = in_section(entries, section_of(entries[i]), entries[i].checked);
        lemma_positions_partition(f);
        assert(f[i]);
    }
    assert forall|i: int, sec: Option<Seq<char>>, want: bool|
        0 <= i < entries.len() && (sec != section_of(entries[i]) || want != entries[i].checked)
            implies !#[trigger] positions(in_section(entries, sec, want), true).contains(i) by {
        let f = in_section(entries, sec, want);
        lemma_positions_partition(f);
        assert(!f[i]);
    }
}

/// A meal plan is listed when no meal type is asked for, or when its meal
/// type's name equals the one asked for once both are lower-cased.
pub open spec fn meal_type_wanted(name: Seq<char>, wanted: Option<Seq<char>>) -> bool {
    match wanted {
        None => true,
        Some(w) => lowercase(name) == lowercase(w),
    }
}

/// Flags the meal plans (by their meal type names) that the filter keeps.
pub open spec fn meal_type_flags(type_names: Seq<String>, wanted: Option<Seq<char>>) -> Seq<bool> {
    Seq::new(type_names.len(), |i: int| meal_type_wanted(type_names[i]@, wanted))
}

/// The positions of the meal plans (given by their meal type names) that the
/// meal-type filter keeps, in order.
pub fn filter_by_meal_type(type_names: &Vec<String>, wanted: Option<&str>) -> (r: Vec<usize>)
    ensures
        as_ints(r@) == positions(
            meal_type_flags(
                type_names@,
                match wanted {
                    Some(w) => Some(w@),
                    None => None,
                },
            ),
            true,
        ),
{
    let ghost w = match wanted {
        Some(w) => Some(w@),
        None => None,
    };
    let wanted_lower: Option<String> = match wanted {
        Some(x) => Some(to_lower(x)),
        None => None,
    };
    let mut flags: Vec<bool> = Vec::new();
    let mut i: usize = 0;
    while i < type_names.len()
        invariant
            i <= type_names@.len(),
            w == match wanted {
                Some(x) => Some(x@),
                None => None,
            },
            wanted_lower matches Some(l) ==> w is Some && l@ == lowercase(w.unwrap()),
            wanted_lower is None ==> w is None,
            flags@ == Seq::new(i as nat, |k: int| meal_type_wanted(type_names@[k]@, w)),
        decreases type_names.len() - i,
    {
        let keep = match &wanted_lower {
            None => true,
            Some(l) => {
                let n = to_lower(type_names[i].as_str());
                n == *l
            },
        };
        flags.push(keep);
        i = i + 1;
        assert(flags@ =~= Seq::new(i as nat, |k: int| meal_type_wanted(type_names@[k]@, w)));
    }
    assert(flags@ =~= Seq::new(
        type_names@.len(),
        |k: int|
            meal_type_wanted(
                type_names@[k]@,
                match wanted {
                    Some(x) => Some(x@),
                    None => None,
                },
            ),
    ));
    positions_where(&flags, true)
}

/// Lists every position when no flag is false.
pub proof fn lemma_positions_all(flags: Seq<bool>)
    requires
        forall|i: int| 0 <= i < flags.len() ==> flags[i],
    ensures
        positions(flags, true) == Seq::new(flags.len(), |i: int| i),
    decreases flags.len(),
{
    if flags.len() > 0 {
        lemma_positions_all(flags.drop_last());
        assert(positions(flags, true) =~= Seq::new(flags.len(), |i: int| i));
    } else {
        assert(positions(flags, true) =~= Seq::new(flags.len(), |i: int| i));
    }
}

/// Without a meal type to filter by, every meal plan is kept, in order.
pub proof fn lemma_no_meal_type_keeps_all(type_names: Seq<Seq<char>>)
    ensures
        positions(Seq::new(type_names.len(), |i: int| meal_type_wanted(type_names[i], None)), true)
            == Seq::new(type_names.len(), |i: int| i),
{
    lemma_positions_all(Seq::new(type_names.len(), |i: int| meal_type_wanted(type_names[i], None)));
}

/// A shopping-list entry answers to a name when its food name contains the
/// name, both lower-cased.
pub open spec fn answers_to(food_name: Seq<char>, name: Seq<char>) -> bool {
    has_substring(lowercase(food_name), lowercase(name))
}

/// The first entry (by its food name) that answers to `name`.
pub fn find_by_name(food_names: &Vec<String>, name: &str) -> (r: Option<usize>)
    ensures
        r matches Some(i) ==> i < food_names@.len() && answers_to(food_names@[i as int]@, name@)
            && forall|j: int| 0 <= j < i ==> !answers_to(#[trigger] food_names@[j]@, name@),
        r is None ==> forall|j: int|
            0 <= j < food_names@.len() ==> !answers_to(#[trigger] food_names@[j]@, name@),
{
    let needle = to_lower(name);
    let mut i: usize = 0;
    while i < food_names.len()
        invariant
            i <= food_names@.len(),
            needle@ == lowercase(name@),
            forall|j: int| 0 <= j < i ==> !answers_to(#[trigger] food_names@[j]@, name@),
        decreases food_names.len() - i,
    {
        let hay = to_lower(food_names[i].as_str());
        if contains_text(hay.as_str(), needle.as_str()) {
            return Some(i);
        }
        i = i + 1;
    }
    None
}

/// The entry id named by a number in the check tool (truncated to the
/// 32-bit id field).
pub fn entry_id_from_number(n: i64) -> (r: i32)
    ensures
        r == n as i32,
{
    n as i32
}

// ---------------------------------------------------------------------------
// Suggestions from the pantry
// ---------------------------------------------------------------------------

/// A food counts as in the pantry when it, or a substitute, is on hand.
pub open spec fn is_stocked(f: Food) -> bool {
    f.food_onhand || f.substitute_onhand
}

/// Names of the stocked foods, in order.
pub open spec fn stocked_names_of(foods: Seq<Food>) -> Seq<Seq<char>>
    decreases foods.len(),
{
    if foods.len() == 0 {
        Seq::empty()
    } else if is_stocked(foods.last()) {
        stocked_names_of(foods.drop_last()).push(foods.last().name@)
    } else {
        stocked_names_of(foods.drop_last())
    }
}

/// The names of the foods that are in the pantry, in order.
pub fn stocked_names(foods: &Vec<Food>) -> (r: Vec<String>)
    ensures
        views(r@) == stocked_names_of(foods@),
{
    let mut r: Vec<String> = Vec::new();
    let mut i: usize = 0;
    while i < foods.len()
        invariant
            i <= foods@.len(),
            views(r@) == stocked_names_of(foods@.subrange(0, i as int)),
        decreases foods.len() - i,
    {
        assert(foods@.subrange(0, i + 1).drop_last() =~= foods@.subrange(0, i as int));
        let f = &foods[i];
        if f.food_onhand || f.substitute_onhand {
            let ghost before = r@;
            r.push(f.name.clone());
            assert(views(r@) =~= views(before).push(f.name@));
        }
        i = i + 1;
    }
    assert(foods@.subrange(0, foods@.len() as int) =~= foods@);
    r
}

/// An ingredient line takes part in matching unless it is a header or has
/// no amount.
pub open spec fn counts_toward_match(g: StepIngredient) -> bool {
    !g.is_header && !g.no_amount
}

/// All ingredient lines of the steps, step by step.
pub open spec fn all_ingredients(steps: Seq<Step>) -> Seq<StepIngredient>
    decreases steps.len(),
{
    if steps.len() == 0 {
        Seq::empty()
    } else {
        all_ingredients(steps.drop_last()) + steps.last().ingredients@
    }
}

/// A name is in the pantry when some pantry name equals it once both are
/// lower-cased.
pub open spec fn in_pantry(name: Seq<char>, pantry: Seq<Seq<char>>) -> bool {
    exists|j: int| 0 <= j < pantry.len() && lowercase(#[trigger] pantry[j]) == lowercase(name)
}

/// Number of ingredient lines that take part in matching.
pub open spec fn counted_total(ings: Seq<StepIngredient>) -> nat
    decreases ings.len(),
{
    if ings.len() == 0 {
        0
    } else {
        counted_total(ings.drop_last()) + if counts_toward_match(ings.last()) {
            1nat
        } else {
            0nat
        }
    }
}

/// Number of those lines whose food is in the pantry.
pub open spec fn matched_total(ings: Seq<StepIngredient>, pantry: Seq<Seq<char>>) -> nat
    decreases ings.len(),
{
    if ings.len() == 0 {
        0
    } else {
        matched_total(ings.drop_last(), pantry) + if counts_toward_match(ings.last()) && in_pantry(
            ings.last().food.name@,
            pantry,
        ) {
            1nat
        } else {
            0nat
        }
    }
}

/// Food names of those lines whose food is not in the pantry, in order.
pub open spec fn missing_names(ings: Seq<StepIngredient>, pantry: Seq<Seq<char>>) -> Seq<Seq<char>>
    decreases ings.len(),
{
    if ings.len() == 0 {
        Seq::empty()
    } else if counts_toward_match(ings.last()) && !in_pantry(ings.last().food.name@, pantry) {
        missing_names(ings.drop_last(), pantry).push(ings.last().food.name@)
    } else {
        missing_names(ings.drop_last(), pantry)
    }
}

/// How well a recipe's ingredients are covered by the pantry.
#[derive(Debug, Clone, PartialEq)]
pub struct RecipeScore {
    /// Ingredient lines that take part in matching and are in the pantry.
    pub matching: usize,
    /// Ingredient lines that take part in matching.
    pub total: usize,
    /// Food names of the lines not in the pantry, in order.
    pub missing: Vec<String>,
}

fn lowered_all(names: &Vec<String>) -> (r: Vec<String>)
    ensures
        r@.len() == names@.len(),
        forall|j: int| 0 <= j < r@.len() ==> #[trigger] r@[j]@ == lowercase(names@[j]@),
{
    let mut r: Vec<String> = Vec::new();
    let mut i: usize = 0;
    while i < names.len()
        invariant
            i <= names@.len(),
            r@.len() == i,
            forall|j: int| 0 <= j < i ==> #[trigger] r@[j]@ == lowercase(names@[j]@),
        decreases names.len() - i,
    {
        r.push(to_lower(names[i].as_str()));
        i = i + 1;
    }
    r
}

fn pantry_has(lowered: &Vec<String>, pantry: Ghost<Seq<Seq<char>>>, name: &str) -> (b: bool)
    requires
        lowered@.len() == pantry@.len(),
        forall|j: int| 0 <= j < lowered@.len() ==> #[trigger] lowered@[j]@ == lowercase(pantry@[j]),
    ensures
        b == in_pantry(name@, pantry@),
{
    let l = to_lower(name);
    let mut j: usize = 0;
    while j < lowered.len()
        invariant
            j <= lowered@.len(),
            l@ == lowercase(name@),
            lowered@.len() == pantry@.len(),
            forall|k: int| 0 <= k < lowered@.len() ==> #[trigger] lowered@[k]@ == lowercase(pantry@[k]),
            forall|k: int| 0 <= k < j ==> lowercase(#[trigger] pantry@[k]) != lowercase(name@),
        decreases lowered.len() - j,
    {
        if lowered[j] == l {
            assert(lowercase(pantry@[j as int]) == lowercase(name@));
            return true;
        }
        j = j + 1;
    }
    false
}

/// Scores a recipe against the pantry names: counts the ingredient lines
/// that take part in matching, those found in the pantry, and lists the
/// food names of the others. The lines must be countable in memory.
pub fn score_recipe(recipe: &Recipe, pantry: &Vec<String>) -> (s: RecipeScore)
    requires
        all_ingredients(recipe.steps@).len() <= usize::MAX,
    ensures
        s.total as nat == counted_total(all_ingredients(recipe.steps@)),
        s.matching as nat == matched_total(all_ingredients(recipe.steps@), views(pantry@)),
        views(s.missing@) == missing_names(all_ingredients(recipe.steps@), views(pantry@)),
{
    let ghost p = views(pantry@);
    let lowered = lowered_all(pantry);
    let mut total: usize = 0;
    let mut matching: usize = 0;
    let mut missing: Vec<String> = Vec::new();
    let steps = &recipe.steps;
    let mut i: usize = 0;
    while i < steps.len()
        invariant
            i <= steps@.len(),
            steps@ == recipe.steps@,
            p == views(pantry@),
            all_ingredients(recipe.steps@).len() <= usize::MAX,
            lowered@.len() == p.len(),
            forall|j: int| 0 <= j < lowered@.len() ==> #[trigger] lowered@[j]@ == lowercase(p[j]),
            total as nat == counted_total(all_ingredients(steps@.subrange(0, i as int))),
            matching as nat == matched_total(all_ingredients(steps@.subrange(0, i as int)), p),
            views(missing@) == missing_names(all_ingredients(steps@.subrange(0, i as int)), p),
            all_ingredients(steps@.subrange(0, i as int)).len() <= all_ingredients(steps@).len(),
        decreases steps.len() - i,
    {
        let ghost done = all_ingredients(steps@.subrange(0, i as int));
        let ings = &steps[i].ingredients;
        proof {
            assert(steps@.subrange(0, i + 1).drop_last() =~= steps@.subrange(0, i as int));
            assert(all_ingredients(steps@.subrange(0, i + 1)) == done + ings@);
            lemma_all_ingredients_prefix(steps@, i as int + 1);
        }
        proof {
            lemma_counts_bounded(done, p);
            assert(done + ings@.subrange(0, 0) =~= done);
        }
        let mut j: usize = 0;
        while j < ings.len()
            invariant
                j <= ings@.len(),
                p == views(pantry@),
                lowered@.len() == p.len(),
                forall|k: int| 0 <= k < lowered@.len() ==> #[trigger] lowered@[k]@ == lowercase(p[k]),
                (done + ings@).len() <= usize::MAX,
                total <= (done + ings@.subrange(0, j as int)).len(),
                matching <= (done + ings@.subrange(0, j as int)).len(),
                total as nat == counted_total(done + ings@.subrange(0, j as int)),
                matching as nat == matched_total(done + ings@.subrange(0, j as int), p),
                views(missing@) == missing_names(done + ings@.subrange(0, j as int), p),
            decreases ings.len() - j,
        {
            let g = &ings[j];
            let ghost seen = done + ings@.subrange(0, j as int);
            let ghost next = done + ings@.subrange(0, j + 1);
            assert(next.drop_last() =~= seen);
            assert(next.last() == ings@[j as int]);
            proof {
                lemma_counts_bounded(next, p);
            }
            if !g.is_header && !g.no_amount {
                total = total + 1;
                if pantry_has(&lowered, Ghost(p), g.food.name.as_str()) {
                    matching = matching + 1;
                } else {
                    let ghost before = missing@;
                    missing.push(g.food.name.clone());
                    assert(views(missing@) =~= views(before).push(g.food.name@));
                }
            }
            j = j + 1;
        }
        assert(ings@.subrange(0, ings@.len() as int) =~= ings@);
        i = i + 1;
    }
    assert(steps@.subrange(0, steps@.len() as int) =~= steps@);
    RecipeScore { matching, total, missing }
}

/// Counted and matched lines are no more than all the lines.
pub proof fn lemma_counts_bounded(ings: Seq<StepIngredient>, pantry: Seq<Seq<char>>)
    ensures
        counted_total(ings) <= ings.len(),
        matched_total(ings, pantry) <= ings.len(),
    decreases ings.len(),
{
    if ings.len() > 0 {
        lemma_counts_bounded(ings.drop_last(), pantry);
    }
}

/// The ingredient lines of a prefix of the steps are no more than those of
/// all the steps.
pub proof fn lemma_all_ingredients_prefix(steps: Seq<Step>, i: int)
    requires
        0 <= i <= steps.len(),
    ensures
        all_ingredients(steps.subrange(0, i)).len() <= all_ingredients(steps).len(),
    decreases steps.len(),
{
    if i < steps.len() {
        assert(steps.drop_last().subrange(0, i) =~= steps.subrange(0, i));
        lemma_all_ingredients_prefix(steps.drop_last(), i);
    } else {
        assert(steps.subrange(0, i) =~= steps);
    }
}

/// Whether a suggestion mode accepts a recipe whose matching lines cover
/// `matching` of `total`: `maximum-use` wants at least half, `expiring` at
/// least 30 % with at most three missing, any other mode at least 60 %.
pub open spec fn mode_accepts(mode: Seq<char>, matching: int, total: int, missing: int) -> bool {
    if mode == "maximum-use"@ {
        100 * matching >= 50 * total
    } else if mode == "expiring"@ {
        100 * matching >= 30 * total && missing <= 3
    } else {
        100 * matching >= 60 * total
    }
}

pub fn accepts(mode: &str, matching: usize, total: usize, missing: usize) -> (b: bool)
    ensures
        b == mode_accepts(mode@, matching as int, total as int, missing as int),
{
    let m = matching as u128;
    let t = total as u128;
    if crate::text::same_text(mode, "maximum-use") {
        100 * m >= 50 * t
    } else if crate::text::same_text(mode, "expiring") {
        100 * m >= 30 * t && missing <= 3
    } else {
        100 * m >= 60 * t
    }
}

/// Whether the mode is `expiring`, whose suggestions also count the
/// missing lines in their reason.
pub fn is_expiring_mode(mode: &str) -> (b: bool)
    ensures
        b == (mode@ == "expiring"@),
{
    crate::text::same_text(mode, "expiring")
}

/// A recipe that the mode accepted: its place in the searched list and its
/// counts.
#[derive(Debug, Clone, Copy, PartialEq, Eq)]
pub struct Candidate {
    pub position: usize,
    pub matching: usize,
    pub total: usize,
}

/// `a` ranks before `b`: a higher share of matching lines (compared as
/// fractions), and on an equal share, the earlier place in the list.
pub open spec fn ranks_before(a: Candidate, b: Candidate) -> bool {
    a.matching as int * b.total as int > b.matching as int * a.total as int || (a.matching as int
        * b.total as int == b.matching as int * a.total as int && a.position < b.position)
}

proof fn lemma_cross_multiply(am: int, at: int, bm: int, bt: int, cm: int, ct: int)
    by (nonlinear_arith)
    requires
        at > 0,
        bt > 0,
        ct > 0,
        am * bt >= bm * at,
        bm * ct >= cm * bt,
    ensures
        am * ct >= cm * at,
        (am * bt > bm * at || bm * ct > cm * bt) ==> am * ct > cm * at,
{
    assert(am * bt * ct >= bm * at * ct);
    assert(bm * ct * at >= cm * bt * at);
    assert((am * ct) * bt >= (cm * at) * bt);
    if am * bt > bm * at {
        assert(am * bt * ct > bm * at * ct);
    }
    if bm * ct > cm * bt {
        assert(bm * ct * at > cm * bt * at);
    }
}

/// Ranking is transitive among candidates with lines to match.
pub proof fn lemma_ranks_transitive(a: Candidate, b: Candidate, c: Candidate)
    requires
        a.total > 0,
        b.total > 0,
        c.total > 0,
        ranks_before(a, b),
        ranks_before(b, c),
    ensures
        ranks_before(a, c),
{
    lemma_cross_multiply(
        a.matching as int,
        a.total as int,
        b.matching as int,
        b.total as int,
        c.matching as int,
        c.total as int,
    );
}

/// Ranking is a strict total order among candidates at different places.
pub proof fn lemma_ranks_total(a: Candidate, b: Candidate)
    requires
        a.position != b.position,
    ensures
        ranks_before(a, b) != ranks_before(b, a),
{
}

fn ranks_before_exec(a: &Candidate, b: &Candidate) -> (r: bool)
    ensures
        r == ranks_before(*a, *b),
{
    let am = a.matching as u128;
    let at = a.total as u128;
    let bm = b.matching as u128;
    let bt = b.total as u128;
    assert(am * bt <= 0xffff_ffff_ffff_ffff * 0xffff_ffff_ffff_ffff) by (nonlinear_arith)
        requires
            am <= 0xffff_ffff_ffff_ffff,
            bt <= 0xffff_ffff_ffff_ffff,
    ;
    assert(bm * at <= 0xffff_ffff_ffff_ffff * 0xffff_ffff_ffff_ffff) by (nonlinear_arith)
        requires
            bm <= 0xffff_ffff_ffff_ffff,
            at <= 0xffff_ffff_ffff_ffff,
    ;
    let l = am * bt;
    let r = bm * at;
    l > r || (l == r && a.position < b.position)
}

/// The candidates are ranked by a strict total order.
pub open spec fn well_ranked(cands: Seq<Candidate>) -> bool {
    &&& forall|i: int| 0 <= i < cands.len() ==> (#[trigger] cands[i]).total > 0
    &&& forall|i: int, j: int|
        0 <= i < j < cands.len() ==> (#[trigger] cands[i]).position != (#[trigger] cands[j]).position
}

/// The first `limit` candidates in rank order: as many as there are, up to
/// `limit`; strictly ranked; drawn from the candidates; and every candidate
/// left out ranks after every one chosen.
pub fn top_ranked(cands: &Vec<Candidate>, limit: usize) -> (r: Vec<Candidate>)
    requires
        well_ranked(cands@),
    ensures
        r@.len() == if cands@.len() < limit { cands@.len() } else { limit as nat },
        forall|i: int, j: int| 0 <= i < j < r@.len() ==> ranks_before(#[trigger] r@[i], #[trigger] r@[j]),
        forall|i: int| 0 <= i < r@.len() ==> cands@.contains(#[trigger] r@[i]),
        forall|k: int|
            0 <= k < cands@.len() ==> r@.contains(#[trigger] cands@[k]) || forall|i: int|
                0 <= i < r@.len() ==> ranks_before(#[trigger] r@[i], cands@[k]),
{
    broadcast use vstd::seq_lib::group_to_multiset_ensures;

    let mut rest: Vec<Candidate> = Vec::new();
    let mut i: usize = 0;
    while i < cands.len()
        invariant
            i <= cands@.len(),
            rest@ == cands@.subrange(0, i as int),
        decreases cands.len() - i,
    {
        rest.push(cands[i]);
        i = i + 1;
    }
    assert(rest@ =~= cands@);
    let mut r: Vec<Candidate> = Vec::new();
    while r.len() < limit && rest.len() > 0
        invariant
            well_ranked(cands@),
            r@.len() + rest@.len() == cands@.len(),
            r@.len() <= limit,
            r@.to_multiset().add(rest@.to_multiset()) =~= cands@.to_multiset(),
            forall|x: int| 0 <= x < rest@.len() ==> (#[trigger] rest@[x]).total > 0,
            forall|x: int, y: int|
                0 <= x < y < rest@.len() ==> (#[trigger] rest@[x]).position != (#[trigger] rest@[y]).position,
            forall|a: int, b: int|
                0 <= a < b < r@.len() ==> ranks_before(#[trigger] r@[a], #[trigger] r@[b]),
            forall|a: int, x: int|
                0 <= a < r@.len() && 0 <= x < rest@.len() ==> ranks_before(#[trigger] r@[a], #[trigger] rest@[x]),
        decreases rest.len(),
    {
        let mut best: usize = 0;
        let mut j: usize = 1;
        while j < rest.len()
            invariant
                1 <= j <= rest@.len(),
                best < j,
                forall|x: int| 0 <= x < rest@.len() ==> (#[trigger] rest@[x]).total > 0,
                forall|x: int, y: int|
                    0 <= x < y < rest@.len() ==> (#[trigger] rest@[x]).position != (#[trigger] rest@[y]).position,
                forall|x: int| 0 <= x < j && x != best ==> ranks_before(rest@[best as int], #[trigger] rest@[x]),
            decreases rest.len() - j,
        {
            if ranks_before_exec(&rest[j], &rest[best]) {
                proof {
                    assert forall|x: int| 0 <= x < j + 1 && x != j implies ranks_before(rest@[j as int], #[trigger] rest@[x]) by {
                        if x != best {
                            lemma_ranks_transitive(rest@[j as int], rest@[best as int], rest@[x]);
                        }
                    }
                }
                best = j;
            } else {
                proof {
                    lemma_ranks_total(rest@[j as int], rest@[best as int]);
                }
            }
            j = j + 1;
        }
        let ghost old_rest = rest@;
        let c = rest.remove(best);
        let ghost old_r = r@;
        r.push(c);
        proof {
            old_r.to_multiset_ensures();
            old_rest.to_multiset_ensures();
            assert(r@ =~= old_r.push(c));
            assert(old_r.push(c).to_multiset() =~= old_r.to_multiset().insert(c));
            assert(rest@ =~= old_rest.remove(best as int));
            assert(old_rest.remove(best as int).to_multiset() =~= old_rest.to_multiset().remove(old_rest[best as int]));
            assert(r@.to_multiset() =~= old_r.to_multiset().insert(c));
            assert(rest@.to_multiset() =~= old_rest.to_multiset().remove(c));
            assert(old_rest.to_multiset().count(c) > 0);
            assert(r@.to_multiset().add(rest@.to_multiset()) =~= old_r.to_multiset().add(
                old_rest.to_multiset(),
            ));
            assert forall|a: int, b: int| 0 <= a < b < r@.len() implies ranks_before(#[trigger] r@[a], #[trigger] r@[b]) by {
                if b < old_r.len() {
                } else {
                    assert(r@[b] == c);
                }
            }
        }
    }
    proof {
        assert forall|i: int| 0 <= i < r@.len() implies cands@.contains(#[trigger] r@[i]) by {
            assert(r@.contains(r@[i]));
            assert(r@.to_multiset().count(r@[i]) > 0);
            assert(cands@.to_multiset().count(r@[i]) == r@.to_multiset().count(r@[i]) + rest@.to_multiset().count(r@[i]));
        }
        assert forall|k: int| 0 <= k < cands@.len() implies r@.contains(#[trigger] cands@[k]) || forall|i: int|
            0 <= i < r@.len() ==> ranks_before(#[trigger] r@[i], cands@[k]) by {
            assert(cands@.contains(cands@[k]));
            assert(cands@.to_multiset().count(cands@[k]) > 0);
            assert(cands@.to_multiset().count(cands@[k]) == r@.to_multiset().count(cands@[k]) + rest@.to_multiset().count(cands@[k]));
            if !r@.contains(cands@[k]) {
                assert(rest@.to_multiset().count(cands@[k]) > 0);
                assert(rest@.contains(cands@[k]));
                let x = choose|x: int| 0 <= x < rest@.len() && rest@[x] == cands@[k];
                assert forall|i: int| 0 <= i < r@.len() implies ranks_before(#[trigger] r@[i], cands@[k]) by {
                    assert(ranks_before(r@[i], rest@[x]));
                }
            }
        }
    }
    r
}

/// A recipe is suggested when it was scored (its details could be read),
/// has lines to match, and its mode accepts it.
pub open spec fn suggested(score: Option<RecipeScore>, mode: Seq<char>) -> bool {
    match score {
        Some(s) => s.total > 0 && mode_accepts(mode, s.matching as int, s.total as int, s.missing@.len() as int),
        None => false,
    }
}

/// The candidates among scored recipes, in list order: one per suggested
/// recipe, at its place in the list and with its counts.
pub open spec fn candidates_of(scores: Seq<Option<RecipeScore>>, mode: Seq<char>) -> Seq<Candidate>
    decreases scores.len(),
{
    if scores.len() == 0 {
        Seq::empty()
    } else if suggested(scores.last(), mode) {
        candidates_of(scores.drop_last(), mode).push(
            Candidate {
                position: (scores.len() - 1) as usize,
                matching: scores.last().unwrap().matching,
                total: scores.last().unwrap().total,
            },
        )
    } else {
        candidates_of(scores.drop_last(), mode)
    }
}

/// The candidates lie in the list, have lines to match, and stand at
/// increasing places.
pub proof fn lemma_candidates_well_ranked(scores: Seq<Option<RecipeScore>>, mode: Seq<char>)
    requires
        scores.len() <= usize::MAX,
    ensures
        well_ranked(candidates_of(scores, mode)),
        forall|k: int|
            0 <= k < candidates_of(scores, mode).len() ==> (#[trigger] candidates_of(scores, mode)[k]).position
                < scores.len(),
        forall|a: int, b: int|
            0 <= a < b < candidates_of(scores, mode).len() ==> (#[trigger] candidates_of(scores, mode)[a]).position
                < (#[trigger] candidates_of(scores, mode)[b]).position,
    decreases scores.len(),
{
    if scores.len() > 0 {
        lemma_candidates_well_ranked(scores.drop_last(), mode);
    }
}

/// Picks the candidates from the recipes' scores (`None` for a recipe whose
/// details could not be read): exactly the suggested recipes, in list order.
pub fn select_candidates(scores: &Vec<Option<RecipeScore>>, mode: &str) -> (r: Vec<Candidate>)
    ensures
        r@ == candidates_of(scores@, mode@),
{
    let mut r: Vec<Candidate> = Vec::new();
    let mut i: usize = 0;
    while i < scores.len()
        invariant
            i <= scores@.len(),
            r@ == candidates_of(scores@.subrange(0, i as int), mode@),
        decreases scores.len() - i,
    {
        assert(scores@.subrange(0, i + 1).drop_last() =~= scores@.subrange(0, i as int));
        match &scores[i] {
            Some(s) => {
                if s.total > 0 && accepts(mode, s.matching, s.total, s.missing.len()) {
                    r.push(Candidate { position: i, matching: s.matching, total: s.total });
                }
            },
            None => {},
        }
        i = i + 1;
    }
    assert(scores@.subrange(0, scores@.len() as int) =~= scores@);
    r
}

/// The suggestions of a run: the first `limit` of the suggested recipes in
/// rank order (higher share of matching lines first, list order on equal
/// shares). Recipes that could not be read, have no lines to match, or
/// that the mode rejects are never suggested.
pub fn suggestions(scores: &Vec<Option<RecipeScore>>, mode: &str, limit: usize) -> (r: Vec<Candidate>)
    ensures
        r@.len() == if candidates_of(scores@, mode@).len() < limit {
            candidates_of(scores@, mode@).len()
        } else {
            limit as nat
        },
        forall|i: int, j: int| 0 <= i < j < r@.len() ==> ranks_before(#[trigger] r@[i], #[trigger] r@[j]),
        forall|i: int| 0 <= i < r@.len() ==> candidates_of(scores@, mode@).contains(#[trigger] r@[i]),
        forall|k: int|
            0 <= k < candidates_of(scores@, mode@).len() ==> r@.contains(
                #[trigger] candidates_of(scores@, mode@)[k],
            ) || forall|i: int| 0 <= i < r@.len() ==> ranks_before(#[trigger] r@[i], candidates_of(scores@, mode@)[k]),
{
    let cands = select_candidates(scores, mode);
    let n = scores.len();
    proof {
        assert(scores@.len() == n);
        lemma_candidates_well_ranked(scores@, mode@);
    }
    top_ranked(&cands, limit)
}

/// A recipe is suggested only when it was read, has lines to match, and is
/// accepted by the mode: every suggestion is such a recipe, at its place.
pub proof fn law_only_accepted_recipes_are_suggested(
    scores: Seq<Option<RecipeScore>>,
    mode: Seq<char>,
    c: Candidate,
)
    requires
        scores.len() <= usize::MAX,
        candidates_of(scores, mode).contains(c),
    ensures
        c.position < scores.len(),
        suggested(scores[c.position as int], mode),
        c.matching == scores[c.position as int].unwrap().matching,
        c.total == scores[c.position as int].unwrap().total,
    decreases scores.len(),
{
    let pre = scores.drop_last();
    let k = choose|k: int| 0 <= k < candidates_of(scores, mode).len() && candidates_of(scores, mode)[k] == c;
    if suggested(scores.last(), mode) && k == candidates_of(scores, mode).len() - 1 {
    } else {
        assert(candidates_of(pre, mode)[k] == c);
        assert(candidates_of(pre, mode).contains(c));
        law_only_accepted_recipes_are_suggested(pre, mode, c);
        lemma_candidates_well_ranked(pre, mode);
        assert(pre[c.position as int] == scores[c.position as int]);
    }
}

/// How a suggestion run is summarised.
pub fn suggestions_summary(suggestions: usize, available: usize) -> (r: String)
    ensures
        r@ == "Found "@ + decimal(suggestions as int) + " recipe suggestions using your "@ + decimal(
            available as int,
        ) + " available ingredients"@,
{
    counts_phrase(
        "Found ",
        suggestions,
        " recipe suggestions using your ",
        available,
        " available ingredients",
    )
}

// ---------------------------------------------------------------------------
// Shopping list tools
// ---------------------------------------------------------------------------

/// What the add-to-shopping-list tool was asked to do.
#[derive(Debug, Clone, Copy, PartialEq, Eq)]
pub enum ShoppingRequest {
    /// Add the listed items.
    Items,
    /// A free-text request, which is answered with guidance only.
    Text,
    /// Neither was given: an error.
    Missing,
}

/// Items take precedence over a free-text request.
pub fn shopping_request_kind(has_items: bool, has_text: bool) -> (r: ShoppingRequest)
    ensures
        has_items ==> r == ShoppingRequest::Items,
        !has_items && has_text ==> r == ShoppingRequest::Text,
        !has_items && !has_text ==> r == ShoppingRequest::Missing,
{
    if has_items {
        ShoppingRequest::Items
    } else if has_text {
        ShoppingRequest::Text
    } else {
        ShoppingRequest::Missing
    }
}

/// `Added A items, E errors`.
pub fn added_summary(added: usize, errors: usize) -> (r: String)
    ensures
        r@ == "Added "@ + decimal(added as int) + " items, "@ + decimal(errors as int) + " errors"@,
{
    counts_phrase("Added ", added, " items, ", errors, " errors")
}

/// `Checked C items, E errors`.
pub fn checked_summary(checked: usize, errors: usize) -> (r: String)
    ensures
        r@ == "Checked "@ + decimal(checked as int) + " items, "@ + decimal(errors as int)
            + " errors"@,
{
    counts_phrase("Checked ", checked, " items, ", errors, " errors")
}

/// `Updated U items, E errors`.
pub fn updated_summary(updated: usize, errors: usize) -> (r: String)
    ensures
        r@ == "Updated "@ + decimal(updated as int) + " items, "@ + decimal(errors as int)
            + " errors"@,
{
    counts_phrase("Updated ", updated, " items, ", errors, " errors")
}

/// `Removed R checked items, updated pantry for P items`.
pub fn cleared_summary(removed: usize, pantry_updates: usize) -> (r: String)
    ensures
        r@ == "Removed "@ + decimal(removed as int) + " checked items, updated pantry for "@
            + decimal(pantry_updates as int) + " items"@,
{
    counts_phrase(
        "Removed ",
        removed,
        " checked items, updated pantry for ",
        pantry_updates,
        " items",
    )
}

/// The positions of the ingredient lines that go onto the shopping list,
/// as (step, line) pairs in order: every line that is neither a header nor
/// without amount.
pub open spec fn shopping_positions_of(steps: Seq<Step>) -> Seq<(int, int)>
    decreases steps.len(),
{
    if steps.len() == 0 {
        Seq::empty()
    } else {
        shopping_positions_of(steps.drop_last()) + shopping_positions_in(
            steps.len() - 1,
            steps.last().ingredients@,
        )
    }
}

/// The positions within one step's lines that go onto the shopping list.
pub open spec fn shopping_positions_in(step: int, lines: Seq<StepIngredient>) -> Seq<(int, int)>
    decreases lines.len(),
{
    if lines.len() == 0 {
        Seq::empty()
    } else if counts_toward_match(lines.last()) {
        shopping_positions_in(step, lines.drop_last()).push((step, lines.len() - 1))
    } else {
        shopping_positions_in(step, lines.drop_last())
    }
}

/// Pairs of positions as plain integers.
pub open spec fn as_int_pairs(v: Seq<(usize, usize)>) -> Seq<(int, int)> {
    v.map_values(|p: (usize, usize)| (p.0 as int, p.1 as int))
}

/// The (step, line) positions of a recipe's ingredients that a meal plan
/// adds to the shopping list.
pub fn shopping_positions(recipe: &Recipe) -> (r: Vec<(usize, usize)>)
    ensures
        as_int_pairs(r@) == shopping_positions_of(recipe.steps@),
{
    let steps = &recipe.steps;
    let mut r: Vec<(usize, usize)> = Vec::new();
    let mut i: usize = 0;
    while i < steps.len()
        invariant
            i <= steps@.len(),
            steps@ == recipe.steps@,
            as_int_pairs(r@) == shopping_positions_of(steps@.subrange(0, i as int)),
        decreases steps.len() - i,
    {
        let ghost done = as_int_pairs(r@);
        let lines = &steps[i].ingredients;
        assert(steps@.subrange(0, i + 1).drop_last() =~= steps@.subrange(0, i as int));
        let mut j: usize = 0;
        while j < lines.len()
            invariant
                j <= lines@.len(),
                as_int_pairs(r@) == done + shopping_positions_in(i as int, lines@.subrange(0, j as int)),
            decreases lines.len() - j,
        {
            assert(lines@.subrange(0, j + 1).drop_last() =~= lines@.subrange(0, j as int));
            let g = &lines[j];
            if !g.is_header && !g.no_amount {
                let ghost before = r@;
                r.push((i, j));
                assert(as_int_pairs(r@) =~= as_int_pairs(before).push((i as int, j as int)));
            }
            j = j + 1;
        }
        assert(lines@.subrange(0, lines@.len() as int) =~= lines@);
        i = i + 1;
    }
    assert(steps@.subrange(0, steps@.len() as int) =~= steps@);
    r
}

/// How adding meal plans to the shopping list is summarised.
pub fn meal_plan_shopping_summary(added: usize, plans: usize, from_date: &str, to_date: &str) -> (r:
    String)
    ensures
        r@ == "Added "@ + decimal(added as int) + " ingredients to shopping list from "@ + decimal(
            plans as int,
        ) + " meal plans ("@ + from_date@ + " to "@ + to_date@ + ")"@,
{
    let mut r = counts_phrase(
        "Added ",
        added,
        " ingredients to shopping list from ",
        plans,
        " meal plans (",
    );
    r.append(from_date);
    r.append(" to ");
    r.append(to_date);
    r.append(")");
    r
}

// ---------------------------------------------------------------------------
// Meal plans, cook log
// ---------------------------------------------------------------------------

/// `FROM to TO`.
pub fn date_range(from_date: &str, to_date: &str) -> (r: String)
    ensures
        r@ == from_date@ + " to "@ + to_date@,
{
    concat3(from_date, " to ", to_date)
}

/// The date format meal plans use.
pub open spec fn plan_date_format() -> Seq<char> {
    "%Y-%m-%d"@
}

/// The request that the meal-plan creation tool sends, once its date reads
/// as `YYYY-MM-DD`; otherwise the date error.
pub fn meal_plan_request(params: CreateMealPlanParams) -> (r: Result<CreateMealPlanRequest, String>)
    ensures
        r is Ok <==> naive_date_parse(params.date@, plan_date_format()) is Ok,
        r matches Ok(q) ==> {
            &&& naive_date_parse(params.date@, plan_date_format()) == Ok::<(int, int, int), Seq<char>>(
                (q.date.year as int, q.date.month as int, q.date.day as int),
            )
            &&& q.recipe == params.recipe_id
            &&& q.title == params.title
            &&& q.servings == params.servings
            &&& q.meal_type == params.meal_type
            &&& q.note == params.note
        },
        r matches Err(e) ==> naive_date_parse(params.date@, plan_date_format()) == Err::<
            (int, int, int),
            Seq<char>,
        >(e@),
{
    match parse_date(params.date.as_str(), "%Y-%m-%d") {
        Ok(date) => Ok(
            CreateMealPlanRequest {
                recipe: params.recipe_id,
                title: params.title,
                servings: params.servings,
                date,
                meal_type: params.meal_type,
                note: params.note,
            },
        ),
        Err(e) => Err(e),
    }
}

/// The request that logging a cooked recipe sends.
pub fn cook_log_request(params: LogCookedRecipeParams) -> (r: CreateCookLogRequest)
    ensures
        r.recipe == params.recipe_id,
        r.servings == params.servings,
        r.rating == params.rating,
        r.comment == params.comment,
{
    CreateCookLogRequest {
        recipe: params.recipe_id,
        servings: params.servings,
        rating: params.rating,
        comment: params.comment,
    }
}

// ---------------------------------------------------------------------------
// Recipe maintenance and recipe books
// ---------------------------------------------------------------------------

/// The fields a recipe update sends: the id always, every other field only
/// when given. The cooking time is sent as the recipe's working time, and a
/// source title is not sent.
#[derive(Debug, Clone, PartialEq)]
pub struct RecipePatch {
    pub id: i32,
    pub name: Option<String>,
    pub description: Option<String>,
    pub servings: Option<i64>,
    pub working_time: Option<i64>,
    pub waiting_time: Option<i64>,
    pub source_url: Option<String>,
    /// Keyword ids, each sent as an object holding its id.
    pub keyword_ids: Option<Vec<i64>>,
}

pub fn recipe_patch(params: UpdateRecipeParams) -> (r: RecipePatch)
    ensures
        r.id == params.id,
        r.name == params.name,
        r.description == params.description,
        r.servings == params.servings,
        r.working_time == params.cooking_time,
        r.waiting_time == params.waiting_time,
        r.source_url == params.source_url,
        r.keyword_ids == params.keywords,
{
    RecipePatch {
        id: params.id,
        name: params.name,
        description: params.description,
        servings: params.servings,
        working_time: params.cooking_time,
        waiting_time: params.waiting_time,
        source_url: params.source_url,
        keyword_ids: params.keywords,
    }
}

/// `Recipe ID deleted successfully`.
pub fn recipe_deleted_message(id: i32) -> (r: String)
    ensures
        r@ == "Recipe "@ + decimal(id as int) + " deleted successfully"@,
{
    number_phrase("Recipe ", id, " deleted successfully")
}

/// The request that creates a recipe book.
pub fn recipe_book_request(params: CreateRecipeBookParams) -> (r: CreateRecipeBookRequest)
    ensures
        r.name == params.name,
        r.description == params.description,
{
    CreateRecipeBookRequest { name: params.name, description: params.description }
}

/// `Recipe book ID deleted`.
pub fn recipe_book_deleted_message(id: i32) -> (r: String)
    ensures
        r@ == "Recipe book "@ + decimal(id as int) + " deleted"@,
{
    number_phrase("Recipe book ", id, " deleted")
}

/// The request that adds a recipe to a book.
pub fn recipe_book_entry_request(params: AddToRecipeBookParams) -> (r: CreateRecipeBookEntryRequest)
    ensures
        r.book == params.recipe_book,
        r.recipe == params.recipe,
{
    CreateRecipeBookEntryRequest { book: params.recipe_book, recipe: params.recipe }
}

/// A name taken from embedded API content, or `fallback` when there is none.
pub fn name_or(name: Option<String>, fallback: &str) -> (r: String)
    ensures
        r@ == match name {
            Some(n) => n@,
            None => fallback@,
        },
{
    match name {
        Some(n) => n,
        None => String::from_str(fallback),
    }
}

/// `Added 'RECIPE' to book 'BOOK'`.
pub fn added_to_book_message(recipe_name: &str, book_name: &str) -> (r: String)
    ensures
        r@ == "Added '"@ + recipe_name@ + "' to book '"@ + book_name@ + "'"@,
{
    let mut r = concat4("Added '", recipe_name, "' to book '", book_name);
    r.append("'");
    r
}

/// `Removed recipe book entry ID`.
pub fn entry_removed_message(id: i32) -> (r: String)
    ensures
        r@ == "Removed recipe book entry "@ + decimal(id as int),
{
    let r = number_phrase("Removed recipe book entry ", id, "");
    proof {
        reveal_strlit("");
        assert(r@ =~= "Removed recipe book entry "@ + decimal(id as int));
    }
    r
}

// ---------------------------------------------------------------------------
// Per-item decisions of the shopping-list and pantry tools
// ---------------------------------------------------------------------------

/// What looking a food up by name came to.
#[derive(Debug, Clone, Copy, PartialEq, Eq)]
pub enum FoodLookup {
    /// The first search result, by its id.
    Found(i32),
    /// The search answered with no food.
    NotFound,
    /// The search itself failed.
    SearchFailed,
}

/// Decides a lookup from the ids of the foods the search answered with
/// (`None` when the search failed): the first food is taken.
pub fn food_lookup(result_ids: Option<&Vec<i32>>) -> (r: FoodLookup)
    ensures
        result_ids is None ==> r == FoodLookup::SearchFailed,
        result_ids matches Some(v) ==> r == (if v@.len() == 0 {
            FoodLookup::NotFound
        } else {
            FoodLookup::Found(v@[0])
        }),
{
    match result_ids {
        None => FoodLookup::SearchFailed,
        Some(v) => {
            if v.len() == 0 {
                FoodLookup::NotFound
            } else {
                FoodLookup::Found(v[0])
            }
        },
    }
}

/// The error an item is reported with when its food cannot be used.
pub fn food_lookup_error(lookup: FoodLookup) -> (r: Option<String>)
    ensures
        r is None <==> lookup is Found,
        lookup is NotFound ==> (r matches Some(m) && m@ == "Food not found"@),
        lookup is SearchFailed ==> (r matches Some(m) && m@ == "Failed to search for food"@),
{
    match lookup {
        FoodLookup::Found(_) => None,
        FoodLookup::NotFound => Some(String::from_str("Food not found")),
        FoodLookup::SearchFailed => Some(String::from_str("Failed to search for food")),
    }
}

/// One item that goes into the bulk request of the add tool: its place
/// among the requested items and the id of the food found for it.
#[derive(Debug, Clone, Copy, PartialEq, Eq)]
pub struct QueuedItem {
    pub item: usize,
    pub food: i32,
}

/// The items whose food was found, in order, with their food ids.
pub open spec fn queued_of(lookups: Seq<FoodLookup>) -> Seq<QueuedItem>
    decreases lookups.len(),
{
    if lookups.len() == 0 {
        Seq::empty()
    } else {
        match lookups.last() {
            FoodLookup::Found(id) => queued_of(lookups.drop_last()).push(
                QueuedItem { item: (lookups.len() - 1) as usize, food: id },
            ),
            _ => queued_of(lookups.drop_last()),
        }
    }
}

/// No item is queued exactly when no food was found.
pub proof fn lemma_queued_empty(lookups: Seq<FoodLookup>)
    ensures
        queued_of(lookups).len() == 0 <==> forall|i: int| 0 <= i < lookups.len() ==> !(#[trigger] lookups[i] is Found),
    decreases lookups.len(),
{
    if lookups.len() > 0 {
        let pre = lookups.drop_last();
        lemma_queued_empty(pre);
        if !(lookups.last() is Found) && queued_of(pre).len() == 0 {
            assert forall|i: int| 0 <= i < lookups.len() implies !(#[trigger] lookups[i] is Found) by {
                if i < lookups.len() - 1 {
                    assert(pre[i] == lookups[i]);
                }
            }
        }
        if queued_of(pre).len() != 0 {
            let j = choose|j: int| 0 <= j < pre.len() && pre[j] is Found;
            assert(lookups[j] == pre[j]);
        }
    }
}

/// The bulk request of the add tool: the items whose food was found, in
/// order, with their food ids; none when no food was found, and then no
/// request is made.
pub fn bulk_request(lookups: &Vec<FoodLookup>) -> (r: Option<Vec<QueuedItem>>)
    ensures
        r is None <==> forall|i: int| 0 <= i < lookups@.len() ==> !(#[trigger] lookups@[i] is Found),
        r matches Some(v) ==> v@ == queued_of(lookups@),
{
    let mut v: Vec<QueuedItem> = Vec::new();
    let mut i: usize = 0;
    while i < lookups.len()
        invariant
            i <= lookups@.len(),
            v@ == queued_of(lookups@.subrange(0, i as int)),
        decreases lookups.len() - i,
    {
        assert(lookups@.subrange(0, i + 1).drop_last() =~= lookups@.subrange(0, i as int));
        match lookups[i] {
            FoodLookup::Found(id) => {
                v.push(QueuedItem { item: i, food: id });
            },
            _ => {},
        }
        i = i + 1;
    }
    assert(lookups@.subrange(0, lookups@.len() as int) =~= lookups@);
    proof {
        lemma_queued_empty(lookups@);
    }
    if v.len() == 0 {
        None
    } else {
        Some(v)
    }
}

/// What an item of the check tool names.
#[derive(Debug, Clone, PartialEq)]
pub enum CheckTarget {
    /// A shopping-list entry, by id.
    Entry(i32),
    /// The first entry whose food answers to this name.
    FoodName(String),
    /// Neither a number nor a text: the item is passed over.
    Ignored,
}

/// An item read as a number names an entry by id (truncated to the 32-bit
/// id field); otherwise an item read as text names a food; otherwise it is
/// passed over.
pub fn check_target(number: Option<i64>, text: Option<String>) -> (r: CheckTarget)
    ensures
        number matches Some(n) ==> r == CheckTarget::Entry(n as i32),
        number is None && text is Some ==> r == CheckTarget::FoodName(text.unwrap()),
        number is None && text is None ==> r == CheckTarget::Ignored,
{
    match number {
        Some(n) => CheckTarget::Entry(entry_id_from_number(n)),
        None => match text {
            Some(t) => CheckTarget::FoodName(t),
            None => CheckTarget::Ignored,
        },
    }
}

/// The next request while clearing one shopping-list entry.
#[derive(Debug, Clone, Copy, PartialEq, Eq)]
pub enum ClearAction {
    /// Delete the entry with this id.
    Delete(i32),
    /// Mark the food with this id as on hand.
    MarkOnHand(i32),
    /// Nothing more for this entry.
    Done,
}

/// What a step of clearing an entry records.
#[derive(Debug, Clone, Copy, PartialEq, Eq)]
pub enum ClearRecord {
    /// The entry was removed from the list.
    Removed,
    /// Its food was marked as on hand.
    PantryUpdated,
    /// The entry could not be removed.
    RemoveFailed,
    /// Its food could not be marked as on hand.
    PantryFailed,
    /// Nothing happened.
    Nothing,
}

/// Where clearing an entry starts: a checked entry is deleted, an unchecked
/// one is left on the list.
pub fn clear_start(entry: &ShoppingListEntry) -> (a: ClearAction)
    ensures
        a == (if entry.checked {
            ClearAction::Delete(entry.id)
        } else {
            ClearAction::Done
        }),
{
    if entry.checked {
        ClearAction::Delete(entry.id)
    } else {
        ClearAction::Done
    }
}

/// The step after the answer to `action` (`ok` when it succeeded): a deleted
/// entry is recorded as removed and its food is then marked as on hand; a
/// failed deletion is recorded and ends the entry, so its food is left as
/// it was; a pantry update is recorded as made or failed and ends the entry.
pub fn clear_step(entry: &ShoppingListEntry, action: ClearAction, ok: bool) -> (r: (ClearRecord, ClearAction))
    ensures
        action is Delete && ok ==> r == (ClearRecord::Removed, ClearAction::MarkOnHand(entry.food.id)),
        action is Delete && !ok ==> r == (ClearRecord::RemoveFailed, ClearAction::Done),
        action is MarkOnHand && ok ==> r == (ClearRecord::PantryUpdated, ClearAction::Done),
        action is MarkOnHand && !ok ==> r == (ClearRecord::PantryFailed, ClearAction::Done),
        action is Done ==> r == (ClearRecord::Nothing, ClearAction::Done),
{
    match action {
        ClearAction::Delete(_) => {
            if ok {
                (ClearRecord::Removed, ClearAction::MarkOnHand(entry.food.id))
            } else {
                (ClearRecord::RemoveFailed, ClearAction::Done)
            }
        },
        ClearAction::MarkOnHand(_) => {
            if ok {
                (ClearRecord::PantryUpdated, ClearAction::Done)
            } else {
                (ClearRecord::PantryFailed, ClearAction::Done)
            }
        },
        ClearAction::Done => (ClearRecord::Nothing, ClearAction::Done),
    }
}

/// The error a failed step is reported with.
pub fn clear_error_text(record: ClearRecord) -> (r: Option<String>)
    ensures
        record is RemoveFailed ==> (r matches Some(m) && m@ == "Failed to remove from shopping list"@),
        record is PantryFailed ==> (r matches Some(m) && m@ == "Failed to update pantry"@),
        !(record is RemoveFailed || record is PantryFailed) ==> r is None,
{
    match record {
        ClearRecord::RemoveFailed => Some(String::from_str("Failed to remove from shopping list")),
        ClearRecord::PantryFailed => Some(String::from_str("Failed to update pantry")),
        _ => None,
    }
}

// ---------------------------------------------------------------------------
// Keyword failures
// ---------------------------------------------------------------------------

/// How a failure to list keywords is explained.
#[derive(Debug, Clone, Copy, PartialEq, Eq)]
pub enum KeywordFailure {
    /// The token is missing or no longer valid.
    Authentication,
    /// The server could not be reached.
    Connection,
    /// Anything else.
    Other,
}

/// By the error's text: a missing token first, then a connection failure.
pub fn classify_keyword_failure(message: &str) -> (r: KeywordFailure)
    ensures
        has_substring(message@, "Not authenticated"@) ==> r == KeywordFailure::Authentication,
        !has_substring(message@, "Not authenticated"@) && has_substring(message@, "Failed to connect"@)
            ==> r == KeywordFailure::Connection,
        !has_substring(message@, "Not authenticated"@) && !has_substring(
            message@,
            "Failed to connect"@,
        ) ==> r == KeywordFailure::Other,
{
    if contains_text(message, "Not authenticated") {
        KeywordFailure::Authentication
    } else if contains_text(message, "Failed to connect") {
        KeywordFailure::Connection
    } else {
        KeywordFailure::Other
    }
}

// ---------------------------------------------------------------------------
// Laws of matching by name
// ---------------------------------------------------------------------------

/// Selecting by flag lists a position exactly when its flag is the one
/// asked for.
pub proof fn lemma_positions_membership(flags: Seq<bool>, want: bool)
    ensures
        forall|i: int| 0 <= i < flags.len() ==> (#[trigger] positions(flags, want).contains(i) <==> flags[i] == want),
        forall|k: int| 0 <= k < positions(flags, want).len() ==> 0 <= #[trigger] positions(flags, want)[k] < flags.len(),
{
    lemma_positions_partition(flags);
    assert forall|i: int| 0 <= i < flags.len() implies (#[trigger] positions(flags, want).contains(i) <==> flags[i] == want) by {
        if flags[i] == want {
            assert(positions(flags, flags[i]).contains(i));
        }
    }
}

/// The meal-type filter keeps a plan exactly when its meal type's name
/// equals the wanted name once both are lower-cased: a plan whose type
/// merely contains the wanted name, or is contained in it, is left out.
pub proof fn law_meal_type_filter_is_equality(type_names: Seq<String>, wanted: Seq<char>)
    ensures
        forall|i: int|
            0 <= i < type_names.len() ==> (#[trigger] positions(meal_type_flags(type_names, Some(wanted)), true).contains(i)
                <==> lowercase(type_names[i]@) == lowercase(wanted)),
        forall|k: int|
            0 <= k < positions(meal_type_flags(type_names, Some(wanted)), true).len() ==> 0
                <= #[trigger] positions(meal_type_flags(type_names, Some(wanted)), true)[k] < type_names.len(),
{
    let flags = meal_type_flags(type_names, Some(wanted));
    lemma_positions_membership(flags, true);
    assert forall|i: int| 0 <= i < type_names.len() implies (#[trigger] positions(flags, true).contains(i)
        <==> lowercase(type_names[i]@) == lowercase(wanted)) by {
        assert(flags[i] == meal_type_wanted(type_names[i]@, Some(wanted)));
    }
}

/// An entry answers to a name exactly when the lower-cased name occurs as
/// a run of consecutive characters inside the lower-cased food name (and
/// not the other way round).
pub proof fn law_answers_to_is_containment(food_name: Seq<char>, name: Seq<char>)
    ensures
        answers_to(food_name, name) <==> exists|i: int|
            0 <= i && i + lowercase(name).len() <= lowercase(food_name).len() && #[trigger] lowercase(
                food_name,
            ).subrange(i, i + lowercase(name).len()) == lowercase(name),
{
    if answers_to(food_name, name) {
        let i = choose|i: int| occurs_at(lowercase(food_name), lowercase(name), i);
        assert(lowercase(food_name).subrange(i, i + lowercase(name).len()) == lowercase(name));
    }
    if exists|i: int|
        0 <= i && i + lowercase(name).len() <= lowercase(food_name).len() && #[trigger] lowercase(
            food_name,
        ).subrange(i, i + lowercase(name).len()) == lowercase(name) {
        let i = choose|i: int|
            0 <= i && i + lowercase(name).len() <= lowercase(food_name).len() && #[trigger] lowercase(
                food_name,
            ).subrange(i, i + lowercase(name).len()) == lowercase(name);
        assert(occurs_at(lowercase(food_name), lowercase(name), i));
    }
}

/// A name in the pantry matches an ingredient line exactly when it equals
/// the line's food name once both are lower-cased, wherever it stands in
/// the pantry: no missing name equals any pantry name (last one included)
/// after lower-casing; every counted line whose food matches no pantry
/// name is listed as missing; and the matching and missing lines together
/// are all the counted lines.
pub proof fn law_pantry_matching(ings: Seq<StepIngredient>, pantry: Seq<Seq<char>>)
    ensures
        forall|m: Seq<char>, j: int|
            #[trigger] missing_names(ings, pantry).contains(m) && 0 <= j < pantry.len() ==> lowercase(
                #[trigger] pantry[j],
            ) != lowercase(m),
        forall|k: int|
            0 <= k < ings.len() && !(#[trigger] ings[k]).is_header && !ings[k].no_amount && (forall|j: int|
                0 <= j < pantry.len() ==> lowercase(#[trigger] pantry[j]) != lowercase(ings[k].food.name@))
                ==> missing_names(ings, pantry).contains(ings[k].food.name@),
        matched_total(ings, pantry) + missing_names(ings, pantry).len() == counted_total(ings),
    decreases ings.len(),
{
    if ings.len() > 0 {
        let pre = ings.drop_last();
        let last = ings.last();
        law_pantry_matching(pre, pantry);
        assert forall|m: Seq<char>, j: int|
            #[trigger] missing_names(ings, pantry).contains(m) && 0 <= j < pantry.len() implies lowercase(
                #[trigger] pantry[j],
            ) != lowercase(m) by {
            let k = choose|k: int| 0 <= k < missing_names(ings, pantry).len() && missing_names(ings, pantry)[k] == m;
            if k < missing_names(pre, pantry).len() {
                assert(missing_names(pre, pantry)[k] == m);
                assert(missing_names(pre, pantry).contains(m));
            } else {
                assert(m == last.food.name@);
                assert(!in_pantry(last.food.name@, pantry));
            }
        }
        assert forall|k: int|
            0 <= k < ings.len() && !(#[trigger] ings[k]).is_header && !ings[k].no_amount && (forall|j: int|
                0 <= j < pantry.len() ==> lowercase(#[trigger] pantry[j]) != lowercase(ings[k].food.name@))
                implies missing_names(ings, pantry).contains(ings[k].food.name@) by {
            if k < ings.len() - 1 {
                assert(pre[k] == ings[k]);
                assert(missing_names(pre, pantry).contains(ings[k].food.name@));
                let x = choose|x: int| 0 <= x < missing_names(pre, pantry).len() && missing_names(pre, pantry)[x] == ings[k].food.name@;
                assert(missing_names(ings, pantry)[x] == ings[k].food.name@);
            } else {
                assert(ings[k] == last);
                assert(!in_pantry(last.food.name@, pantry));
                assert(missing_names(ings, pantry).last() == last.food.name@);
            }
        }
    }
}

// ---------------------------------------------------------------------------
// Laws of the meal-plan shopping positions
// ---------------------------------------------------------------------------

proof fn lemma_shopping_positions_in(step: int, lines: Seq<StepIngredient>)
    ensures
        forall|l: int|
            0 <= l < lines.len() ==> (#[trigger] shopping_positions_in(step, lines).contains((step, l)) <==> (
            !lines[l].is_header && !lines[l].no_amount)),
        forall|k: int|
            0 <= k < shopping_positions_in(step, lines).len() ==> (#[trigger] shopping_positions_in(step, lines)[k]).0
                == step && 0 <= shopping_positions_in(step, lines)[k].1 < lines.len(),
    decreases lines.len(),
{
    if lines.len() > 0 {
        let pre = lines.drop_last();
        lemma_shopping_positions_in(step, pre);
        let cur = shopping_positions_in(step, lines);
        let old_ps = shopping_positions_in(step, pre);
        assert forall|k: int| 0 <= k < cur.len() implies (#[trigger] cur[k]).0 == step && 0 <= cur[k].1 < lines.len() by {
            if k < old_ps.len() {
                assert(cur[k] == old_ps[k]);
            }
        }
        assert forall|l: int| 0 <= l < lines.len() implies (#[trigger] cur.contains((step, l)) <==> (
        !lines[l].is_header && !lines[l].no_amount)) by {
            if l < lines.len() - 1 {
                assert(pre[l] == lines[l]);
                if old_ps.contains((step, l)) {
                    let x = choose|x: int| 0 <= x < old_ps.len() && old_ps[x] == (step, l);
                    assert(cur[x] == (step, l));
                }
                if cur.contains((step, l)) {
                    let x = choose|x: int| 0 <= x < cur.len() && cur[x] == (step, l);
                    if x < old_ps.len() {
                        assert(old_ps[x] == (step, l));
                    } else {
                        assert(cur[x] == (step, lines.len() - 1));
                    }
                }
            } else {
                if cur.contains((step, l)) {
                    let x = choose|x: int| 0 <= x < cur.len() && cur[x] == (step, l);
                    if x < old_ps.len() {
                        assert(old_ps[x] == (step, l));
                    }
                }
                if !lines[l].is_header && !lines[l].no_amount {
                    assert(cur.last() == (step, l));
                }
            }
        }
    }
}

/// A meal plan puts on the shopping list exactly the ingredient lines that
/// are neither headers nor without amount, whatever their other fields
/// (note, unit, food): a pair (step, line) is listed exactly when that line
/// of that step is such a line, and every listed pair names a line.
pub proof fn law_shopping_positions_are_the_countable_lines(steps: Seq<Step>)
    ensures
        forall|s: int, l: int|
            0 <= s < steps.len() && 0 <= l < steps[s].ingredients@.len() ==> (#[trigger] shopping_positions_of(
                steps,
            ).contains((s, l)) <==> (!steps[s].ingredients@[l].is_header
                && !steps[s].ingredients@[l].no_amount)),
        forall|k: int|
            0 <= k < shopping_positions_of(steps).len() ==> {
                let p = #[trigger] shopping_positions_of(steps)[k];
                &&& 0 <= p.0 < steps.len()
                &&& 0 <= p.1 < steps[p.0].ingredients@.len()
            },
    decreases steps.len(),
{
    if steps.len() > 0 {
        let pre = steps.drop_last();
        let n = steps.len() - 1;
        law_shopping_positions_are_the_countable_lines(pre);
        lemma_shopping_positions_in(n, steps.last().ingredients@);
        let a = shopping_positions_of(pre);
        let b = shopping_positions_in(n, steps.last().ingredients@);
        let all = shopping_positions_of(steps);
        assert(all == a + b);
        assert forall|k: int| 0 <= k < all.len() implies {
            let p = #[trigger] all[k];
            &&& 0 <= p.0 < steps.len()
            &&& 0 <= p.1 < steps[p.0].ingredients@.len()
        } by {
            if k < a.len() {
                assert(all[k] == a[k]);
                assert(pre[a[k].0] == steps[a[k].0]);
            } else {
                assert(all[k] == b[k - a.len()]);
            }
        }
        assert forall|s: int, l: int|
            0 <= s < steps.len() && 0 <= l < steps[s].ingredients@.len() implies (#[trigger] all.contains((s, l))
                <==> (!steps[s].ingredients@[l].is_header && !steps[s].ingredients@[l].no_amount)) by {
            if s < n {
                assert(pre[s] == steps[s]);
                if a.contains((s, l)) {
                    let x = choose|x: int| 0 <= x < a.len() && a[x] == (s, l);
                    assert(all[x] == (s, l));
                }
                if all.contains((s, l)) {
                    let x = choose|x: int| 0 <= x < all.len() && all[x] == (s, l);
                    if x < a.len() {
                        assert(a[x] == (s, l));
                    } else {
                        assert(b[x - a.len()] == (s, l));
                        assert(b[x - a.len()].0 == n);
                    }
                }
            } else {
                if b.contains((s, l)) {
                    let x = choose|x: int| 0 <= x < b.len() && b[x] == (s, l);
                    assert(all[a.len() + x] == (s, l));
                }
                if all.contains((s, l)) {
                    let x = choose|x: int| 0 <= x < all.len() && all[x] == (s, l);
                    if x < a.len() {
                        assert(a[x] == (s, l));
                        assert(false);
                    } else {
                        assert(b[x - a.len()] == (s, l));
                    }
                }
            }
        }
    }
}

} // verus!
