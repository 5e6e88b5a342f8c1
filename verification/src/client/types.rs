//! Data exchanged with the Tandoor API.
//!
//! Request types and the small reference types are complete. The larger
//! response types (recipes, foods, shopping-list entries, meal plans) carry
//! the fields that the library's rules read; timestamps, free-form JSON and
//! fractional quantities stay with the transport layer that decodes them.
use vstd::prelude::*;

verus! {

/// Token answer of the token endpoint.
#[derive(Debug, Clone, PartialEq)]
pub struct AuthToken {
    /// The Bearer token string.
    pub token: String,
}

/// Credentials sent to the token endpoint.
#[derive(Debug, Clone, PartialEq)]
pub struct AuthRequest {
    pub username: String,
    pub password: String,
}

/// A recipe keyword (tag).
#[derive(Debug, Clone, PartialEq)]
pub struct Keyword {
    pub id: i32,
    /// Primary name; filled from `label` when the API sends only that.
    pub name: String,
    pub label: Option<String>,
    pub description: Option<String>,
    pub numchild: Option<i32>,
    pub full_name: Option<String>,
}

/// A measurement unit.
#[derive(Debug, Clone, PartialEq)]
pub struct Unit {
    pub id: i32,
    pub name: String,
    pub plural_name: Option<String>,
    pub description: Option<String>,
    pub base_unit: Option<String>,
    pub type_: Option<String>,
}

#[derive(Debug, Clone, PartialEq)]
pub struct InheritField {
    pub id: i32,
    pub name: String,
    pub field: String,
}

#[derive(Debug, Clone, PartialEq)]
pub struct PropertyType {
    pub id: i32,
    pub name: String,
    pub unit: String,
    pub order: i32,
    pub fdc_id: Option<i32>,
}

/// A food (ingredient) and its pantry state.
#[derive(Debug, Clone, PartialEq)]
pub struct Food {
    pub id: i32,
    pub name: String,
    pub plural_name: Option<String>,
    pub description: Option<String>,
    pub recipe: Option<i32>,
    /// In the pantry.
    pub food_onhand: bool,
    /// A substitute is in the pantry.
    pub substitute_onhand: bool,
    /// The name of the store section (supermarket category) the food is
    /// shelved in, when it has one.
    pub supermarket_category: Option<String>,
    pub inherit_fields: Vec<InheritField>,
}

/// One ingredient line of a step.
#[derive(Debug, Clone, PartialEq)]
pub struct StepIngredient {
    pub id: i32,
    pub food: Food,
    pub unit: Option<Unit>,
    pub note: Option<String>,
    pub order: i32,
    /// A section header rather than an ingredient.
    pub is_header: bool,
    /// An ingredient listed without a quantity.
    pub no_amount: bool,
}

/// One cooking step.
#[derive(Debug, Clone, PartialEq)]
pub struct Step {
    pub id: i32,
    pub name: String,
    pub instruction: String,
    pub ingredients: Vec<StepIngredient>,
    pub time: Option<i32>,
    pub order: i32,
    pub file: Option<String>,
    pub instructions_markdown: Option<String>,
    pub show_as_header: Option<bool>,
    pub step_recipe: Option<i32>,
    pub show_ingredients_table: Option<bool>,
}

/// A recipe.
#[derive(Debug, Clone, PartialEq)]
pub struct Recipe {
    pub id: i32,
    pub name: String,
    pub description: Option<String>,
    pub instructions: Option<String>,
    pub servings: Option<i32>,
    /// Active time in minutes.
    pub working_time: Option<i32>,
    /// Passive time in minutes.
    pub waiting_time: Option<i32>,
    pub internal: bool,
    pub show_ingredient_overview: Option<bool>,
    pub keywords: Vec<Keyword>,
    pub steps: Vec<Step>,
    pub image: Option<String>,
    pub source_url: Option<String>,
    pub file_path: Option<String>,
    pub servings_text: Option<String>,
    pub private: Option<bool>,
    pub new: Option<bool>,
}

/// An entry of the shopping list.
#[derive(Debug, Clone, PartialEq)]
pub struct ShoppingListEntry {
    pub id: i32,
    pub food: Food,
    pub unit: Option<Unit>,
    pub order: i32,
    /// Purchased.
    pub checked: bool,
    pub completed_by: Option<i32>,
}

/// A calendar date.
#[derive(Debug, Clone, Copy, PartialEq, Eq)]
pub struct CalendarDate {
    pub year: i32,
    pub month: u32,
    pub day: u32,
}

/// A kind of meal (breakfast, dinner, ...).
#[derive(Debug, Clone, PartialEq)]
pub struct MealType {
    pub id: i32,
    pub name: String,
    pub order: i32,
    pub color: String,
    pub default: bool,
    pub icon: Option<String>,
}

/// A planned meal.
#[derive(Debug, Clone, PartialEq)]
pub struct MealPlan {
    pub id: i32,
    pub title: Option<String>,
    pub recipe: Option<Recipe>,
    pub servings: i32,
    pub note: Option<String>,
    pub date: CalendarDate,
    pub meal_type: MealType,
}

/// Body of the recipe-import request.
#[derive(Debug, Clone, PartialEq)]
pub struct RecipeImport {
    pub url: String,
}

/// The paginated list wrapper of the API.
#[derive(Debug, Clone, PartialEq)]
pub struct PaginatedResponse<T> {
    /// Total number of items across all pages.
    pub count: i32,
    pub next: Option<String>,
    pub previous: Option<String>,
    pub results: Vec<T>,
}

#[derive(Debug, Clone, PartialEq)]
pub struct CreateRecipeRequest {
    pub name: String,
    pub description: Option<String>,
    pub servings: Option<i32>,
    pub working_time: i32,
    pub waiting_time: i32,
    pub keywords: Vec<CreateKeywordRequest>,
    pub steps: Vec<CreateStepRequest>,
}

#[derive(Debug, Clone, PartialEq)]
pub struct CreateKeywordRequest {
    pub name: String,
}

#[derive(Debug, Clone, PartialEq)]
pub struct CreateStepRequest {
    pub name: Option<String>,
    pub instruction: String,
    pub ingredients: Vec<CreateStepIngredientRequest>,
    pub time: Option<i32>,
    pub order: i32,
}

#[derive(Debug, Clone, PartialEq)]
pub struct CreateStepIngredientRequest {
    pub food: CreateFoodRequest,
    pub unit: Option<CreateUnitRequest>,
    pub amount: String,
    pub note: Option<String>,
    pub order: i32,
    pub is_header: bool,
    pub no_amount: bool,
}

#[derive(Debug, Clone, PartialEq)]
pub struct CreateFoodRequest {
    pub name: String,
}

#[derive(Debug, Clone, PartialEq)]
pub struct CreateUnitRequest {
    pub name: String,
}

#[derive(Debug, Clone, PartialEq)]
pub struct CreateMealPlanRequest {
    pub recipe: Option<i32>,
    pub title: Option<String>,
    pub servings: i32,
    pub date: CalendarDate,
    pub meal_type: i32,
    pub note: Option<String>,
}

#[derive(Debug, Clone, PartialEq)]
pub struct CreateCookLogRequest {
    pub recipe: i32,
    pub servings: i32,
    pub rating: Option<i32>,
    pub comment: Option<String>,
}

#[derive(Debug, Clone, PartialEq)]
pub struct UpdateFoodRequest {
    pub food_onhand: Option<bool>,
}

#[derive(Debug, Clone, PartialEq)]
pub struct Supermarket {
    pub id: i32,
    pub name: String,
    pub description: Option<String>,
}

/// Body of a new recipe book; it is created with no sharing.
#[derive(Debug, Clone, PartialEq)]
pub struct CreateRecipeBookRequest {
    pub name: String,
    pub description: Option<String>,
}

#[derive(Debug, Clone, PartialEq)]
pub struct CreateRecipeBookEntryRequest {
    pub book: i32,
    pub recipe: i32,
}

/// Why a keyword object could not be read.
#[derive(Debug, Clone, Copy, PartialEq, Eq)]
pub enum KeywordFieldError {
    /// No `id`.
    MissingId,
    /// Neither `name` nor `label`.
    MissingName,
}

impl Keyword {
    /// A keyword from the fields found in an API object. Endpoints differ in
    /// whether they send `name` or `label`: the name is `name` when present,
    /// `label` otherwise; `label` is kept as sent.
    pub fn from_fields(
        id: Option<i32>,
        name: Option<String>,
        label: Option<String>,
        description: Option<String>,
        numchild: Option<i32>,
        full_name: Option<String>,
    ) -> (r: Result<Keyword, KeywordFieldError>)
        ensures
            id is None ==> r == Err::<Keyword, KeywordFieldError>(KeywordFieldError::MissingId),
            id is Some && name is None && label is None ==> r == Err::<Keyword, KeywordFieldError>(
                KeywordFieldError::MissingName,
            ),
            r is Ok <==> id is Some && (name is Some || label is Some),
            r matches Ok(k) ==> {
                &&& k.id == id.unwrap()
                &&& k.name@ == (if name is Some { name.unwrap()@ } else { label.unwrap()@ })
                &&& k.label == label
                &&& k.description == description
                &&& k.numchild == numchild
                &&& k.full_name == full_name
            },
    {
        let id = match id {
            Some(i) => i,
            None => return Err(KeywordFieldError::MissingId),
        };
        let name = match name {
            Some(n) => n,
            None => match &label {
                Some(l) => l.clone(),
                None => return Err(KeywordFieldError::MissingName),
            },
        };
        Ok(Keyword { id, name, label, description, numchild, full_name })
    }
}

impl<T> PaginatedResponse<T> {
    /// A single page holding `results`, for endpoints that answer with a bare
    /// array: the count is the number of results (as a 32-bit count) and
    /// there are no neighbouring pages.
    pub fn from_results(results: Vec<T>) -> (r: PaginatedResponse<T>)
        ensures
            r.count == results@.len() as i32,
            r.next is None,
            r.previous is None,
            r.results@ == results@,
    {
        let n = results.len();
        PaginatedResponse { count: n as i32, next: None, previous: None, results }
    }
}

} // verus!
