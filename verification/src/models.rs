//! The records the dashboard keeps (clients, properties, statistics), what a
//! new record is stored as, and how the add forms are checked.
use vstd::prelude::*;
use crate::text::{blank, is_blank, parse_i32, parse_i32_spec, parse_i64, parse_i64_spec, trim, trimmed};

verus! {

/// A client of the realtor.
pub struct Client {
    pub id: String,
    pub name: String,
    pub email: String,
    pub phone: Option<String>,
    pub budget_min: Option<i64>,
    pub budget_max: Option<i64>,
    pub preferred_areas: Option<String>,
    pub status: String,
    pub notes: Option<String>,
    pub created_at: String,
}

/// A property listing.
pub struct Property {
    pub id: String,
    pub address: String,
    pub city: String,
    pub price: i64,
    pub bedrooms: Option<i32>,
    pub bathrooms: Option<i32>,
    pub area_sqft: Option<i32>,
    pub property_type: String,
    pub status: String,
    pub description: Option<String>,
    pub created_at: String,
}

/// The dashboard's counters.
#[derive(Clone, Copy, PartialEq, Eq, Structural, Debug)]
pub struct DashboardStats {
    pub total_clients: i64,
    pub active_properties: i64,
    pub pending_deals: i64,
    pub appointments_this_week: i64,
}

pub open spec fn opt_text(o: Option<String>) -> Option<Seq<char>> {
    match o {
        Some(s) => Some(s@),
        None => None,
    }
}

/// An optional text field as stored: absent when blank, else as typed.
pub open spec fn stored_text(s: Seq<char>) -> Option<Seq<char>> {
    if is_blank(s) {
        None
    } else {
        Some(s)
    }
}

/// An optional text field as stored: absent when blank, else as typed.
pub fn optional_text(s: String) -> (r: Option<String>)
    ensures
        opt_text(r) == stored_text(s@),
{
    if blank(s.as_str()) {
        None
    } else {
        Some(s)
    }
}

/// The values a new client row is inserted with.
pub struct NewClient {
    pub name: String,
    pub email: String,
    pub phone: Option<String>,
    pub budget_min: Option<i64>,
    pub budget_max: Option<i64>,
    pub preferred_areas: Option<String>,
    pub notes: Option<String>,
}

/// The values a new property row is inserted with.
pub struct NewProperty {
    pub address: String,
    pub city: String,
    pub price: i64,
    pub bedrooms: Option<i32>,
    pub bathrooms: Option<i32>,
    pub area_sqft: Option<i32>,
    pub property_type: String,
    pub description: Option<String>,
}

/// The row a new client is stored as: blank phone, areas and notes are
/// stored as absent; everything else as given.
pub fn create_client(
    name: String,
    email: String,
    phone: String,
    budget_min: Option<i64>,
    budget_max: Option<i64>,
    preferred_areas: String,
    notes: String,
) -> (r: NewClient)
    ensures
        r.name@ == name@,
        r.email@ == email@,
        opt_text(r.phone) == stored_text(phone@),
        r.budget_min == budget_min,
        r.budget_max == budget_max,
        opt_text(r.preferred_areas) == stored_text(preferred_areas@),
        opt_text(r.notes) == stored_text(notes@),
{
    NewClient {
        name,
        email,
        phone: optional_text(phone),
        budget_min,
        budget_max,
        preferred_areas: optional_text(preferred_areas),
        notes: optional_text(notes),
    }
}

/// The row a new property is stored as: a blank description is stored as
/// absent; everything else as given.
pub fn create_property(
    address: String,
    city: String,
    price: i64,
    bedrooms: Option<i32>,
    bathrooms: Option<i32>,
    area_sqft: Option<i32>,
    property_type: String,
    description: String,
) -> (r: NewProperty)
    ensures
        r.address@ == address@,
        r.city@ == city@,
        r.price == price,
        r.bedrooms == bedrooms,
        r.bathrooms == bathrooms,
        r.area_sqft == area_sqft,
        r.property_type@ == property_type@,
        opt_text(r.description) == stored_text(description@),
{
    NewProperty {
        address,
        city,
        price,
        bedrooms,
        bathrooms,
        area_sqft,
        property_type,
        description: optional_text(description),
    }
}

// ---------------------------------------------------------------------------
// The add forms
// ---------------------------------------------------------------------------

/// Why an add form was not submitted.
#[derive(Clone, Copy, PartialEq, Eq, Structural, Debug)]
pub enum FormError {
    /// A client needs a name and an email.
    MissingNameOrEmail,
    /// A property needs an address, a city and a price.
    MissingAddressCityOrPrice,
    /// The price is not a whole number.
    InvalidPrice,
}

impl FormError {
    /// The message the form shows.
    pub fn message(&self) -> (r: &'static str)
        ensures
            r@ == form_error_text(*self),
    {
        match self {
            FormError::MissingNameOrEmail => "Name and email are required.",
            FormError::MissingAddressCityOrPrice => "Address, city and price are required.",
            FormError::InvalidPrice => "Price must be a valid number.",
        }
    }
}

pub open spec fn form_error_text(e: FormError) -> Seq<char> {
    match e {
        FormError::MissingNameOrEmail => "Name and email are required."@,
        FormError::MissingAddressCityOrPrice => "Address, city and price are required."@,
        FormError::InvalidPrice => "Price must be a valid number."@,
    }
}

/// Checks the add-client form. Name and email must not be blank; the budget
/// fields count only when they hold a whole number (after trimming). The
/// text fields are passed on as typed.
pub fn check_client_form(
    name: String,
    email: String,
    phone: String,
    budget_min: &str,
    budget_max: &str,
    preferred_areas: String,
    notes: String,
) -> (r: Result<NewClient, FormError>)
    ensures
        r is Err <==> (is_blank(name@) || is_blank(email@)),
        r matches Err(e) ==> e == FormError::MissingNameOrEmail,
        r matches Ok(c) ==> {
            &&& c.name@ == name@
            &&& c.email@ == email@
            &&& opt_text(c.phone) == stored_text(phone@)
            &&& c.budget_min == parse_i64_spec(trimmed(budget_min@))
            &&& c.budget_max == parse_i64_spec(trimmed(budget_max@))
            &&& opt_text(c.preferred_areas) == stored_text(preferred_areas@)
            &&& opt_text(c.notes) == stored_text(notes@)
        },
{
    if blank(name.as_str()) || blank(email.as_str()) {
        return Err(FormError::MissingNameOrEmail);
    }
    let lo = parse_i64(trim(budget_min).as_str());
    let hi = parse_i64(trim(budget_max).as_str());
    Ok(create_client(name, email, phone, lo, hi, preferred_areas, notes))
}

/// Checks the add-property form. Address, city and price must not be
/// blank, and the price must be a whole number; the room and area fields
/// count only when they hold a whole number. Type and description are passed
/// on as typed.
pub fn check_property_form(
    address: String,
    city: String,
    price: &str,
    bedrooms: &str,
    bathrooms: &str,
    area_sqft: &str,
    property_type: String,
    description: String,
) -> (r: Result<NewProperty, FormError>)
    ensures
        (is_blank(address@) || is_blank(city@) || is_blank(price@)) ==> r == Err::<
            NewProperty,
            FormError,
        >(FormError::MissingAddressCityOrPrice),
        !(is_blank(address@) || is_blank(city@) || is_blank(price@)) && parse_i64_spec(
            trimmed(price@),
        ) is None ==> r == Err::<NewProperty, FormError>(FormError::InvalidPrice),
        r is Ok <==> !(is_blank(address@) || is_blank(city@) || is_blank(price@))
            && parse_i64_spec(trimmed(price@)) is Some,
        r matches Ok(p) ==> {
            &&& p.address@ == address@
            &&& p.city@ == city@
            &&& Some(p.price) == parse_i64_spec(trimmed(price@))
            &&& p.bedrooms == parse_i32_spec(trimmed(bedrooms@))
            &&& p.bathrooms == parse_i32_spec(trimmed(bathrooms@))
            &&& p.area_sqft == parse_i32_spec(trimmed(area_sqft@))
            &&& p.property_type@ == property_type@
            &&& opt_text(p.description) == stored_text(description@)
        },
{
    if blank(address.as_str()) || blank(city.as_str()) || blank(price) {
        return Err(FormError::MissingAddressCityOrPrice);
    }
    let value = match parse_i64(trim(price).as_str()) {
        Some(v) => v,
        None => {
            return Err(FormError::InvalidPrice);
        },
    };
    let beds = parse_i32(trim(bedrooms).as_str());
    let baths = parse_i32(trim(bathrooms).as_str());
    let area = parse_i32(trim(area_sqft).as_str());
    Ok(create_property(address, city, value, beds, baths, area, property_type, description))
}

} // verus!
