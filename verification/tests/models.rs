use realtypro::models::{check_client_form, check_property_form, create_client, create_property, optional_text, FormError};

fn s(x: &str) -> String {
    x.to_string()
}

#[test]
fn optional_text_drops_blank() {
    assert_eq!(optional_text(s("   ")), None);
    assert_eq!(optional_text(s("")), None);
    assert_eq!(optional_text(s(" 555-1234 ")), Some(s(" 555-1234 ")));
}

#[test]
fn create_client_stores_blank_fields_as_absent() {
    let c = create_client(s("Jane"), s("jane@example.com"), s(" "), Some(1), None, s("Downtown"), s("\t"));
    assert_eq!(c.name, "Jane");
    assert_eq!(c.email, "jane@example.com");
    assert_eq!(c.phone, None);
    assert_eq!(c.budget_min, Some(1));
    assert_eq!(c.budget_max, None);
    assert_eq!(c.preferred_areas, Some(s("Downtown")));
    assert_eq!(c.notes, None);
}

#[test]
fn create_property_stores_blank_description_as_absent() {
    let p = create_property(s("1 Main St"), s("Springfield"), 300_000, Some(3), None, Some(1400), s("house"), s(""));
    assert_eq!(p.address, "1 Main St");
    assert_eq!(p.price, 300_000);
    assert_eq!(p.bedrooms, Some(3));
    assert_eq!(p.area_sqft, Some(1400));
    assert_eq!(p.description, None);
    let q = create_property(s("2 Elm"), s("Shelbyville"), 1, None, None, None, s("land"), s("Big lot"));
    assert_eq!(q.description, Some(s("Big lot")));
}

#[test]
fn client_form_requires_name_and_email() {
    let r = check_client_form(s("  "), s("a@b.c"), s(""), "", "", s(""), s(""));
    assert!(matches!(r, Err(FormError::MissingNameOrEmail)));
    let r = check_client_form(s("Ann"), s(""), s(""), "", "", s(""), s(""));
    assert!(matches!(r, Err(FormError::MissingNameOrEmail)));
    assert_eq!(FormError::MissingNameOrEmail.message(), "Name and email are required.");
}

#[test]
fn client_form_parses_budgets_leniently() {
    let c = check_client_form(s("Ann"), s("ann@x.io"), s("555"), " 200000 ", "lots", s(""), s("vip")).ok().unwrap();
    assert_eq!(c.budget_min, Some(200_000));
    assert_eq!(c.budget_max, None);
    assert_eq!(c.phone, Some(s("555")));
    assert_eq!(c.notes, Some(s("vip")));
    assert_eq!(c.preferred_areas, None);
}

#[test]
fn property_form_errors() {
    let r = check_property_form(s(""), s("City"), "100", "", "", "", s("house"), s(""));
    assert!(matches!(r, Err(FormError::MissingAddressCityOrPrice)));
    let r = check_property_form(s("Addr"), s("City"), " ", "", "", "", s("house"), s(""));
    assert!(matches!(r, Err(FormError::MissingAddressCityOrPrice)));
    let r = check_property_form(s("Addr"), s("City"), "12.5", "", "", "", s("house"), s(""));
    assert!(matches!(r, Err(FormError::InvalidPrice)));
    assert_eq!(FormError::InvalidPrice.message(), "Price must be a valid number.");
    assert_eq!(FormError::MissingAddressCityOrPrice.message(), "Address, city and price are required.");
}

#[test]
fn property_form_ok() {
    let p = check_property_form(s("12 Oak"), s("Austin"), " 750000 ", "3", "two", " 1400", s("condo"), s("  ")).ok().unwrap();
    assert_eq!(p.price, 750_000);
    assert_eq!(p.bedrooms, Some(3));
    assert_eq!(p.bathrooms, None);
    assert_eq!(p.area_sqft, Some(1400));
    assert_eq!(p.property_type, "condo");
    assert_eq!(p.description, None);
}
