use realtypro::display::{
    client_budget, fmt_budget, fmt_price, format_money, format_price, format_time, friendly_label, initial,
    match_label, page_bg,
};
use realtypro::voice::Activity;

#[test]
fn fmt_price_compacts_thousands_and_millions() {
    assert_eq!(fmt_price(2_500), "2K");
    assert_eq!(fmt_price(1_999_999), "1M");
    assert_eq!(fmt_price(999), "999");
    assert_eq!(fmt_price(-5), "-5");
    assert_eq!(fmt_price(1_000), "1K");
    assert_eq!(fmt_price(1_000_000), "1M");
}

#[test]
fn fmt_budget_all_shapes() {
    assert_eq!(fmt_budget(Some(200_000), Some(500_000)), "Budget: $200K \u{2013} $500K");
    assert_eq!(fmt_budget(Some(200_000), None), "Budget: from $200K");
    assert_eq!(fmt_budget(None, Some(2_000_000)), "Budget: up to $2M");
    assert_eq!(fmt_budget(None, None), "No budget set");
}

#[test]
fn format_price_below_a_million() {
    assert_eq!(format_price(750_000), Some("750K".to_string()));
    assert_eq!(format_price(750_500), Some("750,500".to_string()));
    assert_eq!(format_price(1_050), Some("1K".to_string()));
    assert_eq!(format_price(1_150), Some("1,150".to_string()));
    assert_eq!(format_price(999), Some("999".to_string()));
    assert_eq!(format_price(1_000_000), None);
}

#[test]
fn format_money_below_a_million() {
    assert_eq!(format_money(250_000), Some("250K".to_string()));
    assert_eq!(format_money(250), Some("250".to_string()));
    assert_eq!(format_money(3_000_000), None);
}

#[test]
fn initials() {
    assert_eq!(initial("jane"), 'J');
    assert_eq!(initial("Bob"), 'B');
    assert_eq!(initial(""), '?');
    assert_eq!(initial("éva"), 'é');
    assert_eq!(initial("1st"), '1');
}

#[test]
fn match_labels() {
    assert_eq!(match_label(1), "1 match");
    assert_eq!(match_label(0), "0 matches");
    assert_eq!(match_label(12), "12 matches");
}

#[test]
fn friendly_labels() {
    assert_eq!(friendly_label("get_menu"), "Fetching menu");
    assert_eq!(friendly_label("view_menu"), "Fetching menu");
    assert_eq!(friendly_label("add_to_cart"), "Adding to cart");
    assert_eq!(friendly_label("update_cart"), "Updating cart");
    assert_eq!(friendly_label("remove_from_cart"), "Updating cart");
    assert_eq!(friendly_label("view_cart"), "Checking cart");
    assert_eq!(friendly_label("view_order"), "Reviewing order");
    assert_eq!(friendly_label("place_order"), "Sending to kitchen");
    assert_eq!(friendly_label("lookup_listing"), "lookup_listing");
}

#[test]
fn page_backgrounds() {
    assert_eq!(page_bg(Activity::Idle), "background: rgb(15, 15, 30);");
    assert_eq!(page_bg(Activity::Listening), "background: rgb(15, 25, 20);");
    assert_eq!(page_bg(Activity::Processing), "background: rgb(25, 22, 15);");
    assert_eq!(page_bg(Activity::Speaking), "background: rgb(25, 15, 18);");
}

#[test]
fn clock_times() {
    assert_eq!(format_time(0), "00:00:00");
    assert_eq!(format_time(3_723_000), "01:02:03");
    assert_eq!(format_time(86_399_999), "23:59:59");
    assert_eq!(format_time(86_400_000), "00:00:00");
    assert_eq!(format_time(1_725_029_869_000), "14:57:49");
}

#[test]
fn client_budget_lines() {
    let m = |n: i64| format_money(n).unwrap();
    assert_eq!(client_budget(Some(m(250_000)), Some(m(500_000))), "$250K \u{2013} $500K");
    assert_eq!(client_budget(Some(m(900)), None), "From $900");
    assert_eq!(client_budget(None, Some("1.5M".to_string())), "Up to $1.5M");
    assert_eq!(client_budget(None, None), "No budget set");
}
