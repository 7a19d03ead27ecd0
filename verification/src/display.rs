//! Labels and short texts the pages show: prices, budgets, times, initials.
//!
//! Two of the price formats print millions with decimals, in floating point;
//! for those amounts the functions here return `None` and leave the rendering
//! to the caller.
use vstd::prelude::*;
use crate::text::{decimal, decimal_text, digits_of, owned, padded_digits, push_digits, push_padded, str_eq};
use crate::voice::Activity;

verus! {

/// `n.to_string()` for an unsigned count.
pub fn count_text(n: u64) -> (r: String)
    ensures
        r@ == digits_of(n as nat, 10),
{
    let mut s = String::new();
    push_digits(&mut s, n, 10);
    assert(s@ == Seq::<char>::empty() + digits_of(n as nat, 10));
    s
}

// ---------------------------------------------------------------------------
// Prices and budgets
// ---------------------------------------------------------------------------

/// Compact price on the matches page: whole millions with `M`, whole
/// thousands with `K`, else the plain number.
pub open spec fn short_price(n: int) -> Seq<char> {
    if n >= 1_000_000 {
        decimal_text(n / 1_000_000) + "M"@
    } else if n >= 1_000 {
        decimal_text(n / 1_000) + "K"@
    } else {
        decimal_text(n)
    }
}

/// Compact price on the matches page.
pub fn fmt_price(n: i64) -> (r: String)
    ensures
        r@ == short_price(n as int),
{
    if n >= 1_000_000 {
        let mut s = decimal(n / 1_000_000);
        s.append("M");
        s
    } else if n >= 1_000 {
        let mut s = decimal(n / 1_000);
        s.append("K");
        s
    } else {
        decimal(n)
    }
}

/// A client's budget on the matches page.
pub open spec fn budget_text(min: Option<i64>, max: Option<i64>) -> Seq<char> {
    match (min, max) {
        (Some(a), Some(b)) => "Budget: $"@ + short_price(a as int) + " \u{2013} $"@ + short_price(
            b as int,
        ),
        (Some(a), None) => "Budget: from $"@ + short_price(a as int),
        (None, Some(b)) => "Budget: up to $"@ + short_price(b as int),
        (None, None) => "No budget set"@,
    }
}

/// A client's budget on the matches page.
pub fn fmt_budget(min: Option<i64>, max: Option<i64>) -> (r: String)
    ensures
        r@ == budget_text(min, max),
{
    match (min, max) {
        (Some(a), Some(b)) => {
            let mut s = owned("Budget: $");
            s.append(fmt_price(a).as_str());
            s.append(" \u{2013} $");
            s.append(fmt_price(b).as_str());
            s
        },
        (Some(a), None) => {
            let mut s = owned("Budget: from $");
            s.append(fmt_price(a).as_str());
            s
        },
        (None, Some(b)) => {
            let mut s = owned("Budget: up to $");
            s.append(fmt_price(b).as_str());
            s
        },
        (None, None) => owned("No budget set"),
    }
}

/// A listing price below a million: thousands are written with a comma and
/// three digits when the hundreds digit is not zero, else with `K`.
pub open spec fn listing_price(n: int) -> Seq<char> {
    if n >= 1_000 {
        if (n % 1_000) / 100 > 0 {
            decimal_text(n / 1_000) + ","@ + padded_digits((n % 1_000) as nat, 10, 3)
        } else {
            decimal_text(n / 1_000) + "K"@
        }
    } else {
        decimal_text(n)
    }
}

/// A property card's price. Amounts of a million or more are written in
/// millions with two decimals, which is left to the caller: `None` then.
pub fn format_price(n: i64) -> (r: Option<String>)
    ensures
        r is None <==> n >= 1_000_000,
        r matches Some(s) ==> s@ == listing_price(n as int),
{
    if n >= 1_000_000 {
        None
    } else if n >= 1_000 {
        let thousands = n / 1_000;
        let rest = n % 1_000;
        let mut s = decimal(thousands);
        if rest / 100 > 0 {
            s.append(",");
            push_padded(&mut s, rest as u64, 10, 3);
        } else {
            s.append("K");
        }
        Some(s)
    } else {
        Some(decimal(n))
    }
}

/// A client's budget amount below a million: whole thousands with `K`, else
/// the plain number.
pub open spec fn money_text(n: int) -> Seq<char> {
    if n >= 1_000 {
        decimal_text(n / 1_000) + "K"@
    } else {
        decimal_text(n)
    }
}

/// A budget amount on the clients page. Amounts of a million or more are
/// written in millions with one decimal, which is left to the caller: `None`
/// then.
pub fn format_money(n: i64) -> (r: Option<String>)
    ensures
        r is None <==> n >= 1_000_000,
        r matches Some(s) ==> s@ == money_text(n as int),
{
    if n >= 1_000_000 {
        None
    } else if n >= 1_000 {
        let mut s = decimal(n / 1_000);
        s.append("K");
        Some(s)
    } else {
        Some(decimal(n))
    }
}

/// A client's budget on the clients page, from its amounts as rendered.
pub open spec fn client_budget_text(min: Option<Seq<char>>, max: Option<Seq<char>>) -> Seq<char> {
    match (min, max) {
        (Some(a), Some(b)) => "$"@ + a + " \u{2013} $"@ + b,
        (Some(a), None) => "From $"@ + a,
        (None, Some(b)) => "Up to $"@ + b,
        (None, None) => "No budget set"@,
    }
}

/// A client's budget on the clients page. `min` and `max` are the budget's
/// amounts as rendered (`format_money`, or the caller's millions text).
pub fn client_budget(min: Option<String>, max: Option<String>) -> (r: String)
    ensures
        r@ == client_budget_text(
            match min {
                Some(a) => Some(a@),
                None => None,
            },
            match max {
                Some(b) => Some(b@),
                None => None,
            },
        ),
{
    match (min, max) {
        (Some(a), Some(b)) => {
            let mut s = owned("$");
            s.append(a.as_str());
            s.append(" \u{2013} $");
            s.append(b.as_str());
            s
        },
        (Some(a), None) => {
            let mut s = owned("From $");
            s.append(a.as_str());
            s
        },
        (None, Some(b)) => {
            let mut s = owned("Up to $");
            s.append(b.as_str());
            s
        },
        (None, None) => owned("No budget set"),
    }
}

// ---------------------------------------------------------------------------
// Names and counts
// ---------------------------------------------------------------------------

/// ASCII upper case of a character (`char::to_ascii_uppercase`).
pub open spec fn ascii_upper(c: char) -> char {
    if 'a' <= c && c <= 'z' {
        (c as int - 32) as char
    } else {
        c
    }
}

/// The avatar letter of a name: its first character in ASCII upper case,
/// or `?` for an empty name.
pub open spec fn initial_of(name: Seq<char>) -> char {
    if name.len() == 0 {
        '?'
    } else {
        ascii_upper(name[0])
    }
}

/// The avatar letter of a name.
pub fn initial(name: &str) -> (r: char)
    ensures
        r == initial_of(name@),
{
    if name.unicode_len() == 0 {
        return '?';
    }
    let c = name.get_char(0);
    if 'a' <= c && c <= 'z' {
        let u = ((c as u32) - 32) as u8;
        assert(u as int == c as int - 32);
        u as char
    } else {
        c
    }
}

/// How many properties match a client.
pub open spec fn match_count_text(n: u64) -> Seq<char> {
    if n == 1 {
        "1 match"@
    } else {
        digits_of(n as nat, 10) + " matches"@
    }
}

/// How many properties match a client.
pub fn match_label(n: usize) -> (r: String)
    ensures
        r@ == match_count_text(n as u64),
{
    if n == 1 {
        owned("1 match")
    } else {
        let mut s = count_text(n as u64);
        s.append(" matches");
        s
    }
}

// ---------------------------------------------------------------------------
// The voice page
// ---------------------------------------------------------------------------

/// The activity chip's wording for a function name.
pub open spec fn friendly_label_of(name: Seq<char>) -> Seq<char> {
    if name == "get_menu"@ || name == "view_menu"@ {
        "Fetching menu"@
    } else if name == "add_to_cart"@ {
        "Adding to cart"@
    } else if name == "remove_from_cart"@ || name == "update_cart"@ {
        "Updating cart"@
    } else if name == "view_cart"@ {
        "Checking cart"@
    } else if name == "view_order"@ {
        "Reviewing order"@
    } else if name == "place_order"@ {
        "Sending to kitchen"@
    } else {
        name
    }
}

/// The activity chip's wording for a function name.
pub fn friendly_label(name: &str) -> (r: String)
    ensures
        r@ == friendly_label_of(name@),
{
    if str_eq(name, "get_menu") || str_eq(name, "view_menu") {
        owned("Fetching menu")
    } else if str_eq(name, "add_to_cart") {
        owned("Adding to cart")
    } else if str_eq(name, "remove_from_cart") || str_eq(name, "update_cart") {
        owned("Updating cart")
    } else if str_eq(name, "view_cart") {
        owned("Checking cart")
    } else if str_eq(name, "view_order") {
        owned("Reviewing order")
    } else if str_eq(name, "place_order") {
        owned("Sending to kitchen")
    } else {
        owned(name)
    }
}

/// The page background colour for an activity.
pub open spec fn page_bg_of(a: Activity) -> Seq<char> {
    "background: rgb("@ + match a {
        Activity::Idle => "15, 15, 30"@,
        Activity::Listening => "15, 25, 20"@,
        Activity::Processing => "25, 22, 15"@,
        Activity::Speaking => "25, 15, 18"@,
    } + ");"@
}

/// The page background style for an activity.
pub fn page_bg(a: Activity) -> (r: String)
    ensures
        r@ == page_bg_of(a),
{
    let mut s = owned("background: rgb(");
    let rgb = match a {
        Activity::Idle => "15, 15, 30",
        Activity::Listening => "15, 25, 20",
        Activity::Processing => "25, 22, 15",
        Activity::Speaking => "25, 15, 18",
    };
    s.append(rgb);
    s.append(");");
    s
}

/// The time of day of a millisecond timestamp, `HH:MM:SS` (UTC).
pub open spec fn clock_text(ts: u64) -> Seq<char> {
    let secs = ts / 1000;
    padded_digits(((secs / 3600) % 24) as nat, 10, 2) + ":"@ + padded_digits(
        ((secs / 60) % 60) as nat,
        10,
        2,
    ) + ":"@ + padded_digits((secs % 60) as nat, 10, 2)
}

/// The time of day of a millisecond timestamp, `HH:MM:SS` (UTC).
pub fn format_time(ts: u64) -> (r: String)
    ensures
        r@ == clock_text(ts),
{
    let secs = ts / 1000;
    let mins = (secs / 60) % 60;
    let hrs = (secs / 3600) % 24;
    let s = secs % 60;
    let mut out = String::new();
    push_padded(&mut out, hrs, 10, 2);
    out.append(":");
    push_padded(&mut out, mins, 10, 2);
    out.append(":");
    push_padded(&mut out, s, 10, 2);
    out
}

} // verus!
