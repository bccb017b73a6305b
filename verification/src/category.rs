use vstd::prelude::*;

use crate::text::{
    ascii_lower, ascii_upper, is_word_char, push_char, str_eq, trim, trimmed, unicode_upper,
    uppercase,
};

verus! {

/// The spending categories a receipt item can fall into.
#[derive(Clone, Copy, Debug, PartialEq, Eq, Structural)]
pub enum ReceiptCategory {
    RentMortgage,
    Utilities,
    Groceries,
    HouseholdChems,
    Obligations,
    RestaurantsCafes,
    Entertainment,
    ClothingShoes,
    PublicTransport,
    TaxiCarsharing,
    Medical,
    PersonalCare,
    Sport,
    EmergencyFund,
    Investments,
}

/// The number of categories.
pub const CATEGORY_COUNT: usize = 15;

/// The category at position `i` of the canonical order.
pub open spec fn category_at(i: int) -> ReceiptCategory {
    if i == 0 { ReceiptCategory::RentMortgage }
    else if i == 1 { ReceiptCategory::Utilities }
    else if i == 2 { ReceiptCategory::Groceries }
    else if i == 3 { ReceiptCategory::HouseholdChems }
    else if i == 4 { ReceiptCategory::Obligations }
    else if i == 5 { ReceiptCategory::RestaurantsCafes }
    else if i == 6 { ReceiptCategory::Entertainment }
    else if i == 7 { ReceiptCategory::ClothingShoes }
    else if i == 8 { ReceiptCategory::PublicTransport }
    else if i == 9 { ReceiptCategory::TaxiCarsharing }
    else if i == 10 { ReceiptCategory::Medical }
    else if i == 11 { ReceiptCategory::PersonalCare }
    else if i == 12 { ReceiptCategory::Sport }
    else if i == 13 { ReceiptCategory::EmergencyFund }
    else { ReceiptCategory::Investments }
}

/// The names of all categories, in canonical order.
pub open spec fn valid_categories() -> Seq<Seq<char>> {
    Seq::new(CATEGORY_COUNT as nat, |i: int| category_at(i).spec_name())
}

/// The category whose name is exactly `s`.
pub open spec fn category_named(s: Seq<char>) -> Option<ReceiptCategory> {
    if s == "RENT_MORTGAGE"@ { Some(ReceiptCategory::RentMortgage) }
    else if s == "UTILITIES"@ { Some(ReceiptCategory::Utilities) }
    else if s == "GROCERIES"@ { Some(ReceiptCategory::Groceries) }
    else if s == "HOUSEHOLD_CHEMS"@ { Some(ReceiptCategory::HouseholdChems) }
    else if s == "OBLIGATIONS"@ { Some(ReceiptCategory::Obligations) }
    else if s == "RESTAURANTS_CAFES"@ { Some(ReceiptCategory::RestaurantsCafes) }
    else if s == "ENTERTAINMENT"@ { Some(ReceiptCategory::Entertainment) }
    else if s == "CLOTHING_SHOES"@ { Some(ReceiptCategory::ClothingShoes) }
    else if s == "PUBLIC_TRANSPORT"@ { Some(ReceiptCategory::PublicTransport) }
    else if s == "TAXI_CARSHARING"@ { Some(ReceiptCategory::TaxiCarsharing) }
    else if s == "MEDICAL"@ { Some(ReceiptCategory::Medical) }
    else if s == "PERSONAL_CARE"@ { Some(ReceiptCategory::PersonalCare) }
    else if s == "SPORT"@ { Some(ReceiptCategory::Sport) }
    else if s == "EMERGENCY_FUND"@ { Some(ReceiptCategory::EmergencyFund) }
    else if s == "INVESTMENTS"@ { Some(ReceiptCategory::Investments) }
    else { None }
}

/// What `normalize_category` compares against the names: the input trimmed,
/// uppercased, with spaces and hyphens turned into underscores.
pub open spec fn normalized_text(s: Seq<char>) -> Seq<char> {
    unicode_upper(trimmed(s)).map_values(|c: char| if c == ' ' || c == '-' { '_' } else { c })
}

/// The emoji shown for a stored category name; a question mark for any
/// other text.
pub open spec fn spec_category_emoji(cat: Seq<char>) -> Seq<char> {
    match category_named(cat) {
        Some(c) => c.spec_emoji(),
        None => "\u{2753}"@,
    }
}

/// The human label shown for a stored category name; `Other` for any other
/// text.
pub open spec fn spec_category_label(cat: Seq<char>) -> Seq<char> {
    match category_named(cat) {
        Some(c) => c.spec_label(),
        None => "Other"@,
    }
}

/// A name made of ASCII uppercase letters and underscores only.
pub open spec fn is_upper_word(s: Seq<char>) -> bool {
    s.len() > 0 && forall|i: int| 0 <= i < s.len() ==> ('A' <= #[trigger] s[i] <= 'Z' || s[i] == '_')
}

impl ReceiptCategory {
    /// The stored name of the category (SCREAMING_SNAKE_CASE).
    pub open spec fn spec_name(self) -> Seq<char> {
        match self {
            ReceiptCategory::RentMortgage => "RENT_MORTGAGE"@,
            ReceiptCategory::Utilities => "UTILITIES"@,
            ReceiptCategory::Groceries => "GROCERIES"@,
            ReceiptCategory::HouseholdChems => "HOUSEHOLD_CHEMS"@,
            ReceiptCategory::Obligations => "OBLIGATIONS"@,
            ReceiptCategory::RestaurantsCafes => "RESTAURANTS_CAFES"@,
            ReceiptCategory::Entertainment => "ENTERTAINMENT"@,
            ReceiptCategory::ClothingShoes => "CLOTHING_SHOES"@,
            ReceiptCategory::PublicTransport => "PUBLIC_TRANSPORT"@,
            ReceiptCategory::TaxiCarsharing => "TAXI_CARSHARING"@,
            ReceiptCategory::Medical => "MEDICAL"@,
            ReceiptCategory::PersonalCare => "PERSONAL_CARE"@,
            ReceiptCategory::Sport => "SPORT"@,
            ReceiptCategory::EmergencyFund => "EMERGENCY_FUND"@,
            ReceiptCategory::Investments => "INVESTMENTS"@,
        }
    }

    pub open spec fn spec_emoji(self) -> Seq<char> {
        match self {
            ReceiptCategory::RentMortgage => "\u{1F3E0}"@,
            ReceiptCategory::Utilities => "\u{1F4A1}"@,
            ReceiptCategory::Groceries => "\u{1F6D2}"@,
            ReceiptCategory::HouseholdChems => "\u{1F9F9}"@,
            ReceiptCategory::Obligations => "\u{1F4CB}"@,
            ReceiptCategory::RestaurantsCafes => "\u{1F37D}"@,
            ReceiptCategory::Entertainment => "\u{1F3AE}"@,
            ReceiptCategory::ClothingShoes => "\u{1F455}"@,
            ReceiptCategory::PublicTransport => "\u{1F68C}"@,
            ReceiptCategory::TaxiCarsharing => "\u{1F695}"@,
            ReceiptCategory::Medical => "\u{1F3E5}"@,
            ReceiptCategory::PersonalCare => "\u{1F487}"@,
            ReceiptCategory::Sport => "\u{1F3CB}"@,
            ReceiptCategory::EmergencyFund => "\u{1F3E6}"@,
            ReceiptCategory::Investments => "\u{1F4C8}"@,
        }
    }

    pub open spec fn spec_label(self) -> Seq<char> {
        match self {
            ReceiptCategory::RentMortgage => "Rent/Mortgage"@,
            ReceiptCategory::Utilities => "Utilities"@,
            ReceiptCategory::Groceries => "Groceries"@,
            ReceiptCategory::HouseholdChems => "Household"@,
            ReceiptCategory::Obligations => "Obligations"@,
            ReceiptCategory::RestaurantsCafes => "Restaurants"@,
            ReceiptCategory::Entertainment => "Entertainment"@,
            ReceiptCategory::ClothingShoes => "Clothing"@,
            ReceiptCategory::PublicTransport => "Transport"@,
            ReceiptCategory::TaxiCarsharing => "Taxi/Carsharing"@,
            ReceiptCategory::Medical => "Medical"@,
            ReceiptCategory::PersonalCare => "Personal Care"@,
            ReceiptCategory::Sport => "Sport"@,
            ReceiptCategory::EmergencyFund => "Emergency Fund"@,
            ReceiptCategory::Investments => "Investments"@,
        }
    }

    /// The stored name of the category.
    pub fn name(&self) -> (r: &'static str)
        ensures
            r@ == self.spec_name(),
    {
        match self {
            ReceiptCategory::RentMortgage => "RENT_MORTGAGE",
            ReceiptCategory::Utilities => "UTILITIES",
            ReceiptCategory::Groceries => "GROCERIES",
            ReceiptCategory::HouseholdChems => "HOUSEHOLD_CHEMS",
            ReceiptCategory::Obligations => "OBLIGATIONS",
            ReceiptCategory::RestaurantsCafes => "RESTAURANTS_CAFES",
            ReceiptCategory::Entertainment => "ENTERTAINMENT",
            ReceiptCategory::ClothingShoes => "CLOTHING_SHOES",
            ReceiptCategory::PublicTransport => "PUBLIC_TRANSPORT",
            ReceiptCategory::TaxiCarsharing => "TAXI_CARSHARING",
            ReceiptCategory::Medical => "MEDICAL",
            ReceiptCategory::PersonalCare => "PERSONAL_CARE",
            ReceiptCategory::Sport => "SPORT",
            ReceiptCategory::EmergencyFund => "EMERGENCY_FUND",
            ReceiptCategory::Investments => "INVESTMENTS",
        }
    }

    /// The emoji of the category.
    pub fn emoji(&self) -> (r: &'static str)
        ensures
            r@ == self.spec_emoji(),
    {
        match self {
            ReceiptCategory::RentMortgage => "\u{1F3E0}",
            ReceiptCategory::Utilities => "\u{1F4A1}",
            ReceiptCategory::Groceries => "\u{1F6D2}",
            ReceiptCategory::HouseholdChems => "\u{1F9F9}",
            ReceiptCategory::Obligations => "\u{1F4CB}",
            ReceiptCategory::RestaurantsCafes => "\u{1F37D}",
            ReceiptCategory::Entertainment => "\u{1F3AE}",
            ReceiptCategory::ClothingShoes => "\u{1F455}",
            ReceiptCategory::PublicTransport => "\u{1F68C}",
            ReceiptCategory::TaxiCarsharing => "\u{1F695}",
            ReceiptCategory::Medical => "\u{1F3E5}",
            ReceiptCategory::PersonalCare => "\u{1F487}",
            ReceiptCategory::Sport => "\u{1F3CB}",
            ReceiptCategory::EmergencyFund => "\u{1F3E6}",
            ReceiptCategory::Investments => "\u{1F4C8}",
        }
    }

    /// The human label of the category.
    pub fn label(&self) -> (r: &'static str)
        ensures
            r@ == self.spec_label(),
    {
        match self {
            ReceiptCategory::RentMortgage => "Rent/Mortgage",
            ReceiptCategory::Utilities => "Utilities",
            ReceiptCategory::Groceries => "Groceries",
            ReceiptCategory::HouseholdChems => "Household",
            ReceiptCategory::Obligations => "Obligations",
            ReceiptCategory::RestaurantsCafes => "Restaurants",
            ReceiptCategory::Entertainment => "Entertainment",
            ReceiptCategory::ClothingShoes => "Clothing",
            ReceiptCategory::PublicTransport => "Transport",
            ReceiptCategory::TaxiCarsharing => "Taxi/Carsharing",
            ReceiptCategory::Medical => "Medical",
            ReceiptCategory::PersonalCare => "Personal Care",
            ReceiptCategory::Sport => "Sport",
            ReceiptCategory::EmergencyFund => "Emergency Fund",
            ReceiptCategory::Investments => "Investments",
        }
    }

    /// The category at position `i` of the canonical order.
    pub fn at(i: usize) -> (r: ReceiptCategory)
        requires
            i < CATEGORY_COUNT,
        ensures
            r == category_at(i as int),
    {
        match i {
            0 => ReceiptCategory::RentMortgage,
            1 => ReceiptCategory::Utilities,
            2 => ReceiptCategory::Groceries,
            3 => ReceiptCategory::HouseholdChems,
            4 => ReceiptCategory::Obligations,
            5 => ReceiptCategory::RestaurantsCafes,
            6 => ReceiptCategory::Entertainment,
            7 => ReceiptCategory::ClothingShoes,
            8 => ReceiptCategory::PublicTransport,
            9 => ReceiptCategory::TaxiCarsharing,
            10 => ReceiptCategory::Medical,
            11 => ReceiptCategory::PersonalCare,
            12 => ReceiptCategory::Sport,
            13 => ReceiptCategory::EmergencyFund,
            _ => ReceiptCategory::Investments,
        }
    }

    /// The category whose stored name is exactly `s`.
    pub fn from_name(s: &str) -> (r: Option<ReceiptCategory>)
        ensures
            r == category_named(s@),
    {
        if str_eq(s, "RENT_MORTGAGE") { Some(ReceiptCategory::RentMortgage) }
        else if str_eq(s, "UTILITIES") { Some(ReceiptCategory::Utilities) }
        else if str_eq(s, "GROCERIES") { Some(ReceiptCategory::Groceries) }
        else if str_eq(s, "HOUSEHOLD_CHEMS") { Some(ReceiptCategory::HouseholdChems) }
        else if str_eq(s, "OBLIGATIONS") { Some(ReceiptCategory::Obligations) }
        else if str_eq(s, "RESTAURANTS_CAFES") { Some(ReceiptCategory::RestaurantsCafes) }
        else if str_eq(s, "ENTERTAINMENT") { Some(ReceiptCategory::Entertainment) }
        else if str_eq(s, "CLOTHING_SHOES") { Some(ReceiptCategory::ClothingShoes) }
        else if str_eq(s, "PUBLIC_TRANSPORT") { Some(ReceiptCategory::PublicTransport) }
        else if str_eq(s, "TAXI_CARSHARING") { Some(ReceiptCategory::TaxiCarsharing) }
        else if str_eq(s, "MEDICAL") { Some(ReceiptCategory::Medical) }
        else if str_eq(s, "PERSONAL_CARE") { Some(ReceiptCategory::PersonalCare) }
        else if str_eq(s, "SPORT") { Some(ReceiptCategory::Sport) }
        else if str_eq(s, "EMERGENCY_FUND") { Some(ReceiptCategory::EmergencyFund) }
        else if str_eq(s, "INVESTMENTS") { Some(ReceiptCategory::Investments) }
        else { None }
    }
}

/// Every category name is made of uppercase ASCII letters and underscores.
pub proof fn lemma_names_are_upper_words(c: ReceiptCategory)
    ensures
        is_upper_word(c.spec_name()),
{
    reveal_strlit("RENT_MORTGAGE");
    reveal_strlit("UTILITIES");
    reveal_strlit("GROCERIES");
    reveal_strlit("HOUSEHOLD_CHEMS");
    reveal_strlit("OBLIGATIONS");
    reveal_strlit("RESTAURANTS_CAFES");
    reveal_strlit("ENTERTAINMENT");
    reveal_strlit("CLOTHING_SHOES");
    reveal_strlit("PUBLIC_TRANSPORT");
    reveal_strlit("TAXI_CARSHARING");
    reveal_strlit("MEDICAL");
    reveal_strlit("PERSONAL_CARE");
    reveal_strlit("SPORT");
    reveal_strlit("EMERGENCY_FUND");
    reveal_strlit("INVESTMENTS");
}

/// Looking a category's own name up gives that category back: no two
/// categories share a name.
pub proof fn lemma_category_named_name(c: ReceiptCategory)
    ensures
        category_named(c.spec_name()) == Some(c),
{
    reveal_strlit("RENT_MORTGAGE");
    reveal_strlit("UTILITIES");
    reveal_strlit("GROCERIES");
    reveal_strlit("HOUSEHOLD_CHEMS");
    reveal_strlit("OBLIGATIONS");
    reveal_strlit("RESTAURANTS_CAFES");
    reveal_strlit("ENTERTAINMENT");
    reveal_strlit("CLOTHING_SHOES");
    reveal_strlit("PUBLIC_TRANSPORT");
    reveal_strlit("TAXI_CARSHARING");
    reveal_strlit("MEDICAL");
    reveal_strlit("PERSONAL_CARE");
    reveal_strlit("SPORT");
    reveal_strlit("EMERGENCY_FUND");
    reveal_strlit("INVESTMENTS");
    assert("RENT_MORTGAGE"@.len() == 13 && "RENT_MORTGAGE"@[0] == 'R');
    assert("UTILITIES"@.len() == 9 && "UTILITIES"@[0] == 'U');
    assert("GROCERIES"@.len() == 9 && "GROCERIES"@[0] == 'G');
    assert("HOUSEHOLD_CHEMS"@.len() == 15 && "HOUSEHOLD_CHEMS"@[0] == 'H');
    assert("OBLIGATIONS"@.len() == 11 && "OBLIGATIONS"@[0] == 'O');
    assert("RESTAURANTS_CAFES"@.len() == 17 && "RESTAURANTS_CAFES"@[0] == 'R');
    assert("ENTERTAINMENT"@.len() == 13 && "ENTERTAINMENT"@[0] == 'E');
    assert("CLOTHING_SHOES"@.len() == 14 && "CLOTHING_SHOES"@[0] == 'C');
    assert("PUBLIC_TRANSPORT"@.len() == 16 && "PUBLIC_TRANSPORT"@[0] == 'P');
    assert("TAXI_CARSHARING"@.len() == 15 && "TAXI_CARSHARING"@[0] == 'T');
    assert("MEDICAL"@.len() == 7 && "MEDICAL"@[0] == 'M');
    assert("PERSONAL_CARE"@.len() == 13 && "PERSONAL_CARE"@[0] == 'P');
    assert("SPORT"@.len() == 5 && "SPORT"@[0] == 'S');
    assert("EMERGENCY_FUND"@.len() == 14 && "EMERGENCY_FUND"@[0] == 'E');
    assert("INVESTMENTS"@.len() == 11 && "INVESTMENTS"@[0] == 'I');
}

/// `s` with every space and hyphen turned into an underscore.
pub open spec fn underscored(s: Seq<char>) -> Seq<char> {
    s.map_values(|c: char| if c == ' ' || c == '-' { '_' } else { c })
}

fn replace_separators(s: &str) -> (r: String)
    ensures
        r@ == underscored(s@),
{
    let n = s.unicode_len();
    let mut r = String::new();
    let mut i: usize = 0;
    while i < n
        invariant
            n == s@.len(),
            i <= n,
            r@ =~= underscored(s@.subrange(0, i as int)),
        decreases n - i,
    {
        let c = s.get_char(i);
        let d = if c == ' ' || c == '-' { '_' } else { c };
        push_char(&mut r, d);
        i = i + 1;
        assert(r@ =~= underscored(s@.subrange(0, i as int)));
    }
    assert(s@.subrange(0, n as int) =~= s@);
    r
}

/// The emoji for a stored category name; a question mark for any other text.
pub fn category_emoji(cat: &str) -> (r: &'static str)
    ensures
        r@ == spec_category_emoji(cat@),
{
    match ReceiptCategory::from_name(cat) {
        Some(c) => c.emoji(),
        None => "\u{2753}",
    }
}

/// The human label for a stored category name; `Other` for any other text.
pub fn category_label(cat: &str) -> (r: &'static str)
    ensures
        r@ == spec_category_label(cat@),
{
    match ReceiptCategory::from_name(cat) {
        Some(c) => c.label(),
        None => "Other",
    }
}

proof fn lemma_upper_word_case(name: Seq<char>)
    requires
        is_upper_word(name),
    ensures
        ascii_upper(name) == name,
        ascii_upper(ascii_lower(name)) == name,
        underscored(name) == name,
        vstd::utf8::is_ascii_chars(name),
        vstd::utf8::is_ascii_chars(ascii_lower(name)),
        is_word_char(name[0]),
        is_word_char(name.last()),
        is_word_char(ascii_lower(name)[0]),
        is_word_char(ascii_lower(name).last()),
        ascii_lower(name).len() == name.len(),
{
    assert(ascii_upper(name) =~= name);
    assert(ascii_upper(ascii_lower(name)) =~= name);
    assert(underscored(name) =~= name);
    let lo = ascii_lower(name);
    assert(lo[0] == if 'A' <= name[0] <= 'Z' { ((name[0] as int) + 32) as char } else { name[0] });
    assert(lo[lo.len() - 1] == if 'A' <= name[name.len() - 1] <= 'Z' {
        ((name[name.len() - 1] as int) + 32) as char
    } else {
        name[name.len() - 1]
    });
}

/// Finds the category that `input` names: the input is trimmed, uppercased,
/// and its spaces and hyphens become underscores before it is compared with
/// the stored names. Every stored name is accepted as it is and in
/// lowercase.
pub fn normalize_category(input: &str) -> (r: Option<&'static str>)
    ensures
        match category_named(normalized_text(input@)) {
            Some(c) => r is Some && r->0@ == c.spec_name(),
            None => r is None,
        },
        vstd::utf8::is_ascii_chars(input@) ==> match category_named(
            underscored(ascii_upper(trimmed(input@))),
        ) {
            Some(c) => r is Some && r->0@ == c.spec_name(),
            None => r is None,
        },
        forall|c: ReceiptCategory|
            #![trigger c.spec_name()]
            (input@ == c.spec_name() || input@ == ascii_lower(c.spec_name())) ==> (r is Some
                && r->0@ == c.spec_name()),
{
    let t = trim(input);
    let u = uppercase(t);
    let norm = replace_separators(u.as_str());
    assert(norm@ == normalized_text(input@));
    let r = match ReceiptCategory::from_name(norm.as_str()) {
        Some(c) => Some(c.name()),
        None => None,
    };
    assert forall|c: ReceiptCategory|
        #![trigger c.spec_name()]
        (input@ == c.spec_name() || input@ == ascii_lower(c.spec_name())) implies (r is Some
            && r->0@ == c.spec_name()) by {
        lemma_names_are_upper_words(c);
        lemma_upper_word_case(c.spec_name());
        lemma_category_named_name(c);
        assert(t@ == input@);
        assert(u@ == c.spec_name());
        assert(norm@ == c.spec_name());
    }
    r
}

/// The emoji and label shown for a category's stored name are the
/// category's own; no category is shown as `Other`.
pub proof fn lemma_stored_name_shows_category(c: ReceiptCategory)
    ensures
        spec_category_emoji(c.spec_name()) == c.spec_emoji(),
        spec_category_label(c.spec_name()) == c.spec_label(),
        spec_category_label(c.spec_name()) != "Other"@,
{
    lemma_category_named_name(c);
    reveal_strlit("Other");
    reveal_strlit("Rent/Mortgage");
    reveal_strlit("Utilities");
    reveal_strlit("Groceries");
    reveal_strlit("Household");
    reveal_strlit("Obligations");
    reveal_strlit("Restaurants");
    reveal_strlit("Entertainment");
    reveal_strlit("Clothing");
    reveal_strlit("Transport");
    reveal_strlit("Taxi/Carsharing");
    reveal_strlit("Medical");
    reveal_strlit("Personal Care");
    reveal_strlit("Sport");
    reveal_strlit("Emergency Fund");
    reveal_strlit("Investments");
    assert(c.spec_label().len() != 5 || c.spec_label()[0] != 'O');
}

} // verus!
