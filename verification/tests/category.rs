use william::category::{
    category_emoji, category_label, normalize_category, ReceiptCategory, CATEGORY_COUNT,
};

const NAMES: [&str; 15] = [
    "RENT_MORTGAGE",
    "UTILITIES",
    "GROCERIES",
    "HOUSEHOLD_CHEMS",
    "OBLIGATIONS",
    "RESTAURANTS_CAFES",
    "ENTERTAINMENT",
    "CLOTHING_SHOES",
    "PUBLIC_TRANSPORT",
    "TAXI_CARSHARING",
    "MEDICAL",
    "PERSONAL_CARE",
    "SPORT",
    "EMERGENCY_FUND",
    "INVESTMENTS",
];

#[test]
fn category_order_and_names() {
    assert_eq!(CATEGORY_COUNT, 15);
    for (i, name) in NAMES.iter().enumerate() {
        let c = ReceiptCategory::at(i);
        assert_eq!(c.name(), *name);
        assert_eq!(ReceiptCategory::from_name(name), Some(c));
    }
    assert_eq!(ReceiptCategory::from_name("groceries"), None);
    assert_eq!(ReceiptCategory::from_name(""), None);
}

#[test]
fn normalize_accepts_names_in_either_case() {
    for name in NAMES.iter() {
        assert_eq!(normalize_category(name), Some(*name));
        assert_eq!(normalize_category(&name.to_lowercase()), Some(*name));
    }
}

#[test]
fn normalize_trims_and_maps_separators() {
    assert_eq!(normalize_category("groceries"), Some("GROCERIES"));
    assert_eq!(normalize_category("  Personal care  "), Some("PERSONAL_CARE"));
    assert_eq!(normalize_category("public-transport"), Some("PUBLIC_TRANSPORT"));
    assert_eq!(normalize_category("\u{A0}sport\u{2003}"), Some("SPORT"));
    assert_eq!(normalize_category("Emergency Fund"), Some("EMERGENCY_FUND"));
    assert_eq!(normalize_category("  Personal-care "), Some("PERSONAL_CARE"));
}

#[test]
fn normalize_rejects_other_text() {
    assert_eq!(normalize_category(""), None);
    assert_eq!(normalize_category("   "), None);
    assert_eq!(normalize_category("pizza"), None);
    assert_eq!(normalize_category("grocery"), None);
    assert_eq!(normalize_category("groceries!"), None);
}

#[test]
fn normalize_uses_full_unicode_uppercase() {
    // U+017F LATIN SMALL LETTER LONG S uppercases to 'S'.
    assert_eq!(normalize_category("\u{17F}port"), Some("SPORT"));
}

#[test]
fn emoji_and_label_of_each_category() {
    let emojis = [
        "\u{1F3E0}", "\u{1F4A1}", "\u{1F6D2}", "\u{1F9F9}", "\u{1F4CB}", "\u{1F37D}", "\u{1F3AE}",
        "\u{1F455}", "\u{1F68C}", "\u{1F695}", "\u{1F3E5}", "\u{1F487}", "\u{1F3CB}", "\u{1F3E6}",
        "\u{1F4C8}",
    ];
    let labels = [
        "Rent/Mortgage", "Utilities", "Groceries", "Household", "Obligations", "Restaurants",
        "Entertainment", "Clothing", "Transport", "Taxi/Carsharing", "Medical", "Personal Care",
        "Sport", "Emergency Fund", "Investments",
    ];
    for i in 0..15 {
        assert_eq!(category_emoji(NAMES[i]), emojis[i]);
        assert_eq!(category_label(NAMES[i]), labels[i]);
        assert_eq!(ReceiptCategory::at(i).emoji(), emojis[i]);
        assert_eq!(ReceiptCategory::at(i).label(), labels[i]);
    }
}

#[test]
fn emoji_and_label_of_unknown_text() {
    assert_eq!(category_emoji("UNKNOWN"), "\u{2753}");
    assert_eq!(category_label("UNKNOWN"), "Other");
    assert_eq!(category_emoji("groceries"), "\u{2753}");
    assert_eq!(category_label(""), "Other");
}
