use ticketcore::api::{LevelItem, SpecialLevelItem};
use ticketcore::catalog::{
    build_catalog, level_by_id, level_by_name, levels_in_scope, names_of, next_level, parse_amount,
    ScopePolicy,
};
use ticketcore::errors::AppError;

fn level_item(name: &str, money_limit: &str) -> LevelItem {
    LevelItem { key: 0, name: name.to_string(), money_limit: money_limit.to_string() }
}

#[test]
fn parse_amount_accepts_digit_runs() {
    assert_eq!(parse_amount("0"), Some(0));
    assert_eq!(parse_amount("1000"), Some(1000));
    assert_eq!(parse_amount("0007"), Some(7));
    assert_eq!(parse_amount("2147483647"), Some(2147483647));
}

#[test]
fn parse_amount_rejects_non_numbers() {
    assert_eq!(parse_amount(""), None);
    assert_eq!(parse_amount("10x0"), None);
    assert_eq!(parse_amount("-5"), None);
    assert_eq!(parse_amount("+5"), None);
    assert_eq!(parse_amount("2147483648"), None);
    assert_eq!(parse_amount("99999999999999999999"), None);
}

#[test]
fn build_catalog_numbers_default_then_company_ladders() {
    let levels = vec![level_item("low", "500"), level_item("high", "2000")];
    let specials = vec![SpecialLevelItem {
        key: 0,
        name: "Acme".to_string(),
        special_level: vec![level_item("acme", "3000")],
    }];
    let cat = build_catalog(&levels, &specials, 7, 10).unwrap();
    assert_eq!(cat.len(), 3);
    assert_eq!(cat[0].approval_name, "low");
    assert_eq!(cat[0].amount, 500);
    assert_eq!(cat[0].company, None);
    assert_eq!(cat[0].system_id, 7);
    assert_eq!(cat[0].id, 10);
    assert_eq!(cat[1].id, 11);
    assert_eq!(cat[1].amount, 2000);
    assert_eq!(cat[2].id, 12);
    assert_eq!(cat[2].amount, 3000);
    assert_eq!(cat[2].company.as_deref(), Some("Acme"));
}

#[test]
fn build_catalog_rejects_empty_default_ladder() {
    let levels: Vec<LevelItem> = vec![];
    let specials: Vec<SpecialLevelItem> = vec![];
    assert_eq!(build_catalog(&levels, &specials, 1, 1).err(), Some(AppError::Validation));
}

#[test]
fn build_catalog_rejects_malformed_threshold() {
    let levels = vec![level_item("low", "50o")];
    let specials: Vec<SpecialLevelItem> = vec![];
    assert_eq!(build_catalog(&levels, &specials, 1, 1).err(), Some(AppError::Validation));
}

#[test]
fn next_level_walks_the_default_ladder() {
    let levels =
        build_catalog(&vec![level_item("low", "500"), level_item("high", "2000")], &vec![], 1, 1)
            .unwrap();
    let first = next_level(&levels, 1, &None, 0, ScopePolicy::SpecificElseDefault).unwrap();
    assert_eq!(levels[first].amount, 500);
    let second = next_level(&levels, 1, &None, 500, ScopePolicy::SpecificElseDefault).unwrap();
    assert_eq!(levels[second].amount, 2000);
    assert_eq!(next_level(&levels, 1, &None, 2000, ScopePolicy::SpecificElseDefault), None);
}

#[test]
fn next_level_routes_company_to_its_own_ladder() {
    let levels = build_catalog(
        &vec![level_item("low", "500")],
        &vec![SpecialLevelItem {
            key: 0,
            name: "Acme".to_string(),
            special_level: vec![level_item("acme", "2000")],
        }],
        1,
        1,
    )
    .unwrap();
    let company = Some("Acme".to_string());
    let rung = next_level(&levels, 1, &company, 1000, ScopePolicy::SpecificElseDefault).unwrap();
    assert_eq!(levels[rung].amount, 2000);
    assert_eq!(levels[rung].company.as_deref(), Some("Acme"));
}

#[test]
fn next_level_falls_back_to_default_when_company_has_no_ladder() {
    let levels = build_catalog(&vec![level_item("low", "500")], &vec![], 1, 1).unwrap();
    let company = Some("Nowhere".to_string());
    let rung = next_level(&levels, 1, &company, 0, ScopePolicy::SpecificElseDefault).unwrap();
    assert_eq!(levels[rung].company, None);
    assert_eq!(levels[rung].amount, 500);
}

#[test]
fn next_level_default_always_ignores_the_company_ladder() {
    let levels = build_catalog(
        &vec![level_item("low", "500")],
        &vec![SpecialLevelItem {
            key: 0,
            name: "Acme".to_string(),
            special_level: vec![level_item("acme", "2000")],
        }],
        1,
        1,
    )
    .unwrap();
    let company = Some("Acme".to_string());
    let rung = next_level(&levels, 1, &company, 0, ScopePolicy::DefaultAlways).unwrap();
    assert_eq!(levels[rung].company, None);
    assert_eq!(levels[rung].amount, 500);
}

#[test]
fn levels_in_scope_prefers_company_then_falls_back() {
    let levels = build_catalog(
        &vec![level_item("low", "500")],
        &vec![SpecialLevelItem {
            key: 0,
            name: "Acme".to_string(),
            special_level: vec![level_item("acme", "2000")],
        }],
        1,
        1,
    )
    .unwrap();
    let acme = levels_in_scope(&levels, 1, &Some("Acme".to_string()));
    assert_eq!(names_of(&levels, &acme), vec!["acme".to_string()]);
    let unknown = levels_in_scope(&levels, 1, &Some("Nowhere".to_string()));
    assert_eq!(names_of(&levels, &unknown), vec!["low".to_string()]);
}

#[test]
fn level_lookups_find_first_matches() {
    let levels =
        build_catalog(&vec![level_item("low", "500"), level_item("high", "2000")], &vec![], 1, 5)
            .unwrap();
    assert_eq!(level_by_id(&levels, 6), Some(1));
    assert_eq!(level_by_id(&levels, 99), None);
    assert_eq!(level_by_name(&levels, 1, &"high".to_string()), Some(1));
    assert_eq!(level_by_name(&levels, 2, &"high".to_string()), None);
}
