use magichawk::lookup::{CardNameLookup, NameLookupResult, NameMatchMode};

#[test]
fn name_search() {
    let card_names: Vec<String> = vec![
        "Okaun, Eye of Chaos".to_string(),
        "Cut // Ribbons".to_string(),
    ];
    let lookup = CardNameLookup::from_card_names(&card_names);
    assert_eq!(
        lookup.find("okaun"),
        Some(NameLookupResult {
            name: "okaun, eye of chaos".to_string(),
            hit: NameMatchMode::Full
        })
    );
    assert_eq!(
        lookup.find("cut // ribbon"),
        Some(NameLookupResult {
            name: "cut // ribbons".to_string(),
            hit: NameMatchMode::Full
        })
    );
    assert_eq!(
        lookup.find("cut"),
        Some(NameLookupResult {
            name: "cut // ribbons".to_string(),
            hit: NameMatchMode::Part(0)
        })
    );
    assert_eq!(
        lookup.find("ribbon"),
        Some(NameLookupResult {
            name: "cut // ribbons".to_string(),
            hit: NameMatchMode::Part(1)
        })
    );
}

#[test]
fn lookup_miss_below_threshold() {
    let card_names: Vec<String> = vec!["Okaun, Eye of Chaos".to_string()];
    let lookup = CardNameLookup::from_card_names(&card_names);
    assert_eq!(lookup.find("zzzzqqqq"), None);
}

#[test]
fn lookup_is_case_insensitive() {
    let card_names: Vec<String> = vec!["Spawn of Mayhem".to_string()];
    let lookup = CardNameLookup::from_card_names(&card_names);
    let hit = lookup.find("SPAWN OF MAYHEM").unwrap();
    assert_eq!(hit.name, "spawn of mayhem");
    assert_eq!(hit.hit, NameMatchMode::Full);
}

#[test]
fn exact_name_always_found() {
    let card_names: Vec<String> = vec!["Spawn of Mayhem".to_string()];
    let lookup = CardNameLookup::from_card_names(&card_names);
    // The lower-cased query is itself the indexed name: a hit is guaranteed.
    let hit = lookup.find("spawn of mayhem").unwrap();
    assert_eq!(hit.name, "spawn of mayhem");
    assert_eq!(hit.hit, NameMatchMode::Full);
}
