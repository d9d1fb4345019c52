use magichawk::scryfall::{CardPrintings, RawCard, RawFace, RawRelated, ScryfallCardNames};
use magichawk::store::{image_lines_from_decklist, BacksideMode, CardData};
use magichawk::decklist::{parse_decklist, DecklistEntry};

fn catalog(names: &[&str]) -> ScryfallCardNames {
    ScryfallCardNames {
        object: "catalog".to_string(),
        uri: String::new(),
        total_values: names.len() as i32,
        date: Some(0),
        names: names.iter().map(|s| s.to_string()).collect(),
    }
}

fn direct(name: &str, set: &str, lang: &str, uri: &str) -> RawCard {
    RawCard {
        name: Some(name.to_string()),
        set: Some(set.to_string()),
        lang: Some(lang.to_string()),
        has_image_uris: true,
        image_border_crop: Some(uri.to_string()),
        card_faces: None,
        layout: Some("normal".to_string()),
        all_parts: None,
    }
}

fn two_faced(name: &str, set: &str, lang: &str, front: &str, back: &str) -> RawCard {
    RawCard {
        name: Some(name.to_string()),
        set: Some(set.to_string()),
        lang: Some(lang.to_string()),
        has_image_uris: false,
        image_border_crop: None,
        card_faces: Some(vec![
            RawFace {
                border_crop: Some(front.to_string()),
            },
            RawFace {
                border_crop: Some(back.to_string()),
            },
        ]),
        layout: Some("transform".to_string()),
        all_parts: None,
    }
}

/// Resolves one entry the way the application does: consult `needs_fetch`,
/// record the pending records when a fetch is due, then resolve. Returns how
/// many fetches were issued.
fn resolve_with_fetches(
    cd: &mut CardData,
    entry: &DecklistEntry,
    upstream: &dyn Fn(&str) -> Vec<RawCard>,
    mode: BacksideMode,
) -> (Option<magichawk::store::ImageLine>, usize) {
    let mut fetches = 0;
    if let Some(nl) = cd.lookup.find(&entry.name) {
        if cd.needs_fetch(&nl.name) {
            fetches += 1;
            let objects = upstream(&nl.name);
            cd.record_fetch(&objects);
        }
        if let Some(meld) = cd.meld_target(entry, &nl) {
            if let Some(nl2) = cd.lookup.find(&meld) {
                if cd.needs_fetch(&nl2.name) {
                    fetches += 1;
                    let objects = upstream(&nl2.name);
                    cd.record_fetch(&objects);
                }
            }
        }
    }
    (cd.get_card(entry, mode), fetches)
}

#[test]
fn selection_prefers_set_then_lang_then_english() {
    let names = catalog(&["spawn of mayhem"]);
    let mut cd = CardData::from_parts(names, CardPrintings::new());
    cd.record_fetch(&vec![
        direct("Spawn of Mayhem", "xln", "de", "de.jpg"),
        direct("Spawn of Mayhem", "rna", "en", "rna-en.jpg"),
        direct("Spawn of Mayhem", "xln", "ja", "ja.jpg"),
    ]);
    // Set match wins.
    let e_set = DecklistEntry::new(1, "Spawn of Mayhem", Some("rna"), None);
    let line = cd.get_card(&e_set, BacksideMode::Zero).unwrap();
    assert_eq!(line.images, vec![("rna-en.jpg".to_string(), 1)]);
    // Language match wins when no set matches.
    let e_lang = DecklistEntry::new(2, "Spawn of Mayhem", Some("zzz"), Some("ja"));
    let line = cd.get_card(&e_lang, BacksideMode::Zero).unwrap();
    assert_eq!(line.images, vec![("ja.jpg".to_string(), 2)]);
    // English wins when neither set nor language matches.
    let e_en = DecklistEntry::new(3, "Spawn of Mayhem", None, None);
    let line = cd.get_card(&e_en, BacksideMode::Zero).unwrap();
    assert_eq!(line.images, vec![("rna-en.jpg".to_string(), 3)]);
}

#[test]
fn selection_falls_back_to_first_printing() {
    let names = catalog(&["spawn of mayhem"]);
    let mut cd = CardData::from_parts(names, CardPrintings::new());
    cd.record_fetch(&vec![
        direct("Spawn of Mayhem", "xln", "de", "first.jpg"),
        direct("Spawn of Mayhem", "xln", "ja", "second.jpg"),
    ]);
    let e = DecklistEntry::new(1, "Spawn of Mayhem", None, None);
    let line = cd.get_card(&e, BacksideMode::Zero).unwrap();
    assert_eq!(line.images, vec![("first.jpg".to_string(), 1)]);
}

#[test]
fn part_one_match_forces_back_only() {
    let names = catalog(&["cut // ribbons"]);
    let mut cd = CardData::from_parts(names, CardPrintings::new());
    cd.record_fetch(&vec![two_faced(
        "Cut // Ribbons",
        "akh",
        "en",
        "front.jpg",
        "back.jpg",
    )]);
    // Query by the second face: back only, whatever default is asked for.
    for mode in [
        BacksideMode::Zero,
        BacksideMode::One,
        BacksideMode::Matching,
        BacksideMode::BackOnly,
    ] {
        let e = DecklistEntry::new(3, "ribbon", None, None);
        let line = cd.get_card(&e, mode).unwrap();
        assert_eq!(line.images, vec![("back.jpg".to_string(), 3)]);
    }
}

#[test]
fn backside_modes_compute_counts() {
    let names = catalog(&["cut // ribbons"]);
    let mut cd = CardData::from_parts(names, CardPrintings::new());
    cd.record_fetch(&vec![two_faced(
        "Cut // Ribbons",
        "akh",
        "en",
        "front.jpg",
        "back.jpg",
    )]);
    let e = DecklistEntry::new(4, "cut // ribbons", None, None);
    let zero = cd.get_card(&e, BacksideMode::Zero).unwrap();
    assert_eq!(zero.images, vec![("front.jpg".to_string(), 4)]);
    let one = cd.get_card(&e, BacksideMode::One).unwrap();
    assert_eq!(
        one.images,
        vec![("front.jpg".to_string(), 4), ("back.jpg".to_string(), 1)]
    );
    let matching = cd.get_card(&e, BacksideMode::Matching).unwrap();
    assert_eq!(
        matching.images,
        vec![("front.jpg".to_string(), 4), ("back.jpg".to_string(), 4)]
    );
    let backonly = cd.get_card(&e, BacksideMode::BackOnly).unwrap();
    assert_eq!(backonly.images, vec![("back.jpg".to_string(), 4)]);
}

#[test]
fn meld_back_comes_from_result_card() {
    let names = catalog(&["urza, lord protector", "urza, planeswalker"]);
    let mut cd = CardData::from_parts(names, CardPrintings::new());
    let mut protector = direct("Urza, Lord Protector", "bro", "en", "protector.jpg");
    protector.layout = Some("meld".to_string());
    protector.all_parts = Some(vec![
        RawRelated {
            component: Some("meld_part".to_string()),
            name: Some("The Mightstone and Weakstone".to_string()),
        },
        RawRelated {
            component: Some("meld_result".to_string()),
            name: Some("Urza, Planeswalker".to_string()),
        },
    ]);
    let upstream = move |name: &str| -> Vec<RawCard> {
        if name == "urza, lord protector" {
            vec![RawCard {
                name: protector.name.clone(),
                set: protector.set.clone(),
                lang: protector.lang.clone(),
                has_image_uris: protector.has_image_uris,
                image_border_crop: protector.image_border_crop.clone(),
                card_faces: None,
                layout: protector.layout.clone(),
                all_parts: protector.all_parts.as_ref().map(|ps| {
                    ps.iter()
                        .map(|p| RawRelated {
                            component: p.component.clone(),
                            name: p.name.clone(),
                        })
                        .collect()
                }),
            }]
        } else {
            vec![direct("Urza, Planeswalker", "bro", "en", "planeswalker.jpg")]
        }
    };
    let e = DecklistEntry::new(1, "Urza, Lord Protector", None, None);
    let (line, fetches) = resolve_with_fetches(&mut cd, &e, &upstream, BacksideMode::One);
    assert_eq!(fetches, 2);
    let line = line.unwrap();
    assert_eq!(
        line.images,
        vec![
            ("protector.jpg".to_string(), 1),
            ("planeswalker.jpg".to_string(), 1)
        ]
    );
}

#[test]
fn at_most_one_fetch_per_name() {
    let names = catalog(&["spawn of mayhem"]);
    let mut cd = CardData::from_parts(names, CardPrintings::new());
    let upstream = |_name: &str| vec![direct("Spawn of Mayhem", "rna", "en", "spawn.jpg")];
    let e = DecklistEntry::new(1, "Spawn of Mayhem", None, None);
    let mut total_fetches = 0;
    for _ in 0..3 {
        let (line, fetches) =
            resolve_with_fetches(&mut cd, &e, &upstream, BacksideMode::Zero);
        assert!(line.is_some());
        total_fetches += fetches;
    }
    assert_eq!(total_fetches, 1);
}

#[test]
fn failed_fetch_leaves_name_unresolved() {
    let names = catalog(&["spawn of mayhem"]);
    let mut cd = CardData::from_parts(names, CardPrintings::new());
    // An upstream answer with no usable records resolves nothing...
    let bad = |_name: &str| -> Vec<RawCard> { Vec::new() };
    let e = DecklistEntry::new(1, "Spawn of Mayhem", None, None);
    let (line, fetches) = resolve_with_fetches(&mut cd, &e, &bad, BacksideMode::Zero);
    assert_eq!(line, None);
    assert_eq!(fetches, 1);
    // ...so a later resolution tries again and can succeed.
    let good = |_name: &str| vec![direct("Spawn of Mayhem", "rna", "en", "spawn.jpg")];
    let (line, fetches) = resolve_with_fetches(&mut cd, &e, &good, BacksideMode::Zero);
    assert!(line.is_some());
    assert_eq!(fetches, 1);
}

#[test]
fn end_to_end_two_lines_prefer_set() {
    let names = catalog(&["bedeck // bedazzle", "spawn of mayhem"]);
    let mut cd = CardData::from_parts(names, CardPrintings::new());
    cd.record_fetch(&vec![
        two_faced("Bedeck // Bedazzle", "prm", "en", "bedeck-prm.jpg", "bedazzle-prm.jpg"),
        two_faced("Bedeck // Bedazzle", "rna", "en", "bedeck-rna.jpg", "bedazzle-rna.jpg"),
        direct("Spawn of Mayhem", "prm", "en", "spawn-prm.jpg"),
        direct("Spawn of Mayhem", "rna", "en", "spawn-rna.jpg"),
    ]);
    let decklist = "1 Bedeck // Bedazzle (RNA) 221\n1 Spawn of Mayhem (RNA) 85";
    let parsed = parse_decklist(decklist, &cd.printings.languages);
    let lines = image_lines_from_decklist(&parsed, &cd, BacksideMode::Zero);
    assert_eq!(lines.len(), 2);
    assert_eq!(lines[0].name, "bedeck // bedazzle");
    assert_eq!(lines[0].images, vec![("bedeck-rna.jpg".to_string(), 1)]);
    assert_eq!(lines[1].name, "spawn of mayhem");
    assert_eq!(lines[1].images, vec![("spawn-rna.jpg".to_string(), 1)]);
}

#[test]
fn unresolvable_line_dropped_silently() {
    let names = catalog(&["spawn of mayhem"]);
    let mut cd = CardData::from_parts(names, CardPrintings::new());
    cd.record_fetch(&vec![direct("Spawn of Mayhem", "rna", "en", "spawn.jpg")]);
    let decklist = "1 Spawn of Mayhem\n1 zzzzqqqq";
    let parsed = parse_decklist(decklist, &cd.printings.languages);
    let lines = image_lines_from_decklist(&parsed, &cd, BacksideMode::Zero);
    assert_eq!(lines.len(), 1);
    assert_eq!(lines[0].name, "spawn of mayhem");
}
