use magichawk::scryfall::{
    encode_card_name, get_minimal_scryfall_languages, insert_scryfall_object, CardPrintings,
    MinimalScryfallObject, RawCard, RawFace, RawRelated, ScryfallCardNames,
};

/// Reduces one wire record to the fields the normalization reads, the same
/// way the application's fetch path does.
fn raw_card_from_value(d: &serde_json::Map<String, serde_json::Value>) -> RawCard {
    RawCard {
        name: d.get("name").and_then(|v| v.as_str()).map(String::from),
        set: d.get("set").and_then(|v| v.as_str()).map(String::from),
        lang: d.get("lang").and_then(|v| v.as_str()).map(String::from),
        has_image_uris: d.contains_key("image_uris"),
        image_border_crop: d
            .get("image_uris")
            .and_then(|u| u.get("border_crop"))
            .and_then(|v| v.as_str())
            .map(String::from),
        card_faces: d.get("card_faces").and_then(|v| v.as_array()).map(|arr| {
            arr.iter()
                .map(|f| RawFace {
                    border_crop: f
                        .get("image_uris")
                        .and_then(|u| u.get("border_crop"))
                        .and_then(|v| v.as_str())
                        .map(String::from),
                })
                .collect()
        }),
        layout: d.get("layout").and_then(|v| v.as_str()).map(String::from),
        all_parts: d.get("all_parts").and_then(|v| v.as_array()).map(|arr| {
            arr.iter()
                .map(|p| RawRelated {
                    component: p.get("component").and_then(|v| v.as_str()).map(String::from),
                    name: p.get("name").and_then(|v| v.as_str()).map(String::from),
                })
                .collect()
        }),
    }
}

#[test]
fn meld_result() {
    let urza_lord_protector = URZA;
    let v: serde_json::Map<String, serde_json::Value> =
        serde_json::from_str(urza_lord_protector).unwrap();
    let object = MinimalScryfallObject::from_dict(&raw_card_from_value(&v)).unwrap();
    assert_eq!(
        object.meld_result,
        Some("Urza, Planeswalker".to_string().to_lowercase())
    );
}

#[test]
fn from_dict_direct_image() {
    let raw = RawCard {
        name: Some("Spawn of Mayhem".to_string()),
        set: Some("RNA".to_string()),
        lang: Some("EN".to_string()),
        has_image_uris: true,
        image_border_crop: Some("https://img.example/spawn.jpg".to_string()),
        card_faces: None,
        layout: Some("normal".to_string()),
        all_parts: None,
    };
    let p = MinimalScryfallObject::from_dict(&raw).unwrap();
    assert_eq!(p.name, "spawn of mayhem");
    assert_eq!(p.set, "rna");
    assert_eq!(p.language, "en");
    assert_eq!(p.border_crop, "https://img.example/spawn.jpg");
    assert_eq!(p.border_crop_back, None);
    assert_eq!(p.meld_result, None);
}

#[test]
fn from_dict_two_faces() {
    let raw = RawCard {
        name: Some("Cut // Ribbons".to_string()),
        set: Some("akh".to_string()),
        lang: Some("en".to_string()),
        has_image_uris: false,
        image_border_crop: None,
        card_faces: Some(vec![
            RawFace {
                border_crop: Some("front.jpg".to_string()),
            },
            RawFace {
                border_crop: Some("back.jpg".to_string()),
            },
        ]),
        layout: Some("split".to_string()),
        all_parts: None,
    };
    let p = MinimalScryfallObject::from_dict(&raw).unwrap();
    assert_eq!(p.border_crop, "front.jpg");
    assert_eq!(p.border_crop_back, Some("back.jpg".to_string()));
}

#[test]
fn from_dict_rejects_missing_image_data() {
    let raw = RawCard {
        name: Some("Memory Lapse".to_string()),
        set: Some("sta".to_string()),
        lang: Some("ja".to_string()),
        has_image_uris: false,
        image_border_crop: None,
        card_faces: None,
        layout: Some("normal".to_string()),
        all_parts: None,
    };
    assert_eq!(MinimalScryfallObject::from_dict(&raw), None);
}

#[test]
fn from_dict_rejects_wrong_face_count() {
    let raw = RawCard {
        name: Some("Who // What // When // Where // Why".to_string()),
        set: Some("unh".to_string()),
        lang: Some("en".to_string()),
        has_image_uris: false,
        image_border_crop: None,
        card_faces: Some(vec![
            RawFace {
                border_crop: Some("a.jpg".to_string()),
            },
        ]),
        layout: Some("split".to_string()),
        all_parts: None,
    };
    assert_eq!(MinimalScryfallObject::from_dict(&raw), None);
}

#[test]
fn encode_card_name_examples() {
    assert_eq!(encode_card_name("Spawn of Mayhem"), "Spawn+of+Mayhem");
    assert_eq!(encode_card_name("Cut // Ribbons"), "Cut++Ribbons");
    assert_eq!(encode_card_name("plains"), "plains");
    assert_eq!(encode_card_name(""), "");
}

#[test]
fn languages_hold_documented_codes() {
    let langs = get_minimal_scryfall_languages();
    assert!(langs.contains("en"));
    assert!(langs.contains("ja"));
    assert!(langs.contains("zht"));
    assert!(!langs.contains("xx"));
}

#[test]
fn insert_checks_canonical_names() {
    let card_names = ScryfallCardNames {
        object: "catalog".to_string(),
        uri: String::new(),
        total_values: 1,
        date: None,
        names: vec!["spawn of mayhem".to_string()],
    };
    let mut printings = CardPrintings::new();
    let known = RawCard {
        name: Some("Spawn of Mayhem".to_string()),
        set: Some("rna".to_string()),
        lang: Some("pt".to_string()),
        has_image_uris: true,
        image_border_crop: Some("spawn.jpg".to_string()),
        card_faces: None,
        layout: Some("normal".to_string()),
        all_parts: None,
    };
    let unknown = RawCard {
        name: Some("Not A Card".to_string()),
        ..raw_clone(&known)
    };
    insert_scryfall_object(&mut printings, &card_names, &known);
    insert_scryfall_object(&mut printings, &card_names, &unknown);
    let ps = printings.printings.get("spawn of mayhem").unwrap();
    assert_eq!(ps.len(), 1);
    assert!(printings.printings.get("not a card").is_none());
    // The new printing's language was recorded.
    assert!(printings.languages.contains("pt"));
}

fn raw_clone(r: &RawCard) -> RawCard {
    RawCard {
        name: r.name.clone(),
        set: r.set.clone(),
        lang: r.lang.clone(),
        has_image_uris: r.has_image_uris,
        image_border_crop: r.image_border_crop.clone(),
        card_faces: None,
        layout: r.layout.clone(),
        all_parts: None,
    }
}

const URZA: &str = r#"{"object":"card","id":"8aefe8bd-216a-4ec1-9362-3f9dbf7fd083","oracle_id":"df2af646-3e5b-43a3-8f3e-50565889f456","multiverse_ids":[588288],"mtgo_id":105072,"arena_id":82710,"tcgplayer_id":448412,"cardmarket_id":678194,"name":"Urza, Lord Protector","lang":"en","released_at":"2022-11-18","uri":"https://api.scryfall.com/cards/8aefe8bd-216a-4ec1-9362-3f9dbf7fd083","scryfall_uri":"https://scryfall.com/card/bro/225/urza-lord-protector?utm_source=api","layout":"meld","highres_image":false,"image_status":"lowres","image_uris":{"small":"https://cards.scryfall.io/small/front/8/a/8aefe8bd-216a-4ec1-9362-3f9dbf7fd083.jpg?1670539417","normal":"https://cards.scryfall.io/normal/front/8/a/8aefe8bd-216a-4ec1-9362-3f9dbf7fd083.jpg?1670539417","large":"https://cards.scryfall.io/large/front/8/a/8aefe8bd-216a-4ec1-9362-3f9dbf7fd083.jpg?1670539417","png":"https://cards.scryfall.io/png/front/8/a/8aefe8bd-216a-4ec1-9362-3f9dbf7fd083.png?1670539417","art_crop":"https://cards.scryfall.io/art_crop/front/8/a/8aefe8bd-216a-4ec1-9362-3f9dbf7fd083.jpg?1670539417","border_crop":"https://cards.scryfall.io/border_crop/front/8/a/8aefe8bd-216a-4ec1-9362-3f9dbf7fd083.jpg?1670539417"},"mana_cost":"{1}{W}{U}","cmc":3.0,"type_line":"Legendary Creature — Human Artificer","oracle_text":"Artifact, instant, and sorcery spells you cast cost {1} less to cast.\n{7}: If you both own and control Urza, Lord Protector and an artifact named The Mightstone and Weakstone, exile them, then meld them into Urza, Planeswalker. Activate only as a sorcery.","power":"2","toughness":"4","colors":["U","W"],"color_identity":["U","W"],"keywords":["Meld"],"all_parts":[{"object":"related_card","id":"40a01679-3224-427e-bd1d-b797b0ab68b7","component":"meld_result","name":"Urza, Planeswalker","type_line":"Legendary Planeswalker — Urza","uri":"https://api.scryfall.com/cards/40a01679-3224-427e-bd1d-b797b0ab68b7"},{"object":"related_card","id":"02aea379-b444-46a3-82f4-3038f698d4f4","component":"meld_part","name":"The Mightstone and Weakstone","type_line":"Legendary Artifact — Powerstone","uri":"https://api.scryfall.com/cards/02aea379-b444-46a3-82f4-3038f698d4f4"},{"object":"related_card","id":"8aefe8bd-216a-4ec1-9362-3f9dbf7fd083","component":"meld_part","name":"Urza, Lord Protector","type_line":"Legendary Creature — Human Artificer","uri":"https://api.scryfall.com/cards/8aefe8bd-216a-4ec1-9362-3f9dbf7fd083"}],"legalities":{"standard":"legal","future":"legal","historic":"legal","gladiator":"legal","pioneer":"legal","explorer":"legal","modern":"legal","legacy":"legal","pauper":"not_legal","vintage":"legal","penny":"not_legal","commander":"legal","brawl":"legal","historicbrawl":"legal","alchemy":"legal","paupercommander":"not_legal","duel":"legal","oldschool":"not_legal","premodern":"not_legal"},"games":["paper","mtgo","arena"],"reserved":false,"foil":true,"nonfoil":true,"finishes":["nonfoil","foil"],"oversized":false,"promo":false,"reprint":false,"variation":false,"set_id":"4219a14e-6701-4ddd-a185-21dc054ab19b","set":"bro","set_name":"The Brothers' War","set_type":"expansion","set_uri":"https://api.scryfall.com/sets/4219a14e-6701-4ddd-a185-21dc054ab19b","set_search_uri":"https://api.scryfall.com/cards/search?order=set\u0026q=e%3Abro\u0026unique=prints","scryfall_set_uri":"https://scryfall.com/sets/bro?utm_source=api","rulings_uri":"https://api.scryfall.com/cards/8aefe8bd-216a-4ec1-9362-3f9dbf7fd083/rulings","prints_search_uri":"https://api.scryfall.com/cards/search?order=released\u0026q=oracleid%3Adf2af646-3e5b-43a3-8f3e-50565889f456\u0026unique=prints","collector_number":"225","digital":false,"rarity":"mythic","card_back_id":"58a4215b-9f3d-40d4-bc05-d8d3cc2354d9","artist":"Ryan Pancoast","artist_ids":["89cc9475-dda2-4d13-bf88-54b92867a25c"],"illustration_id":"c1abe983-d141-4884-9812-2593773f1a59","border_color":"black","frame":"2015","frame_effects":["legendary"],"security_stamp":"oval","full_art":false,"textless":false,"booster":true,"story_spotlight":false,"edhrec_rank":7316,"prices":{"usd":"26.65","usd_foil":"31.39","usd_etched":null,"eur":"19.24","eur_foil":"29.19","tix":"5.82"},"related_uris":{"gatherer":"https://gatherer.wizards.com/Pages/Card/Details.aspx?multiverseid=588288","tcgplayer_infinite_articles":"https://infinite.tcgplayer.com/search?contentMode=article\u0026game=magic\u0026partner=scryfall\u0026q=Urza%2C+Lord+Protector\u0026utm_campaign=affiliate\u0026utm_medium=api\u0026utm_source=scryfall","tcgplayer_infinite_decks":"https://infinite.tcgplayer.com/search?contentMode=deck\u0026game=magic\u0026partner=scryfall\u0026q=Urza%2C+Lord+Protector\u0026utm_campaign=affiliate\u0026utm_medium=api\u0026utm_source=scryfall","edhrec":"https://edhrec.com/route/?cc=Urza%2C+Lord+Protector"},"purchase_uris":{"tcgplayer":"https://www.tcgplayer.com/product/448412?page=1\u0026utm_campaign=affiliate\u0026utm_medium=api\u0026utm_source=scryfall","cardmarket":"https://www.cardmarket.com/en/Magic/Products/Search?referrer=scryfall\u0026searchString=Urza%2C+Lord+Protector\u0026utm_campaign=card_prices\u0026utm_medium=text\u0026utm_source=scryfall","cardhoarder":"https://www.cardhoarder.com/cards/105072?affiliate_id=scryfall\u0026ref=card-profile\u0026utm_campaign=affiliate\u0026utm_medium=card\u0026utm_source=scryfall"}}"#;
