use magichawk::collections::StringSet;
use magichawk::decklist::{parse_decklist, parse_line, DecklistEntry, ParsedDecklistLine};
use magichawk::scryfall::get_minimal_scryfall_languages;

fn parse_line_default(s: &str) -> Option<DecklistEntry> {
    let minimal = get_minimal_scryfall_languages();
    parse_line(s, &minimal)
}

fn parse_decklist_default(s: &str) -> Vec<ParsedDecklistLine> {
    let minimal = get_minimal_scryfall_languages();
    parse_decklist(s, &minimal)
}

#[test]
fn decklist_name() {
    assert_eq!(
        parse_line_default("plains").unwrap(),
        DecklistEntry::from_name("plains")
    );
}

#[test]
fn decklist_number_name() {
    assert_eq!(
        parse_line_default("2\tplains").unwrap(),
        DecklistEntry::from_multiple_name(2, "plains")
    );
}

#[test]
fn decklist_shatter() {
    assert_eq!(
        parse_line_default("1 shatter [mrd]").unwrap(),
        DecklistEntry::new(1, "shatter", Some("mrd"), None)
    );
}

#[test]
fn decklist_number_name_set() {
    assert_eq!(
        parse_line_default("17 long card's name [IPA]").unwrap(),
        DecklistEntry::new(17, "long card's name", Some("ipa"), None)
    );
}

#[test]
fn decklist_name_set() {
    assert_eq!(
        parse_line_default("long card's name [ipa]").unwrap(),
        DecklistEntry::new(1, "long card's name", Some("ipa"), None)
    );
}

#[test]
fn decklist_name_with_tab() {
    assert_eq!(
        parse_line_default("Incubation/Incongruity   \t\t---").unwrap(),
        DecklistEntry::from_multiple_name(1, "Incubation/Incongruity")
    );
}

#[test]
fn japanese_printing() {
    assert_eq!(
        parse_line_default("memory lapse [ja]").unwrap(),
        DecklistEntry::new(1, "memory lapse", Some("ja"), Some("ja"))
    );
}

#[test]
fn decklist_mtgdecks() {
    let decklist = "4  Beanstalk Giant   		$0.25
        4  Lovestruck Beast   		$1.5
        Artifact [5]
        1  The Great Henge   		$25
        Instant [1]
        1  Incubation/Incongruity   		--- ";
    let parsed = parse_decklist_default(decklist);
    let expected = vec![
        ParsedDecklistLine {
            line: "4  Beanstalk Giant   		$0.25".to_string(),
            entry: Some(DecklistEntry::from_multiple_name(4, "Beanstalk Giant")),
        },
        ParsedDecklistLine {
            line: "4  Lovestruck Beast   		$1.5".to_string(),
            entry: Some(DecklistEntry::from_multiple_name(4, "Lovestruck Beast")),
        },
        ParsedDecklistLine {
            line: "Artifact [5]".to_string(),
            entry: Some(DecklistEntry::from_multiple_name(1, "Artifact")),
        },
        ParsedDecklistLine {
            line: "1  The Great Henge   		$25".to_string(),
            entry: Some(DecklistEntry::from_multiple_name(1, "The Great Henge")),
        },
        ParsedDecklistLine {
            line: "Instant [1]".to_string(),
            entry: Some(DecklistEntry::from_multiple_name(1, "Instant")),
        },
        ParsedDecklistLine {
            line: "1  Incubation/Incongruity   		---".to_string(),
            entry: Some(DecklistEntry::from_multiple_name(1, "Incubation/Incongruity")),
        },
    ];
    assert_eq!(parsed.len(), expected.len());
    for (left, right) in parsed.iter().zip(expected.iter()) {
        assert_eq!(left, right);
    }
}

#[test]
fn decklist_arenaexport() {
    let decklist = "Deck
        1 Bedeck // Bedazzle (RNA) 221
        1 Spawn of Mayhem (RNA) 85
        ";
    let expected = vec![
        ParsedDecklistLine {
            line: "Deck".to_string(),
            entry: None,
        },
        ParsedDecklistLine {
            line: "1 Bedeck // Bedazzle (RNA) 221".to_string(),
            entry: Some(DecklistEntry::new(1, "Bedeck // Bedazzle", Some("rna"), None)),
        },
        ParsedDecklistLine {
            line: "1 Spawn of Mayhem (RNA) 85".to_string(),
            entry: Some(DecklistEntry::new(1, "Spawn of Mayhem", Some("rna"), None)),
        },
    ];
    let parsed = parse_decklist_default(decklist);
    assert_eq!(parsed.len(), expected.len());
    for (left, right) in parsed.iter().zip(expected.iter()) {
        assert_eq!(left, right);
    }
}

#[test]
fn decklist_arenaexport2() {
    let decklist =
        "Deck\n1 Defiant Strike (M21) 15\n24 Plains (ANB) 115\n\nSideboard\n2 Faerie Guidemother (ELD) 11";
    let expected = vec![
        ParsedDecklistLine {
            line: "Deck".to_string(),
            entry: None,
        },
        ParsedDecklistLine {
            line: "1 Defiant Strike (M21) 15".to_string(),
            entry: Some(DecklistEntry::new(1, "Defiant Strike", Some("m21"), None)),
        },
        ParsedDecklistLine {
            line: "24 Plains (ANB) 115".to_string(),
            entry: Some(DecklistEntry::new(24, "Plains", Some("anb"), None)),
        },
        ParsedDecklistLine {
            line: "Sideboard".to_string(),
            entry: None,
        },
        ParsedDecklistLine {
            line: "2 Faerie Guidemother (ELD) 11".to_string(),
            entry: Some(DecklistEntry::new(2, "Faerie Guidemother", Some("eld"), None)),
        },
    ];
    let parsed = parse_decklist_default(decklist);
    assert_eq!(parsed.len(), expected.len());
    for (left, right) in parsed.iter().zip(expected.iter()) {
        assert_eq!(left, right);
    }
}

#[test]
fn reserved_header_words() {
    let empty = StringSet::new();
    assert_eq!(parse_line("Deck", &empty), None);
    assert_eq!(parse_line("Sideboard", &empty), None);
    assert_eq!(parse_line("decklist", &empty), None);
}

#[test]
fn multiplier_edge_cases() {
    let empty = StringSet::new();
    // A malformed (overflowing) multiplier falls back to one copy.
    let e = parse_line("99999999999999999999 plains", &empty).unwrap();
    assert_eq!(e.multiple, 1);
    assert_eq!(e.name, "plains");
    // Zero copies parse as zero.
    let z = parse_line("0 plains", &empty).unwrap();
    assert_eq!(z.multiple, 0);
    // Leading zeroes are fine.
    let l = parse_line("0002 plains", &empty).unwrap();
    assert_eq!(l.multiple, 2);
}

#[test]
fn blank_lines_dropped_order_kept() {
    let empty = StringSet::new();
    let parsed = parse_decklist("\n  \n1 a\n\n2 b\n   \n", &empty);
    assert_eq!(parsed.len(), 2);
    assert_eq!(parsed[0].line, "1 a");
    assert_eq!(parsed[1].line, "2 b");
    assert_eq!(parsed[0].as_entry().unwrap().name, "a");
    assert_eq!(parsed[1].as_entry().unwrap().multiple, 2);
}
