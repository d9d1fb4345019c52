use magichawk::schema::{
    BorderColor, Color, Component, Finish, Format, FrameEffect, FrameLayout, FrameType, Game,
    ImageFormat, ImageStatus, Language, Legality, Object, ProducedMana, Rarity, SecurityStamp,
};
use magichawk::scryfall::get_minimal_scryfall_languages;

#[test]
fn wire_codes() {
    assert_eq!(Color::Blue.code(), "U");
    assert_eq!(ProducedMana::Colorless.code(), "C");
    assert_eq!(Language::Zht.code(), "zht");
    assert_eq!(FrameType::Year1997.code(), "1997");
    assert_eq!(FrameLayout::Meld.code(), "meld");
    assert_eq!(FrameLayout::ModalDfc.code(), "modal_dfc");
    assert_eq!(ImageStatus::HighresScan.code(), "highres_scan");
    assert_eq!(Object::RelatedCard.code(), "related_card");
    assert_eq!(Component::MeldResult.code(), "meld_result");
    assert_eq!(Rarity::Mythic.code(), "mythic");
    assert_eq!(ImageFormat::BorderCrop.code(), "border_crop");
    assert_eq!(Legality::NotLegal.code(), "not_legal");
    assert_eq!(Format::HistoricBrawl.code(), "historicbrawl");
    assert_eq!(SecurityStamp::Acorn.code(), "acorn");
    assert_eq!(Game::Mtgo.code(), "mtgo");
    assert_eq!(BorderColor::Borderless.code(), "borderless");
    assert_eq!(Finish::NonFoil.code(), "nonfoil");
    assert_eq!(FrameEffect::WaxingAndWaningMoonDfc.code(), "waxingandwaningmoondfc");
}

#[test]
fn every_language_code_is_recognized() {
    let langs = get_minimal_scryfall_languages();
    let all = [
        Language::En,
        Language::Es,
        Language::Fr,
        Language::De,
        Language::It,
        Language::Pt,
        Language::Ja,
        Language::Ko,
        Language::Ru,
        Language::Zhs,
        Language::Zht,
        Language::He,
        Language::La,
        Language::Grc,
        Language::Ar,
        Language::Sa,
        Language::Ph,
    ];
    for l in all {
        assert!(langs.contains(l.code()));
    }
}
