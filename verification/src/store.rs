//! The card-data store and the resolution of one decklist entry into image
//! URIs. A store holds the canonical name list, the fuzzy lookup built from
//! it, and the printings fetched so far. Resolving an entry finds the
//! canonical name, picks one printing by a strict priority chain — matching
//! set first, then matching language, then English, then the first recorded
//! printing — follows a meld reference for the back image, and computes how
//! many front and back copies to emit.
//!
//! Fetching itself is the caller's business: the store says which name still
//! needs a fetch ([`CardData::needs_fetch`]) and records whatever a fetch
//! returned ([`CardData::record_fetch`]); a name once recorded never leaves,
//! so a caller that consults `needs_fetch` issues at most one upstream call
//! per canonical name for the store's lifetime.

use vstd::prelude::*;

use crate::collections::strings_as_set;
use crate::decklist::{DecklistEntry, EntryV};
use crate::lookup::{
    build_lookup_to, chosen_at, lookup_wf, no_match, CardNameLookup, LookupV, NameLookupResult,
    NameLookupResultV, NameMatchMode,
};
use crate::scryfall::{
    clone_printing, from_dict_spec, insert_scryfall_object, opt_str_view, printings_view,
    CardPrintings, MinimalScryfallObject, PrintingV, RawCard, RawCardV, ScryfallCardNames,
};
use crate::text::{lower_of, lowercase, str_eq};

verus! {

/// How many copies of a card's back face to emit: none, one, as many as the
/// front, or only backs (no fronts at all).
#[derive(Debug, PartialEq, Eq, Copy, Clone, Structural)]
pub enum BacksideMode {
    Zero,
    One,
    Matching,
    BackOnly,
}

/// Mathematical content of an [`ImageLine`].
pub ghost struct ImageLineV {
    pub name: Seq<char>,
    pub images: Seq<(Seq<char>, int)>,
}

/// One resolved decklist line: the canonical name it resolved to and the
/// (image URI, count) pairs to emit for it, front first.
#[derive(Debug, PartialEq, Eq)]
pub struct ImageLine {
    pub name: String,
    pub images: Vec<(String, i32)>,
}

impl View for ImageLine {
    type V = ImageLineV;

    open spec fn view(&self) -> ImageLineV {
        ImageLineV {
            name: self.name@,
            images: self.images@.map_values(|p: (String, i32)| (p.0@, p.1 as int)),
        }
    }
}

/// The view of an optional image line.
pub open spec fn opt_line_view(r: Option<ImageLine>) -> Option<ImageLineV> {
    match r {
        Some(l) => Some(l@),
        None => None,
    }
}

/// The view of an optional lookup result.
pub open spec fn opt_nl_view(r: Option<NameLookupResult>) -> Option<NameLookupResultV> {
    match r {
        Some(nl) => Some(nl@),
        None => None,
    }
}

/// Index of the first printing with this set code, from `i` on.
pub open spec fn first_idx_set(ps: Seq<PrintingV>, set: Seq<char>, i: int) -> Option<int>
    decreases ps.len() - i when 0 <= i
{
    if i >= ps.len() {
        None
    } else if ps[i].set == set {
        Some(i)
    } else {
        first_idx_set(ps, set, i + 1)
    }
}

/// Index of the first printing with this language, from `i` on.
pub open spec fn first_idx_lang(ps: Seq<PrintingV>, lang: Seq<char>, i: int) -> Option<int>
    decreases ps.len() - i when 0 <= i
{
    if i >= ps.len() {
        None
    } else if ps[i].language == lang {
        Some(i)
    } else {
        first_idx_lang(ps, lang, i + 1)
    }
}

/// Index of the first printing whose lower-cased language is English, from
/// `i` on.
pub open spec fn first_idx_en(ps: Seq<PrintingV>, i: int) -> Option<int>
    decreases ps.len() - i when 0 <= i
{
    if i >= ps.len() {
        None
    } else if lower_of(ps[i].language) == "en"@ {
        Some(i)
    } else {
        first_idx_en(ps, i + 1)
    }
}

/// The printing picked for an entry: the first with the entry's set code,
/// else the first with the entry's language, else the first English one,
/// else the first recorded.
pub open spec fn select_idx(ps: Seq<PrintingV>, entry: EntryV) -> int {
    let si = match entry.set {
        Some(s) => first_idx_set(ps, lower_of(s), 0),
        None => None,
    };
    let li = match entry.lang {
        Some(l) => first_idx_lang(ps, lower_of(l), 0),
        None => None,
    };
    match si {
        Some(i) => i,
        None => match li {
            Some(i) => i,
            None => match first_idx_en(ps, 0) {
                Some(i) => i,
                None => 0,
            },
        },
    }
}

/// The printing picked for a meld result: the first with the entry's set
/// code, else the first recorded — no language preference.
pub open spec fn select_meld_idx(ps: Seq<PrintingV>, set: Option<Seq<char>>) -> int {
    match set {
        Some(s) => match first_idx_set(ps, lower_of(s), 0) {
            Some(i) => i,
            None => 0,
        },
        None => 0,
    }
}

/// The backside mode a resolution runs under: a query that matched the
/// second part of a two-part name forces [`BacksideMode::BackOnly`],
/// whatever default was requested.
pub open spec fn effective_mode(hit: NameMatchMode, default: BacksideMode) -> BacksideMode {
    if hit == NameMatchMode::Part(1usize) {
        BacksideMode::BackOnly
    } else {
        default
    }
}

/// The (URI, count) pairs a resolved line emits, front first: the front
/// count is the entry's multiple, except that back-only mode with a back
/// image present emits no fronts; the back count is zero, one, or the
/// multiple, by mode, and zero without a back image.
pub open spec fn line_images(
    front: Seq<char>,
    back: Option<Seq<char>>,
    eff: BacksideMode,
    multiple: int,
) -> Seq<(Seq<char>, int)> {
    let fm: int = if eff == BacksideMode::BackOnly && back is Some {
        0
    } else {
        multiple
    };
    let bm: int = match back {
        None => 0,
        Some(_) => match eff {
            BacksideMode::Zero => 0,
            BacksideMode::One => 1,
            BacksideMode::Matching => multiple,
            BacksideMode::BackOnly => multiple,
        },
    };
    (if fm > 0 {
        seq![(front, fm)]
    } else {
        Seq::empty()
    }) + (match back {
        Some(b) => if bm > 0 {
            seq![(b, bm)]
        } else {
            Seq::empty()
        },
        None => Seq::empty(),
    })
}

/// Law: a back-only resolution with a back image present emits no front pair
/// at all — only the back, as many times as the entry asks.
pub proof fn lemma_back_only_emits_no_front(front: Seq<char>, b: Seq<char>, multiple: int)
    ensures
        multiple > 0 ==> line_images(front, Some(b), BacksideMode::BackOnly, multiple) == seq![
            (b, multiple),
        ],
        multiple <= 0 ==> line_images(front, Some(b), BacksideMode::BackOnly, multiple) == Seq::<
            (Seq<char>, int),
        >::empty(),
{
    if multiple > 0 {
        assert(line_images(front, Some(b), BacksideMode::BackOnly, multiple) =~= seq![
            (b, multiple),
        ]);
    } else {
        assert(line_images(front, Some(b), BacksideMode::BackOnly, multiple) =~= Seq::<
            (Seq<char>, int),
        >::empty());
    }
}

/// What resolving an entry against a store yields, given the lookup outcome
/// `nl` for the entry's name and — when the picked printing names a meld
/// result — the lookup outcome `mnl` for that name. The emitted line carries
/// the canonical name the lookup resolved to.
pub open spec fn get_card_with_spec(
    pmap: Map<Seq<char>, Seq<PrintingV>>,
    entry: EntryV,
    nl: NameLookupResultV,
    mnl: Option<NameLookupResultV>,
    default_mode: BacksideMode,
) -> Option<ImageLineV> {
    if !pmap.contains_key(nl.name) {
        None
    } else {
        let ps = pmap[nl.name];
        if ps.len() == 0 {
            None
        } else {
            let eff = effective_mode(nl.hit, default_mode);
            let sel = ps[select_idx(ps, entry)];
            match sel.meld_result {
                None => Some(
                    ImageLineV {
                        name: nl.name,
                        images: line_images(
                            sel.border_crop,
                            sel.border_crop_back,
                            eff,
                            entry.multiple,
                        ),
                    },
                ),
                Some(m) => match mnl {
                    None => Some(
                        ImageLineV {
                            name: nl.name,
                            images: line_images(
                                sel.border_crop,
                                sel.border_crop_back,
                                eff,
                                entry.multiple,
                            ),
                        },
                    ),
                    Some(nl2) => if !pmap.contains_key(nl2.name) {
                        None
                    } else {
                        let ps2 = pmap[nl2.name];
                        if ps2.len() == 0 {
                            None
                        } else {
                            let sel2 = ps2[select_meld_idx(ps2, entry.set)];
                            Some(
                                ImageLineV {
                                    name: nl.name,
                                    images: line_images(
                                        sel.border_crop,
                                        Some(sel2.border_crop),
                                        eff,
                                        entry.multiple,
                                    ),
                                },
                            )
                        }
                    },
                },
            }
        }
    }
}

/// Law: the default backside mode never matters for a query that matched the
/// second part of a two-part name — the resolution is the same as if
/// back-only had been requested.
pub proof fn lemma_part_one_forces_back_only(
    pmap: Map<Seq<char>, Seq<PrintingV>>,
    entry: EntryV,
    nl: NameLookupResultV,
    mnl: Option<NameLookupResultV>,
    default_mode: BacksideMode,
)
    requires
        nl.hit == NameMatchMode::Part(1usize),
    ensures
        get_card_with_spec(pmap, entry, nl, mnl, default_mode) == get_card_with_spec(
            pmap,
            entry,
            nl,
            mnl,
            BacksideMode::BackOnly,
        ),
{
}

/// What recording one raw record does to the printings map.
pub open spec fn insert_object_p(
    p: Map<Seq<char>, Seq<PrintingV>>,
    names: Set<Seq<char>>,
    d: RawCardV,
) -> Map<Seq<char>, Seq<PrintingV>> {
    match from_dict_spec(d) {
        None => p,
        Some(pr) => if !names.contains(pr.name) {
            p
        } else {
            p.insert(
                pr.name,
                (if p.contains_key(pr.name) {
                    p[pr.name]
                } else {
                    Seq::empty()
                }).push(pr),
            )
        },
    }
}

/// What recording one raw record does to the language set.
pub open spec fn insert_object_l(
    l: Set<Seq<char>>,
    names: Set<Seq<char>>,
    d: RawCardV,
) -> Set<Seq<char>> {
    match from_dict_spec(d) {
        None => l,
        Some(pr) => if !names.contains(pr.name) {
            l
        } else {
            l.insert(pr.language)
        },
    }
}

/// The printings map after recording the records from `i` on, in order.
pub open spec fn record_all_p(
    p: Map<Seq<char>, Seq<PrintingV>>,
    names: Set<Seq<char>>,
    ds: Seq<RawCardV>,
    i: int,
) -> Map<Seq<char>, Seq<PrintingV>>
    decreases ds.len() - i when 0 <= i
{
    if i >= ds.len() {
        p
    } else {
        record_all_p(insert_object_p(p, names, ds[i]), names, ds, i + 1)
    }
}

/// The language set after recording the records from `i` on, in order.
pub open spec fn record_all_l(
    l: Set<Seq<char>>,
    names: Set<Seq<char>>,
    ds: Seq<RawCardV>,
    i: int,
) -> Set<Seq<char>>
    decreases ds.len() - i when 0 <= i
{
    if i >= ds.len() {
        l
    } else {
        record_all_l(insert_object_l(l, names, ds[i]), names, ds, i + 1)
    }
}

/// Law: recording fetch results never removes a name, and a name's already
/// recorded printings stay, in order, as a prefix — the store only grows, so
/// a resolved name is never fetched again.
pub proof fn lemma_record_keeps_resolved(
    p: Map<Seq<char>, Seq<PrintingV>>,
    names: Set<Seq<char>>,
    ds: Seq<RawCardV>,
    i: int,
    k: Seq<char>,
)
    requires
        0 <= i,
        p.contains_key(k),
    ensures
        record_all_p(p, names, ds, i).contains_key(k),
        p[k].is_prefix_of(record_all_p(p, names, ds, i)[k]),
    decreases ds.len() - i,
{
    assert(p[k].is_prefix_of(p[k]));
    if i < ds.len() {
        let p1 = insert_object_p(p, names, ds[i]);
        assert(p1.contains_key(k) && p[k].is_prefix_of(p1[k])) by {
            match from_dict_spec(ds[i]) {
                None => {},
                Some(pr) => {
                    if names.contains(pr.name) && pr.name == k {
                        assert(p1[k] == p[k].push(pr));
                        assert(p[k].is_prefix_of(p[k].push(pr)));
                    }
                },
            }
        }
        lemma_record_keeps_resolved(p1, names, ds, i + 1, k);
        let a = p[k];
        let b = p1[k];
        let c = record_all_p(p, names, ds, i)[k];
        assert(b.is_prefix_of(c));
        assert(a =~= c.subrange(0, a.len() as int)) by {
            assert(a =~= b.subrange(0, a.len() as int));
            assert(b =~= c.subrange(0, b.len() as int));
        }
    }
}

/// The store: the canonical name list, the fuzzy lookup built from it, and
/// the printings fetched so far.
pub struct CardData {
    pub card_names: ScryfallCardNames,
    pub lookup: CardNameLookup,
    pub printings: CardPrintings,
}

impl CardData {
    /// Assembles a store from a name list and existing printings, building
    /// the fuzzy lookup from the names.
    pub fn from_parts(card_names: ScryfallCardNames, printings: CardPrintings) -> (r: CardData)
        ensures
            r.card_names == card_names,
            r.printings == printings,
            r.lookup@ == build_lookup_to(card_names.names@, card_names.names@.len() as int),
            lookup_wf(r.lookup@),
            r.lookup@.full.texts == Set::new(
                |t: Seq<char>|
                    exists|i: int| 0 <= i < card_names.names@.len() && t == lower_of(
                        card_names.names@[i]@,
                    ),
            ),
    {
        let lookup = CardNameLookup::from_card_names(&card_names.names);
        CardData { card_names, lookup, printings }
    }

    /// Replaces the canonical name list and rebuilds the fuzzy lookup from
    /// it; the recorded printings stay.
    pub fn update_names(&mut self, card_names: ScryfallCardNames)
        ensures
            final(self).card_names == card_names,
            final(self).printings == old(self).printings,
            final(self).lookup@ == build_lookup_to(card_names.names@, card_names.names@.len() as int),
            lookup_wf(final(self).lookup@),
            final(self).lookup@.full.texts == Set::new(
                |t: Seq<char>|
                    exists|i: int| 0 <= i < card_names.names@.len() && t == lower_of(
                        card_names.names@[i]@,
                    ),
            ),
    {
        self.lookup = CardNameLookup::from_card_names(&card_names.names);
        self.card_names = card_names;
    }

    /// Whether resolving this canonical name still needs an upstream fetch:
    /// exactly when the store has no printings recorded for it.
    pub fn needs_fetch(&self, name: &str) -> (r: bool)
        ensures
            r == !self.printings.printings@.contains_key(name@),
    {
        !self.printings.printings.contains_key(name)
    }

    /// Records the raw records one upstream search returned, in order: each
    /// is normalized, checked against the canonical names, appended to its
    /// name's printings, and its language noted. Nothing else changes, and
    /// already recorded printings stay (see [`lemma_record_keeps_resolved`]).
    pub fn record_fetch(&mut self, objects: &Vec<RawCard>)
        ensures
            final(self).printings.printings@ == record_all_p(
                old(self).printings.printings@,
                strings_as_set(old(self).card_names.names@),
                objects@.map_values(|o: RawCard| o@),
                0,
            ),
            final(self).printings.languages@ == record_all_l(
                old(self).printings.languages@,
                strings_as_set(old(self).card_names.names@),
                objects@.map_values(|o: RawCard| o@),
                0,
            ),
            final(self).card_names == old(self).card_names,
            final(self).lookup == old(self).lookup,
    {
        let ghost names = strings_as_set(self.card_names.names@);
        let ghost dvs = objects@.map_values(|o: RawCard| o@);
        let ghost p0 = self.printings.printings@;
        let ghost l0 = self.printings.languages@;
        let n = objects.len();
        let mut i: usize = 0;
        while i < n
            invariant
                i <= n == objects@.len(),
                dvs == objects@.map_values(|o: RawCard| o@),
                names == strings_as_set(self.card_names.names@),
                self.card_names == old(self).card_names,
                self.lookup == old(self).lookup,
                p0 == old(self).printings.printings@,
                l0 == old(self).printings.languages@,
                record_all_p(self.printings.printings@, names, dvs, i as int) == record_all_p(
                    p0,
                    names,
                    dvs,
                    0,
                ),
                record_all_l(self.printings.languages@, names, dvs, i as int) == record_all_l(
                    l0,
                    names,
                    dvs,
                    0,
                ),
            decreases n - i,
        {
            insert_scryfall_object(&mut self.printings, &self.card_names, &objects[i]);
            proof {
                assert(dvs[i as int] == objects@[i as int]@);
            }
            i = i + 1;
        }
    }

    /// The canonical name the picked printing points at as its meld result,
    /// given the lookup outcome for the entry's name — the name whose
    /// printings the back image will come from.
    pub fn meld_target(&self, entry: &DecklistEntry, nl: &NameLookupResult) -> (r: Option<String>)
        ensures
            (match r {
                Some(m) => meld_target_of(self.printings.printings@, entry@, nl@) == Some(m@),
                None => meld_target_of(self.printings.printings@, entry@, nl@) is None,
            }),
    {
        let ps = match self.printings.printings.get(nl.name.as_str()) {
            Some(ps) => ps,
            None => {
                return None;
            },
        };
        if ps.len() == 0 {
            return None;
        }
        let idx = choose_printing(ps, entry);
        match &ps[idx].meld_result {
            Some(m) => Some(m.clone()),
            None => None,
        }
    }

    /// Resolves one entry, given the lookup outcome `nl` for its name and
    /// the lookup outcome `mnl` for the picked printing's meld target (none
    /// when there is no meld target or its lookup missed): exactly
    /// [`get_card_with_spec`].
    pub fn get_card_with(
        &self,
        entry: &DecklistEntry,
        nl: &NameLookupResult,
        mnl: &Option<NameLookupResult>,
        default_mode: BacksideMode,
    ) -> (r: Option<ImageLine>)
        ensures
            opt_line_view(r) == get_card_with_spec(
                self.printings.printings@,
                entry@,
                nl@,
                opt_nl_view(*mnl),
                default_mode,
            ),
    {
        let ghost pmap = self.printings.printings@;
        let ps = match self.printings.printings.get(nl.name.as_str()) {
            Some(ps) => ps,
            None => {
                return None;
            },
        };
        if ps.len() == 0 {
            return None;
        }
        let eff = if matches!(nl.hit, NameMatchMode::Part(1usize)) {
            BacksideMode::BackOnly
        } else {
            default_mode
        };
        proof {
            assert(eff == effective_mode(nl@.hit, default_mode));
        }
        let idx = choose_printing(ps, entry);
        let sel = clone_printing(&ps[idx]);
        let (front, back): (String, Option<String>) = match &sel.meld_result {
            None => (sel.border_crop, sel.border_crop_back),
            Some(_) => {
                match mnl {
                    None => (sel.border_crop, sel.border_crop_back),
                    Some(nl2) => {
                        let ps2 = match self.printings.printings.get(nl2.name.as_str()) {
                            Some(ps2) => ps2,
                            None => {
                                return None;
                            },
                        };
                        if ps2.len() == 0 {
                            return None;
                        }
                        let idx2 = choose_meld_printing(ps2, &entry.set);
                        (sel.border_crop, Some(ps2[idx2].border_crop.clone()))
                    },
                }
            },
        };
        let images = build_images(front, back, eff, entry.multiple);
        Some(ImageLine { name: nl.name.clone(), images })
    }

    /// Resolves one entry against the store: finds the canonical name, picks
    /// a printing, follows a meld reference if one applies, and computes the
    /// emitted (URI, count) pairs. Each returned line conforms to
    /// [`get_card_with_spec`] for lookup outcomes that the fuzzy index
    /// justifies (see [`crate::lookup::chosen_at`]); and nothing comes back
    /// only when the index must miss the name, or some justified outcome
    /// chain continues to nothing ([`no_card`]).
    pub fn get_card(&self, entry: &DecklistEntry, default_mode: BacksideMode) -> (r: Option<
        ImageLine,
    >)
        ensures
            (match r {
                Some(line) => got_card(
                    self.lookup@,
                    self.printings.printings@,
                    entry@,
                    default_mode,
                    line@,
                ),
                None => no_card(self.lookup@, self.printings.printings@, entry@, default_mode),
            }),
    {
        let ghost lkv = self.lookup@;
        let ghost pmap = self.printings.printings@;
        let nl = match self.lookup.find(entry.name.as_str()) {
            Some(nl) => nl,
            None => {
                proof {
                    assert(no_match(lkv, lower_of(entry@.name)));
                }
                return None;
            },
        };
        proof {
            let (k0, t) = choose|k0: int, t: Seq<char>|
                #[trigger] chosen_at(lkv, lower_of(entry.name@), nl@, k0, t);
            assert(chosen_at(lkv, lower_of(entry@.name), nl@, k0, t));
        }
        let target = self.meld_target(entry, &nl);
        let mnl: Option<NameLookupResult>;
        match target {
            Some(m) => {
                mnl = self.lookup.find(m.as_str());
                proof {
                    let mt = meld_target_of(pmap, entry@, nl@);
                    assert(mt == Some(m@));
                    match mt {
                        Some(ms) => {
                            assert(ms == m@);
                            match &mnl {
                                Some(nl2) => {
                                    let (k0, t) = choose|k0: int, t: Seq<char>|
                                        #[trigger] chosen_at(lkv, lower_of(m@), nl2@, k0, t);
                                    assert(chosen_at(lkv, lower_of(ms), nl2@, k0, t));
                                },
                                None => {
                                    assert(no_match(lkv, lower_of(m@)));
                                    assert forall|k: int, u: Seq<char>|
                                        0 <= k < crate::lookup::slot_count(lkv) && (
                                        #[trigger] crate::lookup::slot_view(
                                            lkv,
                                            k,
                                        ).texts.contains(u)) implies crate::lookup::ngram_score(
                                        lower_of(ms),
                                        u,
                                    ) < crate::lookup::SIMILARITY_THRESHOLD_BITS by {
                                        assert(crate::lookup::ngram_score(lower_of(m@), u)
                                            < crate::lookup::SIMILARITY_THRESHOLD_BITS);
                                    }
                                    assert(no_match(lkv, lower_of(ms)));
                                },
                            }
                        },
                        None => {},
                    }
                    assert(meld_consistent(lkv, pmap, entry@, nl@, opt_nl_view(mnl)));
                }
            },
            None => {
                mnl = None;
                proof {
                    assert(meld_consistent(lkv, pmap, entry@, nl@, opt_nl_view(mnl)));
                }
            },
        }
        let r = self.get_card_with(entry, &nl, &mnl, default_mode);
        proof {
            match &r {
                Some(line) => {
                    assert(get_card_with_spec(pmap, entry@, nl@, opt_nl_view(mnl), default_mode)
                        == Some(line@));
                    assert(got_card(lkv, pmap, entry@, default_mode, line@));
                },
                None => {
                    assert(get_card_with_spec(pmap, entry@, nl@, opt_nl_view(mnl), default_mode)
                        is None);
                    assert(no_card(lkv, pmap, entry@, default_mode));
                },
            }
        }
        r
    }
}

/// The meld target a resolution consults under lookup outcome `nl`: the
/// name the picked printing points at as its meld result, when the store
/// holds a nonempty printing list for the resolved name.
pub open spec fn meld_target_of(
    pmap: Map<Seq<char>, Seq<PrintingV>>,
    entry: EntryV,
    nl: NameLookupResultV,
) -> Option<Seq<char>> {
    if pmap.contains_key(nl.name) && pmap[nl.name].len() > 0 {
        pmap[nl.name][select_idx(pmap[nl.name], entry)].meld_result
    } else {
        None
    }
}

/// `mnl` is a faithful outcome of looking the meld target up: none when
/// there is no target; for a target, either a justified hit, or a miss that
/// the index forces.
pub open spec fn meld_consistent(
    lkv: LookupV,
    pmap: Map<Seq<char>, Seq<PrintingV>>,
    entry: EntryV,
    nl: NameLookupResultV,
    mnl: Option<NameLookupResultV>,
) -> bool {
    match meld_target_of(pmap, entry, nl) {
        None => mnl is None,
        Some(m) => match mnl {
            None => no_match(lkv, lower_of(m)),
            Some(nl2) => exists|k0: int, t: Seq<char>|
                #[trigger] chosen_at(lkv, lower_of(m), nl2, k0, t),
        },
    }
}

/// A resolved line's justification: some fuzzy-lookup outcome for the
/// entry's name that the index justifies, and a faithful outcome for the
/// meld target, under which the line is exactly what
/// [`get_card_with_spec`] yields.
pub open spec fn got_card(
    lkv: LookupV,
    pmap: Map<Seq<char>, Seq<PrintingV>>,
    entry: EntryV,
    default_mode: BacksideMode,
    line: ImageLineV,
) -> bool {
    exists|nlv: NameLookupResultV, mnlv: Option<NameLookupResultV>|
        {
            &&& exists|k0: int, t: Seq<char>|
                #[trigger] chosen_at(lkv, lower_of(entry.name), nlv, k0, t)
            &&& meld_consistent(lkv, pmap, entry, nlv, mnlv)
            &&& #[trigger] get_card_with_spec(pmap, entry, nlv, mnlv, default_mode) == Some(line)
        }
}

/// A failed resolution's justification: either the fuzzy lookup must miss
/// the entry's name, or some justified lookup outcome — with a faithful
/// meld-target outcome — continues to nothing under
/// [`get_card_with_spec`]. A resolution may come back empty only for one of
/// these reasons.
pub open spec fn no_card(
    lkv: LookupV,
    pmap: Map<Seq<char>, Seq<PrintingV>>,
    entry: EntryV,
    default_mode: BacksideMode,
) -> bool {
    ||| no_match(lkv, lower_of(entry.name))
    ||| exists|nlv: NameLookupResultV, mnlv: Option<NameLookupResultV>|
        {
            &&& exists|k0: int, t: Seq<char>|
                #[trigger] chosen_at(lkv, lower_of(entry.name), nlv, k0, t)
            &&& meld_consistent(lkv, pmap, entry, nlv, mnlv)
            &&& #[trigger] get_card_with_spec(pmap, entry, nlv, mnlv, default_mode) is None
        }
}

/// Picks the printing for an entry: the first with the entry's set, else
/// the first with the entry's language, else the first English one, else
/// the first.
fn choose_printing(ps: &Vec<MinimalScryfallObject>, entry: &DecklistEntry) -> (r: usize)
    requires
        ps@.len() > 0,
    ensures
        r as int == select_idx(printings_view(ps@), entry@),
        r < ps@.len(),
{
    let si: Option<usize> = match &entry.set {
        Some(s) => {
            let lc = lowercase(s.as_str());
            find_first_set(ps, lc.as_str())
        },
        None => None,
    };
    if let Some(i) = si {
        return i;
    }
    let li: Option<usize> = match &entry.lang {
        Some(l) => {
            let lc = lowercase(l.as_str());
            find_first_lang(ps, lc.as_str())
        },
        None => None,
    };
    if let Some(i) = li {
        return i;
    }
    match find_first_en(ps) {
        Some(i) => i,
        None => 0,
    }
}

/// Picks the printing for a meld result: the first with the entry's set,
/// else the first.
fn choose_meld_printing(ps: &Vec<MinimalScryfallObject>, set: &Option<String>) -> (r: usize)
    requires
        ps@.len() > 0,
    ensures
        r as int == select_meld_idx(printings_view(ps@), opt_str_view(*set)),
        r < ps@.len(),
{
    match set {
        Some(s) => {
            let lc = lowercase(s.as_str());
            match find_first_set(ps, lc.as_str()) {
                Some(i) => i,
                None => 0,
            }
        },
        None => 0,
    }
}

/// Finds the first printing with this (already lower-cased) set code.
fn find_first_set(ps: &Vec<MinimalScryfallObject>, set_lc: &str) -> (r: Option<usize>)
    ensures
        (match r {
            Some(i) => i < ps@.len() && first_idx_set(printings_view(ps@), set_lc@, 0) == Some(
                i as int,
            ),
            None => first_idx_set(printings_view(ps@), set_lc@, 0) is None,
        }),
{
    let n = ps.len();
    let ghost pv = printings_view(ps@);
    let mut i: usize = 0;
    while i < n
        invariant
            i <= n == ps@.len(),
            pv == printings_view(ps@),
            first_idx_set(pv, set_lc@, 0) == first_idx_set(pv, set_lc@, i as int),
        decreases n - i,
    {
        proof {
            assert(pv[i as int] == ps@[i as int]@);
        }
        if str_eq(ps[i].set.as_str(), set_lc) {
            return Some(i);
        }
        i = i + 1;
    }
    None
}

/// Finds the first printing with this (already lower-cased) language code.
fn find_first_lang(ps: &Vec<MinimalScryfallObject>, lang_lc: &str) -> (r: Option<usize>)
    ensures
        (match r {
            Some(i) => i < ps@.len() && first_idx_lang(printings_view(ps@), lang_lc@, 0) == Some(
                i as int,
            ),
            None => first_idx_lang(printings_view(ps@), lang_lc@, 0) is None,
        }),
{
    let n = ps.len();
    let ghost pv = printings_view(ps@);
    let mut i: usize = 0;
    while i < n
        invariant
            i <= n == ps@.len(),
            pv == printings_view(ps@),
            first_idx_lang(pv, lang_lc@, 0) == first_idx_lang(pv, lang_lc@, i as int),
        decreases n - i,
    {
        proof {
            assert(pv[i as int] == ps@[i as int]@);
        }
        if str_eq(ps[i].language.as_str(), lang_lc) {
            return Some(i);
        }
        i = i + 1;
    }
    None
}

/// Finds the first printing whose lower-cased language is English.
fn find_first_en(ps: &Vec<MinimalScryfallObject>) -> (r: Option<usize>)
    ensures
        (match r {
            Some(i) => i < ps@.len() && first_idx_en(printings_view(ps@), 0) == Some(i as int),
            None => first_idx_en(printings_view(ps@), 0) is None,
        }),
{
    let n = ps.len();
    let ghost pv = printings_view(ps@);
    let mut i: usize = 0;
    while i < n
        invariant
            i <= n == ps@.len(),
            pv == printings_view(ps@),
            first_idx_en(pv, 0) == first_idx_en(pv, i as int),
        decreases n - i,
    {
        proof {
            assert(pv[i as int] == ps@[i as int]@);
        }
        let lc = lowercase(ps[i].language.as_str());
        if str_eq(lc.as_str(), "en") {
            return Some(i);
        }
        i = i + 1;
    }
    None
}

/// Builds the emitted (URI, count) pairs, front first, as [`line_images`]
/// describes.
fn build_images(front: String, back: Option<String>, eff: BacksideMode, multiple: i32) -> (r: Vec<
    (String, i32),
>)
    ensures
        r@.map_values(|p: (String, i32)| (p.0@, p.1 as int)) == line_images(
            front@,
            opt_str_view(back),
            eff,
            multiple as int,
        ),
{
    let ghost goal = line_images(front@, opt_str_view(back), eff, multiple as int);
    let has_back = matches!(back, Some(_));
    let fm: i32 = if matches!(eff, BacksideMode::BackOnly) && has_back {
        0
    } else {
        multiple
    };
    let bm: i32 = if has_back {
        match eff {
            BacksideMode::Zero => 0,
            BacksideMode::One => 1,
            BacksideMode::Matching => multiple,
            BacksideMode::BackOnly => multiple,
        }
    } else {
        0
    };
    let mut images: Vec<(String, i32)> = Vec::new();
    if fm > 0 {
        images.push((front, fm));
    }
    if bm > 0 {
        match back {
            Some(b) => {
                images.push((b, bm));
            },
            None => {},
        }
    }
    proof {
        assert(images@.map_values(|p: (String, i32)| (p.0@, p.1 as int)) =~= goal);
    }
    images
}

/// Resolves a whole parsed decklist, in order: each line that carries an
/// entry and resolves contributes one image line; lines that fail resolve
/// are dropped silently.
pub fn image_lines_from_decklist(
    parsed: &Vec<crate::decklist::ParsedDecklistLine>,
    card_data: &CardData,
    default_backside_mode: BacksideMode,
) -> (r: Vec<ImageLine>)
    ensures
        exists|idx: Seq<int>|
            #[trigger] lines_conform(
                card_data.lookup@,
                card_data.printings.printings@,
                parsed@,
                default_backside_mode,
                r@,
                idx,
            ),
{
    let ghost lkv = card_data.lookup@;
    let ghost pmap = card_data.printings.printings@;
    let ghost entries = parsed@;
    let n = parsed.len();
    let mut out: Vec<ImageLine> = Vec::new();
    let ghost mut idx: Seq<int> = Seq::empty();
    let mut i: usize = 0;
    while i < n
        invariant
            i <= n == parsed@.len(),
            entries == parsed@,
            lkv == card_data.lookup@,
            pmap == card_data.printings.printings@,
            idx.len() == out@.len(),
            forall|a: int, b: int| 0 <= a < b < idx.len() ==> #[trigger] idx[a] < #[trigger] idx[b],
            forall|j: int| 0 <= j < idx.len() ==> 0 <= #[trigger] idx[j] < i,
            forall|j: int|
                0 <= j < idx.len() ==> {
                    &&& entries[#[trigger] idx[j]]@.entry is Some
                    &&& got_card(
                        lkv,
                        pmap,
                        entries[idx[j]]@.entry->0,
                        default_backside_mode,
                        out@[j]@,
                    )
                },
            forall|i2: int|
                0 <= i2 < i ==> (((#[trigger] entries[i2])@.entry is Some) ==> ((exists|j: int|
                    0 <= j < idx.len() && #[trigger] idx[j] == i2) || no_card(
                    lkv,
                    pmap,
                    entries[i2]@.entry->0,
                    default_backside_mode,
                ))),
        decreases n - i,
    {
        let ghost idx0 = idx;
        match parsed[i].as_entry() {
            Some(entry) => {
                proof {
                    assert(entries[i as int] == parsed@[i as int]);
                    assert(entry@ == entries[i as int]@.entry->0);
                }
                match card_data.get_card(&entry, default_backside_mode) {
                    Some(line) => {
                        out.push(line);
                        proof {
                            idx = idx.push(i as int);
                            assert(idx[idx.len() - 1] == i as int);
                            assert forall|i2: int|
                                0 <= i2 < i + 1 && ((#[trigger] entries[i2])@.entry
                                    is Some) implies ((exists|j: int|
                                0 <= j < idx.len() && #[trigger] idx[j] == i2) || no_card(
                                lkv,
                                pmap,
                                entries[i2]@.entry->0,
                                default_backside_mode,
                            )) by {
                                if i2 == i as int {
                                    assert(idx[idx.len() - 1] == i2);
                                } else if exists|j: int|
                                    0 <= j < idx0.len() && #[trigger] idx0[j] == i2 {
                                    let j = choose|j: int|
                                        0 <= j < idx0.len() && #[trigger] idx0[j] == i2;
                                    assert(idx[j] == i2);
                                }
                            }
                        }
                    },
                    None => {
                        proof {
                            assert(no_card(
                                lkv,
                                pmap,
                                entries[i as int]@.entry->0,
                                default_backside_mode,
                            ));
                        }
                    },
                }
            },
            None => {},
        }
        i = i + 1;
    }
    proof {
        assert(lines_conform(lkv, pmap, entries, default_backside_mode, out@, idx));
    }
    out
}

/// The conformance of a resolved decklist to its source: `idx` names, in
/// strictly increasing order, the source lines that resolved; each output
/// line is a justified resolution of its source line's entry; and every
/// source line that carries an entry either appears in `idx` or failed for
/// a justified reason ([`no_card`]) — a line is never dropped without one.
pub open spec fn lines_conform(
    lkv: LookupV,
    pmap: Map<Seq<char>, Seq<PrintingV>>,
    entries: Seq<crate::decklist::ParsedDecklistLine>,
    default_mode: BacksideMode,
    lines: Seq<ImageLine>,
    idx: Seq<int>,
) -> bool {
    &&& idx.len() == lines.len()
    &&& forall|a: int, b: int| 0 <= a < b < idx.len() ==> #[trigger] idx[a] < #[trigger] idx[b]
    &&& forall|j: int|
        0 <= j < idx.len() ==> {
            &&& 0 <= #[trigger] idx[j] < entries.len()
            &&& entries[idx[j]]@.entry is Some
            &&& got_card(lkv, pmap, entries[idx[j]]@.entry->0, default_mode, lines[j]@)
        }
    &&& forall|i: int|
        0 <= i < entries.len() ==> (((#[trigger] entries[i])@.entry is Some) ==> ((exists|j: int|
            0 <= j < idx.len() && #[trigger] idx[j] == i) || no_card(
            lkv,
            pmap,
            entries[i]@.entry->0,
            default_mode,
        )))
}

} // verus!
