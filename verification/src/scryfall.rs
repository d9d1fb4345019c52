//! The upstream catalog's records, modeled as plain data. A raw search
//! record is a tagged shape — direct image, two faces, or meld layout —
//! decoded by checking which fields are present and normalized into one
//! [`MinimalScryfallObject`] per printing. A printing store keys printings by
//! canonical name and tracks the languages seen.

use vstd::prelude::*;

use crate::collections::{strings_as_set, StringSet};
use crate::text::{lower_of, lowercase, str_eq};
use vstd::string::StrSliceExecFns;

verus! {

/// The language codes the upstream catalog documents.
pub fn get_minimal_scryfall_languages() -> (r: StringSet)
    ensures
        r@ == set![
            "en"@, "es"@, "fr"@, "de"@, "it"@, "pt"@, "ja"@, "ko"@, "ru"@, "zhs"@, "zht"@,
            "he"@, "la"@, "grc"@, "ar"@, "sa"@, "ph"@
        ],
{
    let mut s = StringSet::new();
    s.insert("en".to_owned());
    s.insert("es".to_owned());
    s.insert("fr".to_owned());
    s.insert("de".to_owned());
    s.insert("it".to_owned());
    s.insert("pt".to_owned());
    s.insert("ja".to_owned());
    s.insert("ko".to_owned());
    s.insert("ru".to_owned());
    s.insert("zhs".to_owned());
    s.insert("zht".to_owned());
    s.insert("he".to_owned());
    s.insert("la".to_owned());
    s.insert("grc".to_owned());
    s.insert("ar".to_owned());
    s.insert("sa".to_owned());
    s.insert("ph".to_owned());
    proof {
        assert(s@ =~= set![
            "en"@, "es"@, "fr"@, "de"@, "it"@, "pt"@, "ja"@, "ko"@, "ru"@, "zhs"@, "zht"@,
            "he"@, "la"@, "grc"@, "ar"@, "sa"@, "ph"@
        ]);
    }
    s
}

/// How a card name is written into the upstream's exact-name query: spaces
/// become `+`, and each two-face separator `//` is removed.
pub open spec fn encoded_name(s: Seq<char>) -> Seq<char>
    decreases s.len(),
{
    if s.len() == 0 {
        Seq::empty()
    } else if s.len() >= 2 && s[0] == '/' && s[1] == '/' {
        encoded_name(s.skip(2))
    } else if s[0] == ' ' {
        seq!['+'] + encoded_name(s.skip(1))
    } else {
        seq![s[0]] + encoded_name(s.skip(1))
    }
}

/// Encodes a card name for the upstream's exact-name query.
pub fn encode_card_name(name: &str) -> (r: String)
    ensures
        r@ == encoded_name(name@),
{
    let cv = crate::text::chars_vec(name);
    let n = cv.len();
    let mut out = String::new();
    let mut i: usize = 0;
    proof {
        assert(name@.skip(0) =~= name@);
        assert(out@ + encoded_name(name@) =~= encoded_name(name@));
    }
    while i < n
        invariant
            i <= n == cv@.len(),
            cv@ == name@,
            out@ + encoded_name(name@.skip(i as int)) == encoded_name(name@),
        decreases n - i,
    {
        proof {
            assert(name@.skip(i as int)[0] == name@[i as int]);
            if i + 2 <= n {
                assert(name@.skip(i as int)[1] == name@[i + 1]);
                assert(name@.skip(i as int).skip(2) =~= name@.skip(i + 2));
            }
            assert(name@.skip(i as int).skip(1) =~= name@.skip(i + 1));
        }
        if n - i >= 2 && cv[i] == '/' && cv[i + 1] == '/' {
            i = i + 2;
        } else if cv[i] == ' ' {
            out.append("+");
            proof {
                reveal_strlit("+");
                assert(out@ + encoded_name(name@.skip(i + 1)) =~= encoded_name(name@));
            }
            i = i + 1;
        } else {
            let piece = name.substring_char(i, i + 1);
            out.append(piece);
            proof {
                assert(piece@ =~= seq![name@[i as int]]);
                assert(out@ + encoded_name(name@.skip(i + 1)) =~= encoded_name(name@));
            }
            i = i + 1;
        }
    }
    proof {
        assert(name@.skip(n as int) =~= Seq::<char>::empty());
        assert(out@ =~= encoded_name(name@));
    }
    out
}

/// Mathematical content of a [`MinimalScryfallObject`].
pub ghost struct PrintingV {
    pub name: Seq<char>,
    pub set: Seq<char>,
    pub language: Seq<char>,
    pub border_crop: Seq<char>,
    pub border_crop_back: Option<Seq<char>>,
    pub meld_result: Option<Seq<char>>,
}

/// One printing of a card: canonical name, set code, language, front image
/// URI, optional back image URI, and for meld cards the result card's name.
#[derive(Debug, PartialEq, Eq, Clone)]
pub struct MinimalScryfallObject {
    pub name: String,
    pub set: String,
    pub language: String,
    pub border_crop: String,
    pub border_crop_back: Option<String>,
    pub meld_result: Option<String>,
}

/// The view of an optional string.
pub open spec fn opt_str_view(o: Option<String>) -> Option<Seq<char>> {
    match o {
        Some(s) => Some(s@),
        None => None,
    }
}

impl View for MinimalScryfallObject {
    type V = PrintingV;

    open spec fn view(&self) -> PrintingV {
        PrintingV {
            name: self.name@,
            set: self.set@,
            language: self.language@,
            border_crop: self.border_crop@,
            border_crop_back: opt_str_view(self.border_crop_back),
            meld_result: opt_str_view(self.meld_result),
        }
    }
}

/// Copies an optional string, preserving its view.
fn clone_opt_string(o: &Option<String>) -> (r: Option<String>)
    ensures
        opt_str_view(r) == opt_str_view(*o),
{
    match o {
        Some(s) => Some(s.clone()),
        None => None,
    }
}

/// Copies a printing, preserving its view.
pub fn clone_printing(p: &MinimalScryfallObject) -> (r: MinimalScryfallObject)
    ensures
        r@ == p@,
{
    MinimalScryfallObject {
        name: p.name.clone(),
        set: p.set.clone(),
        language: p.language.clone(),
        border_crop: p.border_crop.clone(),
        border_crop_back: clone_opt_string(&p.border_crop_back),
        meld_result: clone_opt_string(&p.meld_result),
    }
}

/// Mathematical content of a [`RawFace`].
pub ghost struct RawFaceV {
    pub border_crop: Option<Seq<char>>,
}

/// One face of a raw two-face record: its border-crop image URI, when the
/// record carries one.
pub struct RawFace {
    pub border_crop: Option<String>,
}

impl View for RawFace {
    type V = RawFaceV;

    open spec fn view(&self) -> RawFaceV {
        RawFaceV { border_crop: opt_str_view(self.border_crop) }
    }
}

/// Mathematical content of a [`RawRelated`].
pub ghost struct RawRelatedV {
    pub component: Option<Seq<char>>,
    pub name: Option<Seq<char>>,
}

/// One related-card reference of a raw record: its role and its name, as far
/// as the record carries them.
pub struct RawRelated {
    pub component: Option<String>,
    pub name: Option<String>,
}

impl View for RawRelated {
    type V = RawRelatedV;

    open spec fn view(&self) -> RawRelatedV {
        RawRelatedV { component: opt_str_view(self.component), name: opt_str_view(self.name) }
    }
}

/// Mathematical content of a [`RawCard`].
pub ghost struct RawCardV {
    pub name: Option<Seq<char>>,
    pub set: Option<Seq<char>>,
    pub lang: Option<Seq<char>>,
    pub has_image_uris: bool,
    pub image_border_crop: Option<Seq<char>>,
    pub card_faces: Option<Seq<RawFaceV>>,
    pub layout: Option<Seq<char>>,
    pub all_parts: Option<Seq<RawRelatedV>>,
}

/// A raw record of the upstream's search answer, reduced to the fields the
/// normalization reads: each present exactly when the wire record carries it
/// with the right type.
pub struct RawCard {
    pub name: Option<String>,
    pub set: Option<String>,
    pub lang: Option<String>,
    pub has_image_uris: bool,
    pub image_border_crop: Option<String>,
    pub card_faces: Option<Vec<RawFace>>,
    pub layout: Option<String>,
    pub all_parts: Option<Vec<RawRelated>>,
}

impl View for RawCard {
    type V = RawCardV;

    open spec fn view(&self) -> RawCardV {
        RawCardV {
            name: opt_str_view(self.name),
            set: opt_str_view(self.set),
            lang: opt_str_view(self.lang),
            has_image_uris: self.has_image_uris,
            image_border_crop: opt_str_view(self.image_border_crop),
            card_faces: match self.card_faces {
                Some(fs) => Some(fs@.map_values(|f: RawFace| f@)),
                None => None,
            },
            layout: opt_str_view(self.layout),
            all_parts: match self.all_parts {
                Some(ps) => Some(ps@.map_values(|p: RawRelated| p@)),
                None => None,
            },
        }
    }
}

/// The first related-card reference that is a meld result, from `i` on.
pub open spec fn find_meld_result(parts: Seq<RawRelatedV>, i: int) -> Option<RawRelatedV>
    decreases parts.len() - i when 0 <= i
{
    if i >= parts.len() {
        None
    } else if parts[i].component == Some("meld_result"@) {
        Some(parts[i])
    } else {
        find_meld_result(parts, i + 1)
    }
}

/// The front and optional back image of a raw record: the direct image when
/// the record carries one, else the two face images of an exactly-two-face
/// record.
pub open spec fn images_of(d: RawCardV) -> Option<(Seq<char>, Option<Seq<char>>)> {
    if d.has_image_uris {
        match d.image_border_crop {
            Some(f) => Some((f, None)),
            None => None,
        }
    } else {
        match d.card_faces {
            Some(faces) => if faces.len() != 2 {
                None
            } else {
                match (faces[0].border_crop, faces[1].border_crop) {
                    (Some(f), Some(b)) => Some((f, Some(b))),
                    _ => None,
                }
            },
            None => None,
        }
    }
}

/// The meld-result name a raw record names, when its layout is meld: the
/// lower-cased name of the first meld-result reference, unless it names the
/// record itself. `None` means the record is rejected; `Some(None)` means no
/// meld result applies.
pub open spec fn meld_result_of(d: RawCardV, name: Seq<char>) -> Option<Option<Seq<char>>> {
    if d.layout == Some("meld"@) {
        match d.all_parts {
            None => None,
            Some(parts) => match find_meld_result(parts, 0) {
                None => None,
                Some(rel) => match rel.name {
                    None => None,
                    Some(mn) => if lower_of(mn) != name {
                        Some(Some(lower_of(mn)))
                    } else {
                        Some(None)
                    },
                },
            },
        }
    } else {
        Some(None)
    }
}

/// What normalizing a raw record yields: a printing exactly when the record
/// has a name, set and language, carries image data, and — for meld layouts
/// — names a meld result.
pub open spec fn from_dict_spec(d: RawCardV) -> Option<PrintingV> {
    match (d.name, d.set, d.lang) {
        (Some(n), Some(st), Some(lg)) => {
            let name = lower_of(n);
            match images_of(d) {
                None => None,
                Some((front, back)) => match meld_result_of(d, name) {
                    None => None,
                    Some(meld) => Some(
                        PrintingV {
                            name,
                            set: lower_of(st),
                            language: lower_of(lg),
                            border_crop: front,
                            border_crop_back: back,
                            meld_result: meld,
                        },
                    ),
                },
            }
        },
        _ => None,
    }
}

/// Index of the first related-card reference that is a meld result.
fn find_meld_index(parts: &Vec<RawRelated>) -> (r: Option<usize>)
    ensures
        (match r {
            Some(i) => i < parts@.len() && find_meld_result(
                parts@.map_values(|p: RawRelated| p@),
                0,
            ) == Some(parts@.map_values(|p: RawRelated| p@)[i as int]),
            None => find_meld_result(parts@.map_values(|p: RawRelated| p@), 0) is None,
        }),
{
    let n = parts.len();
    let ghost pv = parts@.map_values(|p: RawRelated| p@);
    let mut i: usize = 0;
    while i < n
        invariant
            i <= n == parts@.len(),
            pv == parts@.map_values(|p: RawRelated| p@),
            find_meld_result(pv, 0) == find_meld_result(pv, i as int),
        decreases n - i,
    {
        let is_mr = match &parts[i].component {
            Some(c) => str_eq(c.as_str(), "meld_result"),
            None => false,
        };
        proof {
            assert(pv[i as int] == parts@[i as int]@);
        }
        if is_mr {
            return Some(i);
        }
        i = i + 1;
    }
    None
}

/// The view of an optional printing.
pub open spec fn opt_printing_view(r: Option<MinimalScryfallObject>) -> Option<PrintingV> {
    match r {
        Some(p) => Some(p@),
        None => None,
    }
}

impl MinimalScryfallObject {
    /// Normalizes one raw record into a printing, exactly as
    /// [`from_dict_spec`] describes.
    pub fn from_dict(d: &RawCard) -> (r: Option<MinimalScryfallObject>)
        ensures
            opt_printing_view(r) == from_dict_spec(d@),
    {
        let name_raw = match &d.name {
            Some(n) => n,
            None => {
                return None;
            },
        };
        let set_raw = match &d.set {
            Some(s) => s,
            None => {
                return None;
            },
        };
        let lang_raw = match &d.lang {
            Some(l) => l,
            None => {
                return None;
            },
        };
        let name = lowercase(name_raw.as_str());
        let set = lowercase(set_raw.as_str());
        let language = lowercase(lang_raw.as_str());
        let (border_crop, border_crop_back): (String, Option<String>) = if d.has_image_uris {
            match &d.image_border_crop {
                Some(f) => (f.clone(), None),
                None => {
                    return None;
                },
            }
        } else {
            match &d.card_faces {
                Some(faces) => {
                    if faces.len() != 2 {
                        return None;
                    }
                    let front = match &faces[0].border_crop {
                        Some(f) => f.clone(),
                        None => {
                            return None;
                        },
                    };
                    let back = match &faces[1].border_crop {
                        Some(b) => b.clone(),
                        None => {
                            return None;
                        },
                    };
                    (front, Some(back))
                },
                None => {
                    return None;
                },
            }
        };
        let is_meld = match &d.layout {
            Some(l) => str_eq(l.as_str(), "meld"),
            None => false,
        };
        let meld_result: Option<String> = if is_meld {
            let parts = match &d.all_parts {
                Some(ps) => ps,
                None => {
                    return None;
                },
            };
            let found = find_meld_index(parts);
            match found {
                None => {
                    return None;
                },
                Some(idx) => {
                    let mn_raw = match &parts[idx].name {
                        Some(mn) => mn,
                        None => {
                            return None;
                        },
                    };
                    let mn = lowercase(mn_raw.as_str());
                    if !str_eq(mn.as_str(), name.as_str()) {
                        Some(mn)
                    } else {
                        None
                    }
                },
            }
        } else {
            None
        };
        Some(MinimalScryfallObject { name, set, language, border_crop, border_crop_back, meld_result })
    }
}

/// The view of a printing list.
pub open spec fn printings_view(v: Seq<MinimalScryfallObject>) -> Seq<PrintingV> {
    v.map_values(|m: MinimalScryfallObject| m@)
}

/// The association a printing entry list denotes; a later entry for the same
/// name wins.
pub open spec fn table_as_map(entries: Seq<(String, Vec<MinimalScryfallObject>)>) -> Map<
    Seq<char>,
    Seq<PrintingV>,
>
    decreases entries.len(),
{
    if entries.len() == 0 {
        Map::empty()
    } else {
        table_as_map(entries.drop_last()).insert(
            entries.last().0@,
            printings_view(entries.last().1@),
        )
    }
}

/// Updating the last entry holding a name rewrites that name's printings.
proof fn lemma_table_update_last(
    s: Seq<(String, Vec<MinimalScryfallObject>)>,
    idx: int,
    e: (String, Vec<MinimalScryfallObject>),
)
    requires
        0 <= idx < s.len(),
        forall|j: int| idx < j < s.len() ==> (#[trigger] s[j].0@) != s[idx].0@,
        e.0@ == s[idx].0@,
    ensures
        table_as_map(s.update(idx, e)) == table_as_map(s).insert(e.0@, printings_view(e.1@)),
    decreases s.len(),
{
    if idx == s.len() - 1 {
        assert(s.update(idx, e).drop_last() =~= s.drop_last());
        assert(s.update(idx, e).last() == e);
    } else {
        assert(s.update(idx, e).drop_last() =~= s.drop_last().update(idx, e));
        assert(s.update(idx, e).last() == s.last());
        assert(s.drop_last()[idx] == s[idx]);
        lemma_table_update_last(s.drop_last(), idx, e);
        assert(table_as_map(s.update(idx, e)) =~= table_as_map(s).insert(
            e.0@,
            printings_view(e.1@),
        ));
    }
}

/// Printings keyed by canonical name, with vector storage and linear lookup.
pub struct PrintingTable {
    entries: Vec<(String, Vec<MinimalScryfallObject>)>,
}

impl View for PrintingTable {
    type V = Map<Seq<char>, Seq<PrintingV>>;

    closed spec fn view(&self) -> Map<Seq<char>, Seq<PrintingV>> {
        table_as_map(self.entries@)
    }
}

impl PrintingTable {
    /// An empty table.
    pub fn new() -> (r: PrintingTable)
        ensures
            r@ == Map::<Seq<char>, Seq<PrintingV>>::empty(),
    {
        PrintingTable { entries: Vec::new() }
    }

    /// Whether the table holds printings for a name.
    pub fn contains_key(&self, name: &str) -> (r: bool)
        ensures
            r == self@.contains_key(name@),
    {
        match self.index_of(name) {
            Some(_) => true,
            None => false,
        }
    }

    /// Index of the last entry holding a name.
    fn index_of(&self, name: &str) -> (r: Option<usize>)
        ensures
            (match r {
                Some(i) => {
                    &&& i < self.entries@.len()
                    &&& self.entries@[i as int].0@ == name@
                    &&& self@.contains_key(name@)
                    &&& self@[name@] == printings_view(self.entries@[i as int].1@)
                    &&& forall|j: int|
                        i < j < self.entries@.len() ==> (#[trigger] self.entries@[j].0@) != name@
                },
                None => !self@.contains_key(name@),
            }),
    {
        let n = self.entries.len();
        proof {
            assert(self.entries@.subrange(0, n as int) =~= self.entries@);
        }
        let mut i: usize = n;
        while i > 0
            invariant
                i <= n == self.entries@.len(),
                table_as_map(self.entries@.subrange(0, i as int)).contains_key(name@)
                    == table_as_map(self.entries@).contains_key(name@),
                table_as_map(self.entries@.subrange(0, i as int)).contains_key(name@)
                    ==> table_as_map(self.entries@.subrange(0, i as int))[name@] == table_as_map(
                    self.entries@,
                )[name@],
                forall|j: int| i <= j < n ==> (#[trigger] self.entries@[j].0@) != name@,
            decreases i,
        {
            proof {
                assert(self.entries@.subrange(0, i as int).drop_last() =~= self.entries@.subrange(
                    0,
                    i - 1 as int,
                ));
                assert(self.entries@.subrange(0, i as int).last() == self.entries@[i - 1 as int]);
            }
            if str_eq(self.entries[i - 1].0.as_str(), name) {
                return Some(i - 1);
            }
            i = i - 1;
        }
        proof {
            assert(self.entries@.subrange(0, 0) =~= Seq::<
                (String, Vec<MinimalScryfallObject>),
            >::empty());
        }
        None
    }

    /// The printings recorded for a name, if any.
    pub fn get<'a>(&'a self, name: &str) -> (r: Option<&'a Vec<MinimalScryfallObject>>)
        ensures
            (match r {
                Some(v) => self@.contains_key(name@) && printings_view(v@) == self@[name@],
                None => !self@.contains_key(name@),
            }),
    {
        match self.index_of(name) {
            Some(i) => Some(&self.entries[i].1),
            None => None,
        }
    }

    /// Appends one printing to a name's list, creating the list if the name
    /// is new.
    pub fn append(&mut self, name: &str, p: MinimalScryfallObject)
        ensures
            final(self)@ == old(self)@.insert(
                name@,
                (if old(self)@.contains_key(name@) {
                    old(self)@[name@]
                } else {
                    Seq::empty()
                }).push(p@),
            ),
    {
        let ghost pv = p@;
        match self.index_of(name) {
            Some(i) => {
                let ghost pre = self.entries@;
                let mut entry = self.entries.remove(i);
                entry.1.push(p);
                proof {
                    assert(printings_view(entry.1@) =~= old(self)@[name@].push(pv));
                }
                self.entries.insert(i, entry);
                proof {
                    assert(self.entries@ =~= pre.update(i as int, self.entries@[i as int]));
                    assert(self.entries@[i as int].0@ == name@);
                    lemma_table_update_last(pre, i as int, self.entries@[i as int]);
                }
            },
            None => {
                let ghost pre = self.entries@;
                let mut list: Vec<MinimalScryfallObject> = Vec::new();
                list.push(p);
                self.entries.push((name.to_owned(), list));
                proof {
                    assert(self.entries@.drop_last() =~= pre);
                    assert(printings_view(self.entries@.last().1@) =~= Seq::<
                        PrintingV,
                    >::empty().push(pv));
                }
            },
        }
    }
}

/// The canonical name list the upstream serves, with its fetch time in
/// monotonic milliseconds when one was recorded.
pub struct ScryfallCardNames {
    pub object: String,
    pub uri: String,
    pub total_values: i32,
    pub date: Option<u64>,
    pub names: Vec<String>,
}

impl ScryfallCardNames {
    /// Whether a (lower-cased) name is one of the canonical names.
    pub fn contains_name(&self, name: &str) -> (r: bool)
        ensures
            r == strings_as_set(self.names@).contains(name@),
    {
        let n = self.names.len();
        let mut i: usize = 0;
        while i < n
            invariant
                i <= n == self.names@.len(),
                forall|j: int| 0 <= j < i ==> (#[trigger] self.names@[j]@) != name@,
            decreases n - i,
        {
            if str_eq(self.names[i].as_str(), name) {
                return true;
            }
            i = i + 1;
        }
        false
    }

    /// Lower-cases every name, as the canonical list is stored.
    pub fn lowercase_names(names: Vec<String>) -> (r: Vec<String>)
        ensures
            r@.len() == names@.len(),
            forall|i: int| 0 <= i < r@.len() ==> (#[trigger] r@[i]@) == lower_of(names@[i]@),
    {
        let n = names.len();
        let mut out: Vec<String> = Vec::new();
        let mut i: usize = 0;
        while i < n
            invariant
                i <= n == names@.len(),
                out@.len() == i,
                forall|j: int| 0 <= j < i ==> (#[trigger] out@[j]@) == lower_of(names@[j]@),
            decreases n - i,
        {
            out.push(lowercase(names[i].as_str()));
            i = i + 1;
        }
        out
    }
}

/// The printing store: printings keyed by canonical name, and the set of
/// languages seen among them.
pub struct CardPrintings {
    pub printings: PrintingTable,
    pub languages: StringSet,
}

impl CardPrintings {
    /// An empty store that recognizes the upstream's documented languages.
    pub fn new() -> (r: CardPrintings)
        ensures
            r.printings@ == Map::<Seq<char>, Seq<PrintingV>>::empty(),
            r.languages@ == set![
                "en"@, "es"@, "fr"@, "de"@, "it"@, "pt"@, "ja"@, "ko"@, "ru"@, "zhs"@, "zht"@,
                "he"@, "la"@, "grc"@, "ar"@, "sa"@, "ph"@
            ],
    {
        CardPrintings { printings: PrintingTable::new(), languages: get_minimal_scryfall_languages() }
    }
}

impl CardPrintings {
    /// Adopts one persisted printing under its canonical key: printings are
    /// stored under lower-cased names, wherever the persisted data came
    /// from. The language set is not touched; a persisted language set is
    /// merged separately.
    pub fn insert_printing(&mut self, name: &str, p: MinimalScryfallObject)
        ensures
            final(self).printings@ == old(self).printings@.insert(
                lower_of(name@),
                (if old(self).printings@.contains_key(lower_of(name@)) {
                    old(self).printings@[lower_of(name@)]
                } else {
                    Seq::empty()
                }).push(p@),
            ),
            final(self).languages == old(self).languages,
    {
        let key = lowercase(name);
        self.printings.append(key.as_str(), p);
    }
}

/// What recording one raw record does to the printing store: nothing when
/// the record does not normalize or its name is not canonical; otherwise the
/// printing is appended to its name's list and its language recorded.
pub open spec fn insert_object_post(
    old_p: Map<Seq<char>, Seq<PrintingV>>,
    old_l: Set<Seq<char>>,
    names: Set<Seq<char>>,
    d: RawCardV,
    new_p: Map<Seq<char>, Seq<PrintingV>>,
    new_l: Set<Seq<char>>,
) -> bool {
    match from_dict_spec(d) {
        None => new_p == old_p && new_l == old_l,
        Some(p) => if !names.contains(p.name) {
            new_p == old_p && new_l == old_l
        } else {
            &&& new_p == old_p.insert(
                p.name,
                (if old_p.contains_key(p.name) {
                    old_p[p.name]
                } else {
                    Seq::empty()
                }).push(p),
            )
            &&& new_l == old_l.insert(p.language)
        },
    }
}

/// Records one raw search record: normalizes it, checks its name against the
/// canonical list, appends the printing, and notes its language.
pub fn insert_scryfall_object(
    printings: &mut CardPrintings,
    card_names: &ScryfallCardNames,
    object: &RawCard,
)
    ensures
        insert_object_post(
            old(printings).printings@,
            old(printings).languages@,
            strings_as_set(card_names.names@),
            object@,
            final(printings).printings@,
            final(printings).languages@,
        ),
{
    let minimal = match MinimalScryfallObject::from_dict(object) {
        Some(m) => m,
        None => {
            return ;
        },
    };
    if !card_names.contains_name(minimal.name.as_str()) {
        return ;
    }
    let language = minimal.language.clone();
    let name = minimal.name.clone();
    printings.printings.append(name.as_str(), minimal);
    printings.languages.insert(language);
}

} // verus!
