//! Fuzzy card-name lookup. Canonical names are indexed into one corpus for
//! the full name and, for two-part names ("left // right"), one corpus per
//! part, with a fragment-to-full-name mapping. A query is matched against
//! every corpus; the best hit at or above a fixed similarity threshold wins,
//! together with which corpus produced it.
//!
//! The n-gram similarity scoring itself comes from the `ngrammatic` crate;
//! everything around it — corpus bookkeeping, thresholding, fragment
//! resolution, and the cross-corpus choice — is verified. Similarity values
//! are carried as the bit patterns of the underlying nonnegative IEEE 754
//! numbers, on which unsigned integer order coincides with numeric order.

use vstd::prelude::*;

use crate::text::{
    chars_vec, has_sep, lower_of, lowercase, rscan_spaces, scan_sep, scan_spaces,
    str_eq, trimmed_parts_from,
};
use vstd::string::StrSliceExecFns;

verus! {

/// Which corpus produced a match: the full name, or part `i` of a
/// "left // right" name.
#[derive(Debug, PartialEq, Eq, Hash, Clone, Copy, Structural)]
pub enum NameMatchMode {
    Full,
    Part(usize),
}

/// A resolved lookup: the canonical full name and which corpus matched.
#[derive(Debug, PartialEq, Eq)]
pub struct NameLookupResult {
    pub name: String,
    pub hit: NameMatchMode,
}

/// Mathematical content of a [`NameLookupResult`].
pub ghost struct NameLookupResultV {
    pub name: Seq<char>,
    pub hit: NameMatchMode,
}

impl View for NameLookupResult {
    type V = NameLookupResultV;

    open spec fn view(&self) -> NameLookupResultV {
        NameLookupResultV { name: self.name@, hit: self.hit }
    }
}

/// Declares `ngrammatic::Corpus` so it can stand in signatures and fields;
/// the library sees values of it opaquely, through the contracts below.
#[verifier::external_type_specification]
#[verifier::external_body]
pub struct ExCorpus(ngrammatic::Corpus);

/// The set of texts a corpus holds.
pub uninterp spec fn corpus_texts(c: ngrammatic::Corpus) -> Set<Seq<char>>;

/// The n-gram similarity that `ngrammatic::Corpus::search` (bigrams, automatic
/// single-space padding) assigns a held text for a query, carried as the bit
/// pattern of the nonnegative IEEE 754 similarity value. On such bit patterns
/// unsigned integer order coincides with numeric order, so contracts compare
/// them as plain integers.
pub uninterp spec fn ngram_score(query: Seq<char>, text: Seq<char>) -> u32;

/// Bit pattern of the fixed similarity threshold 0.25: a text counts as a
/// match only when its score is at or above this value.
pub const SIMILARITY_THRESHOLD_BITS: u32 = 0x3e80_0000;

/// Relies on `ngrammatic::CorpusBuilder::new().finish()`: the default corpus
/// (arity 2, automatic padding, identity key transform) holds no texts.
#[verifier::external_body]
fn corpus_new() -> (c: ngrammatic::Corpus)
    ensures
        corpus_texts(c) == Set::<Seq<char>>::empty(),
{
    ngrammatic::CorpusBuilder::new().finish()
}

/// Relies on `ngrammatic::Corpus::add_text`: the text is recorded in the
/// corpus under itself (the default key transform is the identity).
#[verifier::external_body]
fn corpus_add_text(c: &mut ngrammatic::Corpus, text: &str)
    ensures
        corpus_texts(*final(c)) == corpus_texts(*old(c)).insert(text@),
{
    c.add_text(text)
}

/// Relies on `ngrammatic::Corpus::search`: every result pairs a held text
/// with its similarity to the query; results come sorted from most to least
/// similar, so the first result scores at least as high as every held text;
/// a text is returned only when it shares an n-gram with the query, and a
/// text sharing no n-gram has similarity exactly zero, so an empty result
/// means every held text scores zero. With the default automatic padding
/// every text and every query has at least one n-gram, so no similarity is
/// ever NaN and the bit patterns order like the numbers they encode; and a
/// held text identical to the query has the same n-grams, so it scores
/// exactly 1.0 and the first (highest) result scores at least 1.0's bit
/// pattern 0x3f80_0000.
#[verifier::external_body]
fn corpus_search(c: &ngrammatic::Corpus, query: &str) -> (r: Vec<(String, u32)>)
    ensures
        forall|i: int|
            0 <= i < r@.len() ==> corpus_texts(*c).contains(#[trigger] r@[i].0@) && r@[i].1
                == ngram_score(query@, r@[i].0@),
        forall|i: int, j: int| 0 <= i <= j < r@.len() ==> #[trigger] r@[i].1 >= #[trigger] r@[j].1,
        r@.len() > 0 ==> forall|t: Seq<char>|
            corpus_texts(*c).contains(t) ==> #[trigger] ngram_score(query@, t) <= r@[0].1,
        r@.len() == 0 ==> forall|t: Seq<char>|
            corpus_texts(*c).contains(t) ==> #[trigger] ngram_score(query@, t) == 0,
        corpus_texts(*c).contains(query@) ==> r@.len() > 0 && r@[0].1 >= 0x3f80_0000u32,
{
    c.search(query, Default::default()).into_iter().map(
        |sr: ngrammatic::SearchResult| (sr.text, sr.similarity.to_bits()),
    ).collect()
}

/// The association a pair list denotes; a later pair for the same key wins.
pub open spec fn pairs_as_map(pairs: Seq<(String, String)>) -> Map<Seq<char>, Seq<char>>
    decreases pairs.len(),
{
    if pairs.len() == 0 {
        Map::empty()
    } else {
        pairs_as_map(pairs.drop_last()).insert(pairs.last().0@, pairs.last().1@)
    }
}

/// Looks a key up in a pair list, later pairs taking precedence.
fn pairs_get<'a>(pairs: &'a Vec<(String, String)>, key: &str) -> (r: Option<&'a String>)
    ensures
        (match r {
            Some(v) => pairs_as_map(pairs@).contains_key(key@) && pairs_as_map(pairs@)[key@] == v@,
            None => !pairs_as_map(pairs@).contains_key(key@),
        }),
{
    let n = pairs.len();
    proof {
        assert(pairs@.subrange(0, n as int) =~= pairs@);
    }
    let mut i: usize = n;
    while i > 0
        invariant
            i <= n == pairs@.len(),
            pairs_as_map(pairs@.subrange(0, i as int)).contains_key(key@) == pairs_as_map(
                pairs@,
            ).contains_key(key@),
            pairs_as_map(pairs@.subrange(0, i as int)).contains_key(key@)
                ==> pairs_as_map(pairs@.subrange(0, i as int))[key@] == pairs_as_map(
                pairs@,
            )[key@],
        decreases i,
    {
        proof {
            assert(pairs@.subrange(0, i as int).drop_last() =~= pairs@.subrange(0, i - 1 as int));
            assert(pairs@.subrange(0, i as int).last() == pairs@[i - 1 as int]);
        }
        if str_eq(pairs[i - 1].0.as_str(), key) {
            return Some(&pairs[i - 1].1);
        }
        i = i - 1;
    }
    proof {
        assert(pairs@.subrange(0, 0) =~= Seq::<(String, String)>::empty());
    }
    None
}

/// Mathematical content of a [`CardCorpus`]: the held texts, and the
/// fragment-to-full-name association.
#[verifier::ext_equal]
pub ghost struct CardCorpusV {
    pub texts: Set<Seq<char>>,
    pub to_full: Map<Seq<char>, Seq<char>>,
}

/// The full name a matched text stands for: its mapping when one was
/// recorded, else the text itself.
pub open spec fn full_of(c: CardCorpusV, t: Seq<char>) -> Seq<char> {
    if c.to_full.contains_key(t) {
        c.to_full[t]
    } else {
        t
    }
}

/// One fuzzy corpus together with the fragment-to-full-name mapping for the
/// texts indexed into it.
pub struct CardCorpus {
    corpus: ngrammatic::Corpus,
    to_full: Vec<(String, String)>,
}

impl View for CardCorpus {
    type V = CardCorpusV;

    closed spec fn view(&self) -> CardCorpusV {
        CardCorpusV { texts: corpus_texts(self.corpus), to_full: pairs_as_map(self.to_full@) }
    }
}

impl CardCorpus {
    /// An empty corpus.
    pub fn new() -> (r: CardCorpus)
        ensures
            r@.texts == Set::<Seq<char>>::empty(),
            r@.to_full == Map::<Seq<char>, Seq<char>>::empty(),
    {
        CardCorpus { corpus: corpus_new(), to_full: Vec::new() }
    }

    /// Indexes `partial_name`; when it differs from `full_name`, records
    /// that it stands for `full_name`.
    pub fn insert(&mut self, partial_name: &str, full_name: &str)
        ensures
            final(self)@.texts == old(self)@.texts.insert(partial_name@),
            final(self)@.to_full == (if partial_name@ != full_name@ {
                old(self)@.to_full.insert(partial_name@, full_name@)
            } else {
                old(self)@.to_full
            }),
    {
        corpus_add_text(&mut self.corpus, partial_name);
        if !str_eq(partial_name, full_name) {
            let ghost pre = self.to_full@;
            self.to_full.push((partial_name.to_owned(), full_name.to_owned()));
            proof {
                assert(self.to_full@.drop_last() =~= pre);
            }
        }
    }

    /// The best match for an (already lower-cased) query at or above the
    /// similarity threshold, resolved to the full name it stands for.
    pub fn find(&self, query: &str) -> (r: Option<(String, u32)>)
        ensures
            (match r {
                Some(p) => {
                    &&& p.1 >= SIMILARITY_THRESHOLD_BITS
                    &&& exists|t: Seq<char>|
                        {
                            &&& self@.texts.contains(t)
                            &&& #[trigger] ngram_score(query@, t) == p.1
                            &&& p.0@ == full_of(self@, t)
                        }
                    &&& forall|u: Seq<char>|
                        self@.texts.contains(u) ==> #[trigger] ngram_score(query@, u) <= p.1
                },
                None => forall|u: Seq<char>|
                    self@.texts.contains(u) ==> #[trigger] ngram_score(query@, u)
                        < SIMILARITY_THRESHOLD_BITS,
            }),
            self@.texts.contains(query@) ==> r is Some,
    {
        let results = corpus_search(&self.corpus, query);
        if results.len() == 0 {
            return None;
        }
        let score = results[0].1;
        if score < SIMILARITY_THRESHOLD_BITS {
            return None;
        }
        let text = &results[0].0;
        let resolved: String = match pairs_get(&self.to_full, text.as_str()) {
            Some(full) => full.clone(),
            None => text.clone(),
        };
        Some((resolved, score))
    }
}

/// Mathematical content of a [`CardNameLookup`].
#[verifier::ext_equal]
pub ghost struct LookupV {
    pub full: CardCorpusV,
    pub parts: Seq<CardCorpusV>,
}

/// A corpus with nothing in it.
pub open spec fn empty_corpus_v() -> CardCorpusV {
    CardCorpusV { texts: Set::empty(), to_full: Map::empty() }
}

/// Part corpus `j` of a lookup, taking positions it does not have yet as
/// empty.
pub open spec fn base_part(v: LookupV, j: int) -> CardCorpusV {
    if 0 <= j < v.parts.len() {
        v.parts[j]
    } else {
        empty_corpus_v()
    }
}

/// What part corpus `j` becomes when piece `ps[j]` of the full name `s` is
/// indexed into it.
pub open spec fn inserted_part(v: LookupV, ps: Seq<Seq<char>>, s: Seq<char>, j: int) -> CardCorpusV {
    let base = base_part(v, j);
    CardCorpusV {
        texts: base.texts.insert(ps[j]),
        to_full: if ps[j] != s {
            base.to_full.insert(ps[j], s)
        } else {
            base.to_full
        },
    }
}

/// A lookup with nothing indexed.
pub open spec fn empty_lookup_v() -> LookupV {
    LookupV { full: empty_corpus_v(), parts: Seq::empty() }
}

/// What indexing one canonical name does to a lookup: the lower-cased name
/// joins the full-name corpus, and — when it holds the two-face separator —
/// each trimmed part joins that part's corpus with its mapping back to the
/// full name. This is the whole effect of [`CardNameLookup::insert`].
pub open spec fn lookup_insert_v(v: LookupV, name: Seq<char>) -> LookupV {
    let lname = lower_of(name);
    let ps = trimmed_parts_from(lname, 0);
    let np: int = if has_sep(lname) {
        ps.len() as int
    } else {
        0
    };
    LookupV {
        full: CardCorpusV { texts: v.full.texts.insert(lname), to_full: v.full.to_full },
        parts: Seq::new(
            vstd::math::max(v.parts.len() as int, np) as nat,
            |j: int|
                if j < np {
                    inserted_part(v, ps, lname, j)
                } else {
                    base_part(v, j)
                },
        ),
    }
}

/// The lookup built by indexing the first `i` names of a list, in order,
/// into an empty lookup: the fold of [`lookup_insert_v`].
pub open spec fn build_lookup_to(names: Seq<String>, i: int) -> LookupV
    decreases i when 0 <= i
{
    if i <= 0 {
        empty_lookup_v()
    } else {
        lookup_insert_v(build_lookup_to(names, i - 1), names[i - 1]@)
    }
}

/// Law: building a lookup from a name list indexes every trimmed part of
/// every two-part name into its part corpus — a one-sided query can reach
/// any face of any listed name.
pub proof fn lemma_built_lookup_indexes_parts(names: Seq<String>, n: int, i: int, k: int)
    requires
        0 <= i < n <= names.len(),
        has_sep(lower_of(names[i]@)),
        0 <= k < trimmed_parts_from(lower_of(names[i]@), 0).len(),
    ensures
        build_lookup_to(names, n).parts.len() > k,
        build_lookup_to(names, n).parts[k].texts.contains(
            trimmed_parts_from(lower_of(names[i]@), 0)[k],
        ),
    decreases n,
{
    let prev = build_lookup_to(names, n - 1);
    let stepped = lookup_insert_v(prev, names[n - 1]@);
    assert(build_lookup_to(names, n) == stepped);
    let lname = lower_of(names[n - 1]@);
    let ps = trimmed_parts_from(lname, 0);
    let np: int = if has_sep(lname) {
        ps.len() as int
    } else {
        0
    };
    if i == n - 1 {
        assert(k < np);
        assert(stepped.parts[k] == inserted_part(prev, ps, lname, k));
        assert(stepped.parts[k].texts.contains(ps[k]));
    } else {
        lemma_built_lookup_indexes_parts(names, n - 1, i, k);
        let piece = trimmed_parts_from(lower_of(names[i]@), 0)[k];
        assert(prev.parts[k].texts.contains(piece));
        if k < np {
            assert(stepped.parts[k] == inserted_part(prev, ps, lname, k));
            assert(base_part(prev, k).texts.contains(piece));
        } else {
            assert(stepped.parts[k] == base_part(prev, k));
        }
    }
}

/// How many corpora a lookup holds: the full-name corpus plus one per part
/// position.
pub open spec fn slot_count(v: LookupV) -> int {
    1 + v.parts.len() as int
}

/// Corpus number `k`: 0 is the full-name corpus, `k >= 1` is the corpus of
/// part `k - 1`.
pub open spec fn slot_view(v: LookupV, k: int) -> CardCorpusV {
    if k == 0 {
        v.full
    } else {
        v.parts[k - 1]
    }
}

/// The match mode corpus number `k` reports.
pub open spec fn slot_mode(k: int) -> NameMatchMode {
    if k == 0 {
        NameMatchMode::Full
    } else {
        NameMatchMode::Part((k - 1) as usize)
    }
}

/// Well-formedness of a lookup: the full-name corpus maps no fragments, and
/// every text of a part corpus resolves to a held full name.
pub open spec fn lookup_wf(v: LookupV) -> bool {
    &&& v.full.to_full == Map::<Seq<char>, Seq<char>>::empty()
    &&& forall|k: int, t: Seq<char>|
        0 <= k < v.parts.len() && (#[trigger] v.parts[k].texts.contains(t))
            ==> v.full.texts.contains(full_of(v.parts[k], t))
    &&& forall|k: int, t: Seq<char>|
        0 <= k < v.parts.len() && (#[trigger] v.parts[k].to_full.contains_key(t))
            ==> v.full.texts.contains(v.parts[k].to_full[t])
}

/// Fuzzy lookup over a set of canonical card names, with one corpus for the
/// full names and one per part position of two-part names.
pub struct CardNameLookup {
    full: CardCorpus,
    parts: Vec<CardCorpus>,
}

impl View for CardNameLookup {
    type V = LookupV;

    closed spec fn view(&self) -> LookupV {
        LookupV { full: self.full@, parts: self.parts@.map_values(|c: CardCorpus| c@) }
    }
}

impl CardNameLookup {
    /// An empty lookup.
    pub fn new() -> (r: CardNameLookup)
        ensures
            r@ == empty_lookup_v(),
            lookup_wf(r@),
    {
        let r = CardNameLookup { full: CardCorpus::new(), parts: Vec::new() };
        proof {
            assert(r@.parts =~= Seq::<CardCorpusV>::empty());
            assert(r@ =~= empty_lookup_v());
        }
        r
    }

    /// Indexes one canonical name: the lower-cased name goes into the
    /// full-name corpus, and — when it holds the two-face separator `//` —
    /// each trimmed part goes into that part's corpus, recording the full
    /// name it stands for.
    pub fn insert(&mut self, name_uppercase: &str)
        ensures
            ({
                let lname = lower_of(name_uppercase@);
                let ps = trimmed_parts_from(lname, 0);
                let np: int = if has_sep(lname) {
                    ps.len() as int
                } else {
                    0
                };
                &&& final(self)@.full.texts == old(self)@.full.texts.insert(lname)
                &&& final(self)@.full.to_full == old(self)@.full.to_full
                &&& final(self)@.parts.len() == vstd::math::max(old(self)@.parts.len() as int, np)
                &&& forall|j: int|
                    0 <= j < final(self)@.parts.len() ==> (#[trigger] final(self)@.parts[j]) == (
                    if j < np {
                        inserted_part(old(self)@, ps, lname, j)
                    } else {
                        base_part(old(self)@, j)
                    })
                &&& final(self)@ == lookup_insert_v(old(self)@, name_uppercase@)
                &&& lookup_wf(old(self)@) ==> lookup_wf(final(self)@)
            }),
    {
        let lname = lowercase(name_uppercase);
        let lv = chars_vec(lname.as_str());
        let n = lv.len();
        let ghost s = lname@;
        let ghost ps = trimmed_parts_from(s, 0);
        let ghost orig = self@;
        self.full.insert(lname.as_str(), lname.as_str());
        let ghost mid = self@;
        proof {
            assert(mid.parts =~= orig.parts);
        }
        let first_sep = scan_sep(&lv, 0);
        if first_sep < n {
            let ghost np = ps.len() as int;
            let mut from: usize = 0;
            let mut k: usize = 0;
            loop
                invariant_except_break
                    ps =~= ps.subrange(0, k as int) + trimmed_parts_from(s, from as int),
                    k + trimmed_parts_from(s, from as int).len() == np,
                invariant
                    lname@ == s,
                    lv@ == s,
                    n == s.len(),
                    has_sep(s),
                    0 <= from <= n,
                    np == ps.len() as int,
                    self@.full == mid.full,
                    self@.parts.len() == vstd::math::max(mid.parts.len() as int, k as int),
                    forall|j: int|
                        0 <= j < k ==> (#[trigger] self@.parts[j]) == inserted_part(
                            LookupV { full: mid.full, parts: mid.parts },
                            ps,
                            s,
                            j,
                        ),
                    forall|j: int|
                        k <= j < self@.parts.len() ==> (#[trigger] self@.parts[j]) == base_part(
                            LookupV { full: mid.full, parts: mid.parts },
                            j,
                        ),
                ensures
                    k == np,
                    self@.full == mid.full,
                    self@.parts.len() == vstd::math::max(mid.parts.len() as int, np),
                    forall|j: int|
                        0 <= j < k ==> (#[trigger] self@.parts[j]) == inserted_part(
                            LookupV { full: mid.full, parts: mid.parts },
                            ps,
                            s,
                            j,
                        ),
                    forall|j: int|
                        k <= j < self@.parts.len() ==> (#[trigger] self@.parts[j]) == base_part(
                            LookupV { full: mid.full, parts: mid.parts },
                            j,
                        ),
                decreases n - from,
            {
                let ghost vmid = LookupV { full: mid.full, parts: mid.parts };
                let ghost pre_loop = self@;
                let p = scan_sep(&lv, from);
                let hi = if p < n {
                    p
                } else {
                    n
                };
                let a = scan_spaces(&lv, from, hi);
                let b = rscan_spaces(&lv, hi, a);
                let piece: String = lname.as_str().substring_char(a, b).to_owned();
                proof {
                    assert(trimmed_parts_from(s, from as int)[0] == s.subrange(a as int, b as int));
                    assert(ps[k as int] == piece@);
                }
                while self.parts.len() <= k
                    invariant
                        self@.full == pre_loop.full,
                        self@.parts.len() >= pre_loop.parts.len(),
                        pre_loop.parts.len() > k ==> self@.parts.len() == pre_loop.parts.len(),
                        pre_loop.parts.len() <= k ==> self@.parts.len() <= k + 1,
                        forall|j: int|
                            0 <= j < pre_loop.parts.len() ==> (#[trigger] self@.parts[j])
                                == pre_loop.parts[j],
                        forall|j: int|
                            pre_loop.parts.len() <= j < self@.parts.len() ==> (
                            #[trigger] self@.parts[j]) == empty_corpus_v(),
                    decreases k + 1 - self.parts.len(),
                {
                    let c = CardCorpus::new();
                    let ghost before = self@.parts;
                    self.parts.push(c);
                    proof {
                        assert(self@.parts =~= before.push(c@));
                        assert(c@ == empty_corpus_v());
                    }
                }
                let ghost grown = self@.parts;
                proof {
                    assert(grown.len() == vstd::math::max(pre_loop.parts.len() as int, k + 1));
                    assert(grown[k as int] == base_part(vmid, k as int));
                }
                let mut pc = self.parts.remove(k);
                pc.insert(piece.as_str(), lname.as_str());
                self.parts.insert(k, pc);
                proof {
                    assert(self.parts@ =~= self.parts@);
                    assert(self@.parts.len() == grown.len());
                    assert forall|j: int| 0 <= j < self@.parts.len() implies (
                    #[trigger] self@.parts[j]) == (if j == k as int {
                        pc@
                    } else {
                        grown[j]
                    }) by {
                        if j < k as int {
                            assert(self.parts@[j] == self.parts@[j]);
                        }
                    }
                    assert(pc@ == inserted_part(vmid, ps, s, k as int));
                }
                k = k + 1;
                if p < n {
                    proof {
                        assert(ps.subrange(0, k as int) =~= ps.subrange(0, k - 1 as int) + seq![
                            ps[k - 1 as int],
                        ]);
                    }
                    from = p + 2;
                } else {
                    proof {
                        assert(trimmed_parts_from(s, from as int).len() == 1);
                        assert(ps =~= ps.subrange(0, np));
                    }
                    break ;
                }
            }
        }
        proof {
            let lname_g = lower_of(name_uppercase@);
            let np: int = if has_sep(s) {
                ps.len() as int
            } else {
                0
            };
            assert(final(self)@.parts.len() == vstd::math::max(old(self)@.parts.len() as int, np));
            let tv = lookup_insert_v(old(self)@, name_uppercase@);
            assert(final(self)@.parts.len() == tv.parts.len());
            assert forall|j: int| 0 <= j < final(self)@.parts.len() implies (
            #[trigger] final(self)@.parts[j]) == tv.parts[j] by {
                assert(tv.parts[j] == (if j < np {
                    inserted_part(old(self)@, ps, lname_g, j)
                } else {
                    base_part(old(self)@, j)
                }));
            }
            assert(final(self)@.parts =~= tv.parts);
            assert(final(self)@ =~= tv);
            if lookup_wf(old(self)@) {
                let fv = final(self)@;
                let ov = old(self)@;
                assert forall|k: int, t: Seq<char>|
                    0 <= k < fv.parts.len() && (#[trigger] fv.parts[k].texts.contains(t)) implies
                    fv.full.texts.contains(full_of(fv.parts[k], t)) by {
                    if k < np && fv.parts[k] == inserted_part(ov, ps, lname_g, k) {
                        let base = base_part(ov, k);
                        if t == ps[k] && ps[k] != lname_g {
                            assert(fv.parts[k].to_full[t] == lname_g);
                        } else if base.texts.contains(t) {
                            if k < ov.parts.len() {
                                assert(ov.full.texts.contains(full_of(ov.parts[k], t)));
                                if ps[k] != lname_g && t == ps[k] {
                                } else {
                                    assert(full_of(fv.parts[k], t) == full_of(ov.parts[k], t));
                                }
                            }
                        } else {
                            assert(t == ps[k]);
                            assert(full_of(fv.parts[k], t) == lname_g || (k < ov.parts.len()
                                && ov.parts[k].to_full.contains_key(t)));
                        }
                    } else {
                        assert(fv.parts[k] == base_part(ov, k));
                        assert(k < ov.parts.len());
                    }
                }
                assert forall|k: int, t: Seq<char>|
                    0 <= k < fv.parts.len() && (#[trigger] fv.parts[k].to_full.contains_key(t))
                    implies fv.full.texts.contains(fv.parts[k].to_full[t]) by {
                    if k < np {
                        assert(fv.parts[k] == inserted_part(ov, ps, lname_g, k));
                        if ps[k] != lname_g && t == ps[k] {
                            assert(fv.parts[k].to_full[t] == lname_g);
                        } else {
                            assert(k < ov.parts.len() && ov.parts[k].to_full.contains_key(t));
                        }
                    } else {
                        assert(fv.parts[k] == base_part(ov, k));
                        assert(k < ov.parts.len());
                    }
                }
            }
        }
    }

    /// Builds a lookup from a list of canonical card names: exactly the fold
    /// of [`lookup_insert_v`] over the names in order, so the full-name
    /// corpus holds every lower-cased name and each part corpus holds the
    /// trimmed parts of every two-part name, with their mappings back to the
    /// full names.
    pub fn from_card_names(names: &Vec<String>) -> (r: CardNameLookup)
        ensures
            r@ == build_lookup_to(names@, names@.len() as int),
            lookup_wf(r@),
            r@.full.texts == Set::new(
                |t: Seq<char>| exists|i: int| 0 <= i < names@.len() && t == lower_of(names@[i]@),
            ),
    {
        let mut lookup = CardNameLookup::new();
        let n = names.len();
        let mut i: usize = 0;
        while i < n
            invariant
                n == names@.len(),
                i <= n,
                lookup_wf(lookup@),
                lookup@ == build_lookup_to(names@, i as int),
                lookup@.full.texts =~= Set::new(
                    |t: Seq<char>| exists|j: int| 0 <= j < i && t == lower_of(names@[j]@),
                ),
            decreases n - i,
        {
            let ghost pre = lookup@.full.texts;
            let ghost prev = lookup@;
            lookup.insert(names[i].as_str());
            proof {
                assert(lookup@ == lookup_insert_v(prev, names@[i as int]@));
                assert(lookup@ == build_lookup_to(names@, i + 1));
                assert(lookup@.full.texts =~= Set::new(
                    |t: Seq<char>| exists|j: int| 0 <= j < i + 1 && t == lower_of(names@[j]@),
                )) by {
                    assert forall|t: Seq<char>|
                        pre.insert(lower_of(names@[i as int]@)).contains(t) implies Set::new(
                        |t: Seq<char>| exists|j: int| 0 <= j < i + 1 && t == lower_of(names@[j]@),
                    ).contains(t) by {
                        if pre.contains(t) {
                            let j = choose|j: int| 0 <= j < i && t == lower_of(names@[j]@);
                            assert(0 <= j < i + 1 && t == lower_of(names@[j]@));
                        } else {
                            assert(t == lower_of(names@[i as int]@));
                        }
                    }
                }
            }
            i = i + 1;
        }
        proof {
            assert(lookup@.full.texts =~= Set::new(
                |t: Seq<char>| exists|j: int| 0 <= j < names@.len() && t == lower_of(names@[j]@),
            ));
        }
        lookup
    }

    /// Finds the best fuzzy match for a query across all corpora. The query
    /// is lower-cased; each corpus proposes its best text at or above the
    /// similarity threshold; the overall winner has maximal similarity, an
    /// earlier corpus (the full-name corpus first, then parts in order)
    /// winning ties. Returns nothing only when no corpus clears the
    /// threshold; a query whose lower-cased form is itself an indexed full
    /// name always finds a match.
    pub fn find(&self, name_uppercase: &str) -> (r: Option<NameLookupResult>)
        ensures
            ({
                let lq = lower_of(name_uppercase@);
                match r {
                    None => no_match(self@, lq),
                    Some(res) => exists|k0: int, t: Seq<char>|
                        #[trigger] chosen_at(self@, lq, res@, k0, t),
                }
            }),
            (match r {
                Some(res) => lookup_wf(self@) ==> self@.full.texts.contains(res.name@),
                None => true,
            }),
            self@.full.texts.contains(lower_of(name_uppercase@)) ==> r is Some,
    {
        let lq = lowercase(name_uppercase);
        let ghost lqs = lower_of(name_uppercase@);
        let ghost v = self@;
        let mut best: Option<(String, u32, NameMatchMode)> = match self.full.find(lq.as_str()) {
            Some((nm, sc)) => Some((nm, sc, NameMatchMode::Full)),
            None => None,
        };
        let ghost had_exact = v.full.texts.contains(lqs);
        proof {
            if had_exact {
                assert(best is Some);
            }
        }
        proof {
            assert(slot_view(v, 0) == v.full);
            match &best {
                Some((nm, sc, mode)) => {
                    let t = choose|t: Seq<char>|
                        {
                            &&& v.full.texts.contains(t)
                            &&& #[trigger] ngram_score(lqs, t) == *sc
                            &&& nm@ == full_of(v.full, t)
                        };
                    assert forall|m: int, u: Seq<char>|
                        0 <= m < 1 && (#[trigger] slot_view(v, m).texts.contains(u)) implies
                        ngram_score(lqs, u) <= *sc by {
                        assert(slot_view(v, 0) == v.full);
                    }
                    assert(inv_some_at(v, lqs, nm@, *sc, *mode, 1, 0, t));
                    assert(best_inv(v, lqs, best, 1));
                },
                None => {
                    assert forall|m: int, u: Seq<char>|
                        0 <= m < 1 && (#[trigger] slot_view(v, m).texts.contains(u)) implies
                        ngram_score(lqs, u) < SIMILARITY_THRESHOLD_BITS by {
                        assert(slot_view(v, 0) == v.full);
                    }
                    assert(best_inv(v, lqs, best, 1));
                },
            }
        }
        let np = self.parts.len();
        let mut k: usize = 0;
        while k < np
            invariant
                np == self@.parts.len(),
                k <= np,
                v == self@,
                lqs == lq@,
                had_exact == v.full.texts.contains(lqs),
                had_exact ==> best is Some,
                best_inv(v, lqs, best, 1 + k as int),
            decreases np - k,
        {
            let cand = self.parts[k].find(lq.as_str());
            proof {
                assert(self@.parts[k as int] == self.parts@[k as int]@);
                assert(slot_view(v, 1 + k as int) == self.parts@[k as int]@);
            }
            let ghost old_best = best;
            match cand {
                Some((nm, sc)) => {
                    let replace = match &best {
                        Some((_, bs, _)) => sc > *bs,
                        None => true,
                    };
                    if replace {
                        proof {
                            let t = choose|t: Seq<char>|
                                {
                                    &&& self.parts@[k as int]@.texts.contains(t)
                                    &&& #[trigger] ngram_score(lqs, t) == sc
                                    &&& nm@ == full_of(self.parts@[k as int]@, t)
                                };
                            assert(slot_view(v, 1 + k as int).texts.contains(t));
                            assert forall|m: int, u: Seq<char>|
                                0 <= m < 1 + k && (#[trigger] slot_view(v, m).texts.contains(u))
                                implies ngram_score(lqs, u) < sc by {
                                match old_best {
                                    Some((ref onm, osc, omode)) => {
                                        let (ok0, ot) = choose|ok0: int, ot: Seq<char>|
                                            #[trigger] inv_some_at(
                                                v,
                                                lqs,
                                                onm@,
                                                osc,
                                                omode,
                                                1 + k as int,
                                                ok0,
                                                ot,
                                            );
                                        assert(ngram_score(lqs, u) <= osc);
                                    },
                                    None => {},
                                }
                            }
                            assert forall|m: int, u: Seq<char>|
                                0 <= m < 2 + k && (#[trigger] slot_view(v, m).texts.contains(u))
                                implies ngram_score(lqs, u) <= sc by {
                                if m < 1 + k {
                                    assert(ngram_score(lqs, u) < sc);
                                } else {
                                    assert(m == 1 + k as int);
                                    assert(slot_view(v, m) == self.parts@[k as int]@);
                                }
                            }
                            assert(inv_some_at(
                                v,
                                lqs,
                                nm@,
                                sc,
                                NameMatchMode::Part(k),
                                2 + k as int,
                                1 + k as int,
                                t,
                            ));
                        }
                        best = Some((nm, sc, NameMatchMode::Part(k)));
                        proof {
                            match &best {
                                Some(b) => {
                                    assert(b.0@ == nm@ && b.1 == sc && b.2
                                        == NameMatchMode::Part(k));
                                    assert(exists|k0: int, t: Seq<char>|
                                        #[trigger] inv_some_at(
                                            v,
                                            lqs,
                                            b.0@,
                                            b.1,
                                            b.2,
                                            2 + k as int,
                                            k0,
                                            t,
                                        ));
                                    assert(best_inv(v, lqs, best, 2 + k as int));
                                },
                                None => {
                                    assert(false);
                                },
                            }
                        }
                    } else {
                        proof {
                            match &best {
                                Some((bn, bs, bm)) => {
                                    let (ok0, ot) = choose|ok0: int, ot: Seq<char>|
                                        #[trigger] inv_some_at(
                                            v,
                                            lqs,
                                            bn@,
                                            *bs,
                                            *bm,
                                            1 + k as int,
                                            ok0,
                                            ot,
                                        );
                                    assert forall|m: int, u: Seq<char>|
                                        0 <= m < 2 + k && (#[trigger] slot_view(
                                            v,
                                            m,
                                        ).texts.contains(u)) implies ngram_score(lqs, u) <= *bs by {
                                        if m == 1 + k as int {
                                            assert(slot_view(v, m) == self.parts@[k as int]@);
                                            assert(ngram_score(lqs, u) <= sc);
                                        }
                                    }
                                    assert(inv_some_at(
                                        v,
                                        lqs,
                                        bn@,
                                        *bs,
                                        *bm,
                                        2 + k as int,
                                        ok0,
                                        ot,
                                    ));
                                    assert(best_inv(v, lqs, best, 2 + k as int));
                                },
                                None => {},
                            }
                        }
                    }
                },
                None => {
                    proof {
                        match &best {
                            Some((bn, bs, bm)) => {
                                let (ok0, ot) = choose|ok0: int, ot: Seq<char>|
                                    #[trigger] inv_some_at(
                                        v,
                                        lqs,
                                        bn@,
                                        *bs,
                                        *bm,
                                        1 + k as int,
                                        ok0,
                                        ot,
                                    );
                                assert forall|m: int, u: Seq<char>|
                                    0 <= m < 2 + k && (#[trigger] slot_view(
                                        v,
                                        m,
                                    ).texts.contains(u)) implies ngram_score(lqs, u) <= *bs by {
                                    if m == 1 + k as int {
                                        assert(slot_view(v, m) == self.parts@[k as int]@);
                                        assert(ngram_score(lqs, u)
                                            < SIMILARITY_THRESHOLD_BITS);
                                    }
                                }
                                assert(inv_some_at(v, lqs, bn@, *bs, *bm, 2 + k as int, ok0, ot));
                                assert(best_inv(v, lqs, best, 2 + k as int));
                            },
                            None => {
                                assert forall|m: int, u: Seq<char>|
                                    0 <= m < 2 + k && (#[trigger] slot_view(
                                        v,
                                        m,
                                    ).texts.contains(u)) implies ngram_score(lqs, u)
                                    < SIMILARITY_THRESHOLD_BITS by {
                                    if m == 1 + k as int {
                                        assert(slot_view(v, m) == self.parts@[k as int]@);
                                    }
                                }
                                assert(best_inv(v, lqs, best, 2 + k as int));
                            },
                        }
                    }
                },
            }
            k = k + 1;
        }
        match best {
            Some((nm, sc, mode)) => {
                let r = NameLookupResult { name: nm, hit: mode };
                proof {
                    assert(best_inv(v, lqs, Some((r.name, sc, mode)), 1 + np as int));
                    let (ok0, ot) = choose|ok0: int, ot: Seq<char>|
                        #[trigger] inv_some_at(v, lqs, r.name@, sc, mode, 1 + np as int, ok0, ot);
                    assert(slot_count(v) == 1 + np as int);
                    assert(chosen_at(v, lqs, r@, ok0, ot));
                    if lookup_wf(self@) {
                        if ok0 == 0 {
                            assert(full_of(v.full, ot) == ot);
                        } else {
                            assert(v.parts[ok0 - 1].texts.contains(ot));
                        }
                    }
                }
                Some(r)
            },
            None => None,
        }
    }
}

/// The cross-corpus scan invariant: with no winner yet, every text of a
/// scanned corpus is below the threshold; with a winner, some scanned corpus
/// justifies it.
pub open spec fn best_inv(
    v: LookupV,
    lq: Seq<char>,
    best: Option<(String, u32, NameMatchMode)>,
    scanned: int,
) -> bool {
    match best {
        None => forall|m: int, u: Seq<char>|
            0 <= m < scanned && (#[trigger] slot_view(v, m).texts.contains(u)) ==> ngram_score(
                lq,
                u,
            ) < SIMILARITY_THRESHOLD_BITS,
        Some(b) => exists|k0: int, t: Seq<char>|
            #[trigger] inv_some_at(v, lq, b.0@, b.1, b.2, scanned, k0, t),
    }
}

/// No corpus clears the similarity threshold for this (already
/// lower-cased) query: the fuzzy lookup must miss.
pub open spec fn no_match(v: LookupV, lq: Seq<char>) -> bool {
    forall|k: int, u: Seq<char>|
        0 <= k < slot_count(v) && (#[trigger] slot_view(v, k).texts.contains(u)) ==> ngram_score(
            lq,
            u,
        ) < SIMILARITY_THRESHOLD_BITS
}

/// A found result's justification: text `t` of corpus `k0` scored at or
/// above the threshold, resolves to the result's name, reports the result's
/// mode, scores at least every text of every corpus, and scores strictly
/// above every text of every earlier corpus (so the full-name corpus wins
/// ties over part corpora, and a lower part index wins ties over a higher
/// one).
pub open spec fn chosen_at(
    v: LookupV,
    lq: Seq<char>,
    res: NameLookupResultV,
    k0: int,
    t: Seq<char>,
) -> bool {
    &&& 0 <= k0 < slot_count(v)
    &&& slot_view(v, k0).texts.contains(t)
    &&& res.hit == slot_mode(k0)
    &&& res.name == full_of(slot_view(v, k0), t)
    &&& ngram_score(lq, t) >= SIMILARITY_THRESHOLD_BITS
    &&& forall|m: int, u: Seq<char>|
        0 <= m < slot_count(v) && (#[trigger] slot_view(v, m).texts.contains(u)) ==> ngram_score(
            lq,
            u,
        ) <= ngram_score(lq, t)
    &&& forall|m: int, u: Seq<char>|
        0 <= m < k0 && (#[trigger] slot_view(v, m).texts.contains(u)) ==> ngram_score(lq, u)
            < ngram_score(lq, t)
}

/// The invariant of the cross-corpus scan while a winner is held: some
/// corpus below `scanned` holds a witness text with score `sc`, every text
/// of a scanned corpus scores at most `sc`, and every text of a corpus
/// before the witness scores strictly below `sc`.
pub open spec fn inv_some_at(
    v: LookupV,
    lq: Seq<char>,
    nm: Seq<char>,
    sc: u32,
    mode: NameMatchMode,
    scanned: int,
    k0: int,
    t: Seq<char>,
) -> bool {
    &&& 0 <= k0 < scanned
    &&& k0 < slot_count(v)
    &&& slot_view(v, k0).texts.contains(t)
    &&& mode == slot_mode(k0)
    &&& nm == full_of(slot_view(v, k0), t)
    &&& ngram_score(lq, t) == sc
    &&& sc >= SIMILARITY_THRESHOLD_BITS
    &&& forall|m: int, u: Seq<char>|
        0 <= m < scanned && (#[trigger] slot_view(v, m).texts.contains(u)) ==> ngram_score(lq, u)
            <= sc
    &&& forall|m: int, u: Seq<char>|
        0 <= m < k0 && (#[trigger] slot_view(v, m).texts.contains(u)) ==> ngram_score(lq, u) < sc
}

} // verus!
